use vstd::prelude::*;

verus! {

/// Where a proposal stands.
#[derive(Clone, Copy, Debug, PartialEq, Eq, Structural)]
pub enum ProposalStatus {
    Open,
    Accepted,
    Rejected,
    Expired,
}

/// Configurable majority threshold.
#[derive(Clone, Copy, Debug)]
pub struct QuorumThreshold {
    /// Fraction of decisive (non-abstain) votes needed to pass, in parts per thousand.
    pub majority_fraction: u32,
    /// Minimum number of votes required, abstentions included.
    pub min_votes: usize,
}

/// The ratio `part / decisive` in parts per thousand, rounded down.
pub open spec fn per_mille(part: int, decisive: int) -> int {
    (part * 1000) / decisive
}

/// Whether the counts `(f, a, ab)` of For, Against and Abstain votes meet the threshold:
/// enough votes in all, at least one decisive vote, and a large enough share of For
/// among the decisive ones.
pub open spec fn threshold_met(t: QuorumThreshold, f: usize, a: usize, ab: usize) -> bool {
    &&& f + a + ab >= t.min_votes
    &&& f + a != 0
    &&& per_mille(f as int, f + a) >= t.majority_fraction
}

/// The counts whose total fits in a `usize`, as the library adds them up there.
pub open spec fn counts_fit(f: usize, a: usize, ab: usize) -> bool {
    f + a + ab <= usize::MAX
}

/// Whether, with more Against than For, the Against side reaches the threshold fraction.
pub open spec fn against_meets_fraction(t: QuorumThreshold, f: usize, a: usize) -> bool {
    per_mille(a as int, f + a) >= t.majority_fraction
}

/// The outcome of a round with counts `(f, a, ab)`: accepted when the threshold is met,
/// rejected when Against outnumbers For and reaches the threshold fraction itself,
/// open otherwise.
pub open spec fn round_outcome(t: QuorumThreshold, f: usize, a: usize, ab: usize) -> ProposalStatus {
    if threshold_met(t, f, a, ab) {
        ProposalStatus::Accepted
    } else if a > f && against_meets_fraction(t, f, a) {
        ProposalStatus::Rejected
    } else {
        ProposalStatus::Open
    }
}

impl QuorumThreshold {
    /// 50% of decisive votes, at least one vote.
    pub fn simple_majority() -> (t: Self)
        ensures
            t.majority_fraction == 500,
            t.min_votes == 1,
    {
        QuorumThreshold { majority_fraction: 500, min_votes: 1 }
    }

    /// About 66.7% of decisive votes, at least one vote.
    pub fn super_majority() -> (t: Self)
        ensures
            t.majority_fraction == 667,
            t.min_votes == 1,
    {
        QuorumThreshold { majority_fraction: 667, min_votes: 1 }
    }

    /// All decisive votes, at least one vote.
    pub fn unanimous() -> (t: Self)
        ensures
            t.majority_fraction == 1000,
            t.min_votes == 1,
    {
        QuorumThreshold { majority_fraction: 1000, min_votes: 1 }
    }

    /// A custom fraction (clamped to 1000 parts per thousand) and minimum vote count.
    pub fn custom(majority_fraction: u32, min_votes: usize) -> (t: Self)
        ensures
            t.majority_fraction == if majority_fraction < 1000 { majority_fraction } else { 1000 },
            t.min_votes == min_votes,
    {
        let fraction: u32 = if majority_fraction < 1000 { majority_fraction } else { 1000 };
        QuorumThreshold { majority_fraction: fraction, min_votes }
    }

    /// Whether the vote counts meet the threshold. Abstentions count toward the
    /// minimum number of votes only; the fraction is taken over decisive votes.
    pub fn is_met(&self, for_votes: usize, against_votes: usize, abstain_votes: usize) -> (r: bool)
        requires
            counts_fit(for_votes, against_votes, abstain_votes),
        ensures
            r == threshold_met(*self, for_votes, against_votes, abstain_votes),
    {
        let total_votes = for_votes + against_votes + abstain_votes;
        if total_votes < self.min_votes {
            return false;
        }
        let decisive = for_votes + against_votes;
        if decisive == 0 {
            return false;
        }
        let ratio: u128 = (for_votes as u128 * 1000) / (decisive as u128);
        ratio >= self.majority_fraction as u128
    }
}


/// Rounding a quotient down keeps a lower bound iff the dividend reaches it times the divisor.
proof fn lemma_floor_div_at_least(x: int, d: int, m: int)
    requires
        x >= 0,
        d > 0,
        m >= 0,
    ensures
        x / d >= m <==> x >= m * d,
{
    assert(x / d >= m <==> x >= m * d) by (nonlinear_arith)
        requires
            x >= 0,
            d > 0,
            m >= 0,
    {
        let q = x / d;
        let r = x % d;
        assert(x == d * q + r);
        assert(0 <= r < d);
        if q >= m {
            assert(d * q >= d * m);
        } else {
            assert(d * q <= d * (m - 1));
        }
    }
}

/// The threshold is met exactly when there are enough votes, at least one of them
/// decisive, and For reaches `majority_fraction` thousandths of the decisive votes:
/// `1000 * for >= majority_fraction * (for + against)`.
pub proof fn lemma_met_iff_fraction(t: QuorumThreshold, f: usize, a: usize, ab: usize)
    ensures
        threshold_met(t, f, a, ab) <==> {
            &&& f + a + ab >= t.min_votes
            &&& f + a > 0
            &&& 1000 * f >= t.majority_fraction * (f + a)
        },
{
    if f + a > 0 {
        lemma_floor_div_at_least(f * 1000, f + a, t.majority_fraction as int);
    }
}

/// Abstentions count toward the minimum number of votes and nothing else: once the
/// minimum is reached, how many abstained does not change whether the threshold is met.
pub proof fn lemma_abstentions_do_not_sway(
    t: QuorumThreshold,
    f: usize,
    a: usize,
    ab1: usize,
    ab2: usize,
)
    requires
        f + a + ab1 >= t.min_votes,
        f + a + ab2 >= t.min_votes,
    ensures
        threshold_met(t, f, a, ab1) == threshold_met(t, f, a, ab2),
{
}

/// A simple majority is met exactly when there is a decisive vote and For is at least
/// Against (a tie passes).
pub proof fn lemma_simple_majority(f: usize, a: usize, ab: usize)
    ensures
        threshold_met(QuorumThreshold { majority_fraction: 500, min_votes: 1 }, f, a, ab)
            <==> (f + a > 0 && f >= a),
{
    lemma_met_iff_fraction(QuorumThreshold { majority_fraction: 500, min_votes: 1 }, f, a, ab);
}

/// A unanimous threshold is met exactly when someone votes For and nobody votes Against;
/// abstentions do not block it.
pub proof fn lemma_unanimous(f: usize, a: usize, ab: usize)
    ensures
        threshold_met(QuorumThreshold { majority_fraction: 1000, min_votes: 1 }, f, a, ab)
            <==> (f > 0 && a == 0),
{
    lemma_met_iff_fraction(QuorumThreshold { majority_fraction: 1000, min_votes: 1 }, f, a, ab);
}

/// A round is rejected exactly when the threshold is not met, Against outnumbers For,
/// and Against reaches `majority_fraction` thousandths of the decisive votes.
pub proof fn lemma_rejected_iff_against_fraction(t: QuorumThreshold, f: usize, a: usize, ab: usize)
    ensures
        (round_outcome(t, f, a, ab) == ProposalStatus::Rejected) <==> {
            &&& !threshold_met(t, f, a, ab)
            &&& a > f
            &&& 1000 * a >= t.majority_fraction * (f + a)
        },
{
    if a > f {
        lemma_floor_div_at_least(a * 1000, f + a, t.majority_fraction as int);
    }
}

/// Whenever more than half of the decisive votes are needed, a proposal that meets the
/// threshold has strictly more For than Against, and a rejected one strictly more
/// Against than For: acceptance and rejection are decided by a true majority.
pub proof fn lemma_supermajority_needs_majority(t: QuorumThreshold, f: usize, a: usize, ab: usize)
    requires
        t.majority_fraction > 500,
    ensures
        threshold_met(t, f, a, ab) ==> f > a,
        round_outcome(t, f, a, ab) == ProposalStatus::Rejected ==> a > f,
{
    lemma_met_iff_fraction(t, f, a, ab);
    if threshold_met(t, f, a, ab) {
        assert(1000 * f >= t.majority_fraction * (f + a));
        assert(t.majority_fraction * (f + a) >= 501 * (f + a)) by (nonlinear_arith)
            requires
                t.majority_fraction > 500,
                f + a >= 0,
        ;
    }
}


/// What a count decides, in terms of the counts alone: accepted exactly when there are
/// at least `min_votes` votes (abstentions included), at least one decisive vote, and
/// `1000 * for >= majority_fraction * (for + against)`; rejected exactly when it is not
/// accepted, Against outnumbers For and `1000 * against >= majority_fraction * (for +
/// against)`; open otherwise. The number of abstentions matters only through the minimum.
pub proof fn lemma_outcome_decided_by_counts(t: QuorumThreshold, f: usize, a: usize, ab: usize)
    ensures
        (round_outcome(t, f, a, ab) == ProposalStatus::Accepted) <==> {
            &&& f + a + ab >= t.min_votes
            &&& f + a > 0
            &&& 1000 * f >= t.majority_fraction * (f + a)
        },
        (round_outcome(t, f, a, ab) == ProposalStatus::Rejected) <==> {
            &&& !(f + a + ab >= t.min_votes && f + a > 0 && 1000 * f >= t.majority_fraction * (f
                + a))
            &&& a > f
            &&& 1000 * a >= t.majority_fraction * (f + a)
        },
        round_outcome(t, f, a, ab) == ProposalStatus::Accepted || round_outcome(t, f, a, ab)
            == ProposalStatus::Rejected || round_outcome(t, f, a, ab) == ProposalStatus::Open,
{
    lemma_met_iff_fraction(t, f, a, ab);
    lemma_rejected_iff_against_fraction(t, f, a, ab);
}

} // verus!
