use vstd::prelude::*;

use crate::ternary::RoundId;
use crate::threshold::{
    counts_fit, lemma_outcome_decided_by_counts, round_outcome, ProposalStatus, QuorumThreshold,
};

verus! {

/// The counts and outcome recorded for one round.
#[derive(Clone, Debug)]
pub struct RoundResult {
    pub round: RoundId,
    pub for_votes: usize,
    pub against_votes: usize,
    pub abstain_votes: usize,
    pub outcome: Option<ProposalStatus>,
}

/// Multi-round voting with escalation.
#[derive(Clone, Debug)]
pub struct QuorumRound {
    pub current_round: RoundId,
    pub max_rounds: u32,
    pub results: Vec<RoundResult>,
}

/// Whether a round at `current` may advance under the limit `max_rounds`; the round
/// number is compared as a 32-bit value.
pub open spec fn may_advance(current: RoundId, max_rounds: u32) -> bool {
    (current.0 as u32) < max_rounds
}

/// What a multi-round vote holds, as mathematical values.
pub struct RoundView {
    pub current_round: RoundId,
    pub max_rounds: u32,
    pub results: Seq<RoundResult>,
}

impl View for QuorumRound {
    type V = RoundView;

    open spec fn view(&self) -> RoundView {
        RoundView {
            current_round: self.current_round,
            max_rounds: self.max_rounds,
            results: self.results@,
        }
    }
}

/// The state that `QuorumRound::new(max_rounds)` makes.
pub open spec fn start_round(max_rounds: u32) -> RoundView {
    RoundView { current_round: RoundId(0), max_rounds, results: Seq::empty() }
}

/// The state after `advance()`, and what the call returns.
pub open spec fn advance_step(r: RoundView) -> (RoundView, bool) {
    if may_advance(r.current_round, r.max_rounds) {
        (RoundView { current_round: RoundId((r.current_round.0 + 1) as u64), ..r }, true)
    } else {
        (r, false)
    }
}

/// The state after `record_result(f, a, ab, t)`, and what the call returns.
pub open spec fn record_step(r: RoundView, f: usize, a: usize, ab: usize, t: QuorumThreshold) -> (
    RoundView,
    ProposalStatus,
) {
    let outcome = round_outcome(t, f, a, ab);
    (
        RoundView {
            results: r.results.push(
                RoundResult {
                    round: r.current_round,
                    for_votes: f,
                    against_votes: a,
                    abstain_votes: ab,
                    outcome: Some(outcome),
                },
            ),
            ..r
        },
        outcome,
    )
}

impl QuorumRound {
    /// Starts at round 0 with no results.
    pub fn new(max_rounds: u32) -> (r: Self)
        ensures
            r@ == start_round(max_rounds),
    {
        QuorumRound { current_round: RoundId(0), max_rounds, results: Vec::new() }
    }

    /// Advances to the next round, unless the round limit is reached.
    pub fn advance(&mut self) -> (r: bool)
        ensures
            (final(self)@, r) == advance_step(old(self)@),
    {
        if (self.current_round.0 as u32) < self.max_rounds {
            let cur: u64 = self.current_round.0;
            assert(cur == 0xffff_ffff_ffff_ffffu64 ==> (cur as u32) == 0xffff_ffffu32)
                by (bit_vector);
            self.current_round = RoundId(self.current_round.0 + 1);
            true
        } else {
            false
        }
    }

    /// Records the counts of the current round and returns its outcome: accepted when
    /// the threshold is met, rejected when Against outnumbers For and reaches the
    /// threshold fraction, open (another round may follow) otherwise.
    pub fn record_result(
        &mut self,
        for_votes: usize,
        against_votes: usize,
        abstain_votes: usize,
        threshold: &QuorumThreshold,
    ) -> (r: ProposalStatus)
        requires
            counts_fit(for_votes, against_votes, abstain_votes),
        ensures
            (final(self)@, r) == record_step(
                old(self)@,
                for_votes,
                against_votes,
                abstain_votes,
                *threshold,
            ),
    {
        let outcome = if threshold.is_met(for_votes, against_votes, abstain_votes) {
            ProposalStatus::Accepted
        } else if for_votes > against_votes {
            ProposalStatus::Open
        } else if against_votes > for_votes {
            let decisive = for_votes + against_votes;
            let ratio: u128 = (against_votes as u128 * 1000) / (decisive as u128);
            if ratio >= threshold.majority_fraction as u128 {
                ProposalStatus::Rejected
            } else {
                ProposalStatus::Open
            }
        } else {
            ProposalStatus::Open
        };
        self.results.push(
            RoundResult {
                round: self.current_round,
                for_votes,
                against_votes,
                abstain_votes,
                outcome: Some(outcome),
            },
        );
        outcome
    }

    /// The number of recorded rounds.
    pub fn round_count(&self) -> (n: usize)
        ensures
            n == self@.results.len(),
    {
        self.results.len()
    }
}

/// What `record_result(f, a, ab, t)` returns and logs, in terms of the counts alone:
/// it returns Accepted exactly when there are at least `t.min_votes` votes (abstentions
/// included), at least one decisive vote, and `1000 * f >= t.majority_fraction * (f + a)`;
/// Rejected exactly when that fails, Against outnumbers For and
/// `1000 * a >= t.majority_fraction * (f + a)`; Open otherwise. It logs exactly one new
/// result, at the end, holding the current round, the three counts and the returned
/// outcome, and changes nothing else.
pub proof fn lemma_record_result_decides(r: RoundView, f: usize, a: usize, ab: usize, t: QuorumThreshold)
    ensures
        ({
            let (r2, outcome) = record_step(r, f, a, ab, t);
            let accepted = f + a + ab >= t.min_votes && f + a > 0 && 1000 * f
                >= t.majority_fraction * (f + a);
            &&& (outcome == ProposalStatus::Accepted) <==> accepted
            &&& (outcome == ProposalStatus::Rejected) <==> (!accepted && a > f && 1000 * a
                >= t.majority_fraction * (f + a))
            &&& (outcome == ProposalStatus::Open) <==> (!accepted && !(a > f && 1000 * a
                >= t.majority_fraction * (f + a)))
            &&& r2.results.len() == r.results.len() + 1
            &&& r2.results.take(r.results.len() as int) == r.results
            &&& r2.results.last() == (RoundResult {
                round: r.current_round,
                for_votes: f,
                against_votes: a,
                abstain_votes: ab,
                outcome: Some(outcome),
            })
            &&& r2.current_round == r.current_round
            &&& r2.max_rounds == r.max_rounds
        }),
{
    lemma_outcome_decided_by_counts(t, f, a, ab);
    let r2 = record_step(r, f, a, ab, t).0;
    assert(r2.results.take(r.results.len() as int) =~= r.results);
}

/// A call on a multi-round vote.
pub enum RoundOp {
    Advance,
    Record(usize, usize, usize, QuorumThreshold),
}

/// The state after one call.
pub open spec fn round_op_step(r: RoundView, op: RoundOp) -> RoundView {
    match op {
        RoundOp::Advance => advance_step(r).0,
        RoundOp::Record(f, a, ab, t) => record_step(r, f, a, ab, t).0,
    }
}

/// The state after a run of calls, in order.
pub open spec fn apply_round_ops(r: RoundView, ops: Seq<RoundOp>) -> RoundView
    decreases ops.len(),
{
    if ops.len() == 0 {
        r
    } else {
        round_op_step(apply_round_ops(r, ops.drop_last()), ops.last())
    }
}

/// How many calls of a run are `advance`.
pub open spec fn count_advances(ops: Seq<RoundOp>) -> nat
    decreases ops.len(),
{
    if ops.len() == 0 {
        0
    } else {
        count_advances(ops.drop_last()) + if ops.last() is Advance {
            1nat
        } else {
            0nat
        }
    }
}

/// How many calls of a run are `record_result`.
pub open spec fn count_records(ops: Seq<RoundOp>) -> nat
    decreases ops.len(),
{
    if ops.len() == 0 {
        0
    } else {
        count_records(ops.drop_last()) + if ops.last() is Record {
            1nat
        } else {
            0nat
        }
    }
}

/// After any run of `advance` and `record_result` calls on `QuorumRound::new(max_rounds)`:
/// the round is the number of `advance` calls, capped at `max_rounds` (so it never
/// exceeds the limit), the limit is unchanged, one result is logged per
/// `record_result` call (that is `round_count()`), and the next `advance` succeeds
/// exactly when fewer than `max_rounds` `advance` calls came before. So `advance`
/// succeeds on its first `max_rounds` calls and fails on every later one, whatever
/// `record_result` calls come between.
pub proof fn lemma_round_run(max_rounds: u32, ops: Seq<RoundOp>)
    ensures
        ({
            let r = apply_round_ops(start_round(max_rounds), ops);
            &&& r.current_round.0 == if count_advances(ops) < max_rounds {
                count_advances(ops)
            } else {
                max_rounds as nat
            }
            &&& r.current_round.0 <= max_rounds
            &&& r.max_rounds == max_rounds
            &&& r.results.len() == count_records(ops)
            &&& advance_step(r).1 <==> count_advances(ops) < max_rounds
        }),
    decreases ops.len(),
{
    if ops.len() > 0 {
        lemma_round_run(max_rounds, ops.drop_last());
    }
}

} // verus!
