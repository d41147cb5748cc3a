use vstd::prelude::*;

use crate::quorum::{accepts_vote, proposal_position, with_vote, QuorumProposal, QuorumView, QuorumVote};
use crate::ternary::{ProposalId, Ternary};
use crate::threshold::{
    lemma_outcome_decided_by_counts, round_outcome, ProposalStatus, QuorumThreshold,
};

verus! {

/// Static checks of whether proposals reach their threshold.
#[derive(Clone, Debug)]
pub struct QuorumConsensus;

/// How many of `votes` have the value `t`.
pub open spec fn count_votes(votes: Seq<QuorumVote>, t: Ternary) -> nat
    decreases votes.len(),
{
    if votes.len() == 0 {
        0
    } else {
        count_votes(votes.drop_last(), t) + if votes.last().vote == t {
            1nat
        } else {
            0nat
        }
    }
}

/// The tally `(for, against, abstain)` of a sequence of votes.
pub open spec fn tally_of(votes: Seq<QuorumVote>) -> (nat, nat, nat) {
    (
        count_votes(votes, Ternary::Pos),
        count_votes(votes, Ternary::Neg),
        count_votes(votes, Ternary::Zero),
    )
}

/// The status that the tally of `votes` earns under threshold `t`.
pub open spec fn consensus_of(votes: Seq<QuorumVote>, t: QuorumThreshold) -> ProposalStatus {
    let (f, a, ab) = tally_of(votes);
    round_outcome(t, f as usize, a as usize, ab as usize)
}

/// Appending a vote adds one to the count of its value and nothing to the others.
pub proof fn lemma_count_push(votes: Seq<QuorumVote>, v: QuorumVote, t: Ternary)
    ensures
        count_votes(votes.push(v), t) == count_votes(votes, t) + if v.vote == t {
            1nat
        } else {
            0nat
        },
{
    assert(votes.push(v).drop_last() =~= votes);
}

/// Every vote is counted exactly once: the three counts of a tally add up to the number
/// of votes.
pub proof fn lemma_tally_partitions_votes(votes: Seq<QuorumVote>)
    ensures
        count_votes(votes, Ternary::Pos) + count_votes(votes, Ternary::Neg) + count_votes(
            votes,
            Ternary::Zero,
        ) == votes.len(),
    decreases votes.len(),
{
    if votes.len() > 0 {
        lemma_tally_partitions_votes(votes.drop_last());
    }
}

/// A vote that the voting body takes is counted: it adds one to the count of its value
/// on its proposal, and nothing to the other counts.
pub proof fn lemma_cast_is_counted(q: QuorumView, pid: ProposalId, v: QuorumVote, t: Ternary)
    requires
        accepts_vote(q, pid, v.voter, v.round),
    ensures
        ({
            let i = proposal_position(q.proposals, pid);
            count_votes(with_vote(q, pid, v).proposals[i].votes, t) == count_votes(
                q.proposals[i].votes,
                t,
            ) + if v.vote == t {
                1nat
            } else {
                0nat
            }
        }),
{
    let i = proposal_position(q.proposals, pid);
    crate::quorum::lemma_proposal_position(q.proposals, pid, i);
    lemma_count_push(q.proposals[i].votes, v, t);
}

/// The status that `is_consensus` gives a proposal is the outcome that `record_result`
/// records for the proposal's tally.
pub proof fn lemma_consensus_is_recorded_outcome(votes: Seq<QuorumVote>, t: QuorumThreshold)
    ensures
        consensus_of(votes, t) == round_outcome(
            t,
            count_votes(votes, Ternary::Pos) as usize,
            count_votes(votes, Ternary::Neg) as usize,
            count_votes(votes, Ternary::Zero) as usize,
        ),
{
}

/// The status that `is_consensus` gives, in terms of the votes alone: with `f` votes For
/// and `a` Against among the `n` votes (abstentions included in `n`), Accepted exactly
/// when `n >= min_votes`, `f + a > 0` and `1000 * f >= majority_fraction * (f + a)`;
/// Rejected exactly when that fails, Against outnumbers For and
/// `1000 * a >= majority_fraction * (f + a)`; Open otherwise.
pub proof fn lemma_consensus_decides(votes: Seq<QuorumVote>, t: QuorumThreshold)
    requires
        votes.len() <= usize::MAX,
    ensures
        ({
            let n = votes.len();
            let f = count_votes(votes, Ternary::Pos);
            let a = count_votes(votes, Ternary::Neg);
            let accepted = n >= t.min_votes && f + a > 0 && 1000 * f >= t.majority_fraction * (f
                + a);
            let rejected = !accepted && a > f && 1000 * a >= t.majority_fraction * (f + a);
            &&& (consensus_of(votes, t) == ProposalStatus::Accepted) <==> accepted
            &&& (consensus_of(votes, t) == ProposalStatus::Rejected) <==> rejected
            &&& (consensus_of(votes, t) == ProposalStatus::Open) <==> (!accepted && !rejected)
        }),
{
    lemma_tally_partitions_votes(votes);
    let f = count_votes(votes, Ternary::Pos);
    let a = count_votes(votes, Ternary::Neg);
    let ab = count_votes(votes, Ternary::Zero);
    lemma_outcome_decided_by_counts(t, f as usize, a as usize, ab as usize);
}

fn count_of(votes: &Vec<QuorumVote>, t: Ternary) -> (n: usize)
    ensures
        n == count_votes(votes@, t),
{
    let mut n: usize = 0;
    let mut i: usize = 0;
    while i < votes.len()
        invariant
            0 <= i <= votes.len(),
            n == count_votes(votes@.take(i as int), t),
            n <= i,
        decreases votes.len() - i,
    {
        proof {
            assert(votes@.take(i + 1).drop_last() =~= votes@.take(i as int));
        }
        if votes[i].vote == t {
            n += 1;
        }
        i += 1;
    }
    proof {
        assert(votes@.take(i as int) =~= votes@);
    }
    n
}

impl QuorumConsensus {
    /// Tallies the votes of a proposal: `(for, against, abstain)`.
    pub fn tally(proposal: &QuorumProposal) -> (r: (usize, usize, usize))
        ensures
            r.0 == count_votes(proposal@.votes, Ternary::Pos),
            r.1 == count_votes(proposal@.votes, Ternary::Neg),
            r.2 == count_votes(proposal@.votes, Ternary::Zero),
    {
        let for_votes = count_of(&proposal.votes, Ternary::Pos);
        let against = count_of(&proposal.votes, Ternary::Neg);
        let abstain = count_of(&proposal.votes, Ternary::Zero);
        (for_votes, against, abstain)
    }

    /// The status that the votes on a proposal earn: accepted when the threshold is met,
    /// rejected when Against outnumbers For and reaches the threshold fraction, open
    /// otherwise.
    pub fn is_consensus(proposal: &QuorumProposal, threshold: &QuorumThreshold) -> (r:
        ProposalStatus)
        ensures
            r == consensus_of(proposal@.votes, *threshold),
    {
        let (for_votes, against, abstain) = Self::tally(proposal);
        proof {
            lemma_tally_partitions_votes(proposal@.votes);
        }
        let n_votes = proposal.votes.len();
        assert(for_votes + against + abstain == n_votes);
        if threshold.is_met(for_votes, against, abstain) {
            ProposalStatus::Accepted
        } else if against > for_votes && (for_votes + against) > 0 {
            let ratio: u128 = (against as u128 * 1000) / ((for_votes + against) as u128);
            if ratio >= threshold.majority_fraction as u128 {
                ProposalStatus::Rejected
            } else {
                ProposalStatus::Open
            }
        } else {
            ProposalStatus::Open
        }
    }
}

} // verus!
