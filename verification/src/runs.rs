use vstd::prelude::*;

use crate::quorum::{
    add_member_step, cast_step, empty_quorum, first_with_id, has_proposal,
    lemma_filter_len_other_than, lemma_filter_no_duplicates, lemma_proposal_position, new_proposal, other_than,
    propose_step, proposal_position, remove_member_step, rewrite_step, ProposalView,
    QuorumView,
};
use crate::ternary::{AgentId, ProposalId, RoundId, Ternary};
use crate::threshold::QuorumThreshold;

verus! {

/// A call on a voting body: `add_member`, `remove_member`, `propose`, `QuorumVote::cast`,
/// or `proposal_mut` followed by writing the proposal through the reference it returns.
pub enum QuorumOp {
    AddMember(AgentId),
    RemoveMember(AgentId),
    Propose(AgentId, Seq<char>),
    Cast(ProposalId, AgentId, Ternary, RoundId),
    Rewrite(ProposalId, ProposalView),
}

/// The voting body after one call, and whether the call succeeded (returned `true` or
/// `Some`; for a rewrite, found its proposal).
pub open spec fn op_step(q: QuorumView, op: QuorumOp) -> (QuorumView, bool) {
    match op {
        QuorumOp::AddMember(a) => add_member_step(q, a),
        QuorumOp::RemoveMember(a) => remove_member_step(q, a),
        QuorumOp::Propose(p, d) => (propose_step(q, p, d).0, propose_step(q, p, d).1 is Some),
        QuorumOp::Cast(pid, voter, vote, round) => cast_step(q, pid, voter, vote, round),
        QuorumOp::Rewrite(pid, p) => (rewrite_step(q, pid, p), has_proposal(q.proposals, pid)),
    }
}

/// The voting body after a run of calls, in order.
pub open spec fn apply_ops(q: QuorumView, ops: Seq<QuorumOp>) -> QuorumView
    decreases ops.len(),
{
    if ops.len() == 0 {
        q
    } else {
        op_step(apply_ops(q, ops.drop_last()), ops.last()).0
    }
}

/// How many calls of a run from `q` succeeded, as
/// `(add_member, remove_member, propose)` counts.
pub open spec fn success_counts(q: QuorumView, ops: Seq<QuorumOp>) -> (nat, nat, nat)
    decreases ops.len(),
{
    if ops.len() == 0 {
        (0, 0, 0)
    } else {
        let (adds, removes, proposes) = success_counts(q, ops.drop_last());
        let ok = op_step(apply_ops(q, ops.drop_last()), ops.last()).1;
        match ops.last() {
            QuorumOp::AddMember(_) => (adds + if ok { 1nat } else { 0nat }, removes, proposes),
            QuorumOp::RemoveMember(_) => (adds, removes + if ok { 1nat } else { 0nat }, proposes),
            QuorumOp::Propose(_, _) => (adds, removes, proposes + if ok { 1nat } else { 0nat }),
            _ => (adds, removes, proposes),
        }
    }
}

/// No call of the run writes a proposal's identifier.
pub open spec fn rewrites_keep_ids(ops: Seq<QuorumOp>) -> bool {
    forall|j: int|
        0 <= j < ops.len() ==> (#[trigger] ops[j] matches QuorumOp::Rewrite(pid, p) ==> p.id
            == pid)
}

/// The members of any run: still without duplicates, and their number grows by one per
/// successful `add_member` and shrinks by one per successful `remove_member`.
proof fn lemma_members_of_run(q: QuorumView, ops: Seq<QuorumOp>)
    requires
        q.members.no_duplicates(),
    ensures
        apply_ops(q, ops).members.no_duplicates(),
        apply_ops(q, ops).members.len() + success_counts(q, ops).1 == q.members.len()
            + success_counts(q, ops).0,
    decreases ops.len(),
{
    if ops.len() > 0 {
        let prev = ops.drop_last();
        lemma_members_of_run(q, prev);
        let p = apply_ops(q, prev);
        match ops.last() {
            QuorumOp::AddMember(a) => {
                if !p.members.contains(a) {
                    assert(p.members.push(a).no_duplicates()) by {
                        assert forall|i: int, j: int|
                            0 <= i < p.members.len() + 1 && 0 <= j < p.members.len() + 1 && i
                                != j implies p.members.push(a)[i] != p.members.push(a)[j] by {
                            if i == p.members.len() {
                                assert(p.members[j] != a);
                            } else if j == p.members.len() {
                                assert(p.members[i] != a);
                            }
                        }
                    }
                }
            },
            QuorumOp::RemoveMember(a) => {
                lemma_filter_len_other_than(p.members, a);
                lemma_filter_no_duplicates(p.members, other_than(a));
            },
            _ => {},
        }
    }
}

/// The identifier that a proposal gets right after being submitted is found again, at
/// the new proposal.
proof fn lemma_propose_then_found(q: QuorumView, proposer: AgentId, description: Seq<char>)
    requires
        q.ids_wf(),
        q.members.contains(proposer),
    ensures
        ({
            let q2 = propose_step(q, proposer, description).0;
            let id = ProposalId(q.next_id);
            &&& has_proposal(q2.proposals, id)
            &&& q2.proposals[proposal_position(q2.proposals, id)] == new_proposal(
                q,
                proposer,
                description,
            )
        }),
{
    let q2 = propose_step(q, proposer, description).0;
    let id = ProposalId(q.next_id);
    let n = q.proposals.len() as int;
    assert(q2.proposals[n] == new_proposal(q, proposer, description));
    assert(first_with_id(q2.proposals, id, n));
    lemma_proposal_position(q2.proposals, id, n);
}

/// The identifiers of any run in which nobody writes an identifier: still distinct and
/// below the next one, and the next one has grown by the number of successful
/// proposals.
proof fn lemma_ids_of_run(q: QuorumView, ops: Seq<QuorumOp>)
    requires
        q.ids_wf(),
        q.next_id + success_counts(q, ops).2 <= u64::MAX,
        rewrites_keep_ids(ops),
    ensures
        apply_ops(q, ops).ids_wf(),
        apply_ops(q, ops).next_id == q.next_id + success_counts(q, ops).2,
    decreases ops.len(),
{
    if ops.len() > 0 {
        let prev = ops.drop_last();
        assert(rewrites_keep_ids(prev)) by {
            assert forall|j: int| 0 <= j < prev.len() implies (#[trigger] prev[j] matches QuorumOp::Rewrite(
                pid,
                p,
            ) ==> p.id == pid) by {
                assert(prev[j] == ops[j]);
            }
        }
        assert(success_counts(q, prev).2 <= success_counts(q, ops).2);
        lemma_ids_of_run(q, prev);
        let p = apply_ops(q, prev);
        let last = ops.last();
        assert(last == ops[ops.len() - 1]);
        let r = op_step(p, last).0;
        match last {
            QuorumOp::Propose(who, d) => {
                if p.members.contains(who) {
                    assert(r.proposals == p.proposals.push(new_proposal(p, who, d)));
                    assert forall|i: int, j: int| 0 <= i < j < r.proposals.len() implies r.proposals[i].id
                        != r.proposals[j].id by {
                        if j == p.proposals.len() {
                            assert(r.proposals[i] == p.proposals[i]);
                        } else {
                            assert(r.proposals[i] == p.proposals[i]);
                            assert(r.proposals[j] == p.proposals[j]);
                        }
                    }
                    assert forall|i: int| 0 <= i < r.proposals.len() implies r.proposals[i].id.0
                        < r.next_id by {
                        if i < p.proposals.len() {
                            assert(r.proposals[i] == p.proposals[i]);
                        }
                    }
                }
            },
            QuorumOp::Cast(pid, voter, vote, round) => {
                if cast_step(p, pid, voter, vote, round).1 {
                    let i = proposal_position(p.proposals, pid);
                    lemma_proposal_position(p.proposals, pid, i);
                    assert forall|k: int| 0 <= k < r.proposals.len() implies r.proposals[k].id
                        == p.proposals[k].id by {
                        if k != i {
                            assert(r.proposals[k] == p.proposals[k]);
                        }
                    }
                }
            },
            QuorumOp::Rewrite(pid, nv) => {
                if has_proposal(p.proposals, pid) {
                    let i = proposal_position(p.proposals, pid);
                    lemma_proposal_position(p.proposals, pid, i);
                    assert(nv.id == pid);
                    assert forall|k: int| 0 <= k < r.proposals.len() implies r.proposals[k].id
                        == p.proposals[k].id by {
                        if k != i {
                            assert(r.proposals[k] == p.proposals[k]);
                        }
                    }
                }
            },
            _ => {},
        }
    }
}

/// Starting from `Quorum::new(t)`, after any run of `add_member`, `remove_member`,
/// `propose`, `cast` and `proposal_mut` writes, `member_count()` is the number of
/// `add_member` calls that returned `true` minus the number of `remove_member` calls
/// that returned `true`, and no agent is a member twice.
pub proof fn lemma_member_count(t: QuorumThreshold, ops: Seq<QuorumOp>)
    ensures
        apply_ops(empty_quorum(t), ops).members.len() == success_counts(empty_quorum(t), ops).0
            - success_counts(empty_quorum(t), ops).1,
        apply_ops(empty_quorum(t), ops).members.no_duplicates(),
{
    lemma_members_of_run(empty_quorum(t), ops);
}

/// Starting from `Quorum::new(t)`, after any run of calls in which nobody writes a
/// proposal's identifier and fewer than `u64::MAX` proposals succeeded, `k` of them: the
/// next identifier is `k`, so the next `propose` may be called, and it returns
/// `ProposalId(k)` (so the k-th successful proposal gets `ProposalId(k - 1)`, and
/// identifiers are distinct and increasing); it is refused exactly for a non-member, and
/// right after it `proposal` finds the new proposal, open and without votes.
pub proof fn lemma_proposals_numbered_in_order(
    t: QuorumThreshold,
    ops: Seq<QuorumOp>,
    proposer: AgentId,
    description: Seq<char>,
)
    requires
        success_counts(empty_quorum(t), ops).2 < u64::MAX,
        rewrites_keep_ids(ops),
    ensures
        ({
            let q = apply_ops(empty_quorum(t), ops);
            let k = success_counts(empty_quorum(t), ops).2;
            let (q2, r) = propose_step(q, proposer, description);
            let id = ProposalId(k as u64);
            &&& q.ids_wf()
            &&& q.next_id == k
            &&& q.next_id < u64::MAX
            &&& r == if q.members.contains(proposer) {
                Some(id)
            } else {
                None
            }
            &&& q.members.contains(proposer) ==> {
                &&& has_proposal(q2.proposals, id)
                &&& q2.proposals[proposal_position(q2.proposals, id)] == new_proposal(
                    q,
                    proposer,
                    description,
                )
                &&& q2.proposals[proposal_position(q2.proposals, id)].status
                    == crate::threshold::ProposalStatus::Open
                &&& q2.proposals[proposal_position(q2.proposals, id)].votes.len() == 0
            }
        }),
{
    let q0 = empty_quorum(t);
    lemma_ids_of_run(q0, ops);
    let q = apply_ops(q0, ops);
    if q.members.contains(proposer) {
        lemma_propose_then_found(q, proposer, description);
    }
}

} // verus!
