use vstd::prelude::*;

use crate::ternary::{AgentId, ProposalId, RoundId, Ternary};
use crate::threshold::{ProposalStatus, QuorumThreshold};

verus! {

/// A vote cast by an agent in a round.
#[derive(Clone, Debug)]
pub struct QuorumVote {
    pub voter: AgentId,
    pub vote: Ternary,
    pub round: RoundId,
}

/// A proposal with its votes and status.
#[derive(Clone, Debug)]
pub struct QuorumProposal {
    pub id: ProposalId,
    pub proposer: AgentId,
    pub description: String,
    pub votes: Vec<QuorumVote>,
    pub status: ProposalStatus,
}

/// What a proposal holds, as mathematical values.
pub struct ProposalView {
    pub id: ProposalId,
    pub proposer: AgentId,
    pub description: Seq<char>,
    pub votes: Seq<QuorumVote>,
    pub status: ProposalStatus,
}

impl View for QuorumProposal {
    type V = ProposalView;

    open spec fn view(&self) -> ProposalView {
        ProposalView {
            id: self.id,
            proposer: self.proposer,
            description: self.description@,
            votes: self.votes@,
            status: self.status,
        }
    }
}

/// A voting body with members and proposals.
#[derive(Clone, Debug)]
pub struct Quorum {
    pub members: Vec<AgentId>,
    pub proposals: Vec<QuorumProposal>,
    pub threshold: QuorumThreshold,
    next_proposal_id: u64,
}

/// What a voting body holds, as mathematical values: its members in order of joining,
/// its proposals in order of submission, its threshold, and the identifier that the
/// next proposal will get.
pub struct QuorumView {
    pub members: Seq<AgentId>,
    pub proposals: Seq<ProposalView>,
    pub threshold: QuorumThreshold,
    pub next_id: u64,
}

impl View for Quorum {
    type V = QuorumView;

    closed spec fn view(&self) -> QuorumView {
        QuorumView {
            members: self.members@,
            proposals: proposal_views(self.proposals@),
            threshold: self.threshold,
            next_id: self.next_proposal_id,
        }
    }
}

/// Whether `voter` has a vote in `round` among `votes`.
pub open spec fn has_voted(votes: Seq<QuorumVote>, voter: AgentId, round: RoundId) -> bool {
    exists|i: int| 0 <= i < votes.len() && votes[i].voter == voter && votes[i].round == round
}

/// No agent has two votes in one round.
pub open spec fn one_vote_per_round(votes: Seq<QuorumVote>) -> bool {
    forall|i: int, j: int|
        0 <= i < j < votes.len() ==> !(votes[i].voter == votes[j].voter && votes[i].round
            == votes[j].round)
}

/// Whether some proposal has the identifier `id`.
pub open spec fn has_proposal(ps: Seq<ProposalView>, id: ProposalId) -> bool {
    exists|i: int| 0 <= i < ps.len() && ps[i].id == id
}

/// `i` is the position of the first proposal with the identifier `id`.
pub open spec fn first_with_id(ps: Seq<ProposalView>, id: ProposalId, i: int) -> bool {
    &&& 0 <= i < ps.len()
    &&& ps[i].id == id
    &&& forall|j: int| 0 <= j < i ==> ps[j].id != id
}

/// The position of the first proposal with the identifier `id` (meaningful when there is one).
pub open spec fn proposal_position(ps: Seq<ProposalView>, id: ProposalId) -> int {
    choose|i: int| first_with_id(ps, id, i)
}

/// The first proposal with a given identifier is where `proposal_position` points, and
/// no other position is first.
pub proof fn lemma_proposal_position(ps: Seq<ProposalView>, id: ProposalId, i: int)
    ensures
        has_proposal(ps, id) ==> first_with_id(ps, id, proposal_position(ps, id)),
        first_with_id(ps, id, i) ==> proposal_position(ps, id) == i,
{
    if has_proposal(ps, id) {
        let k = choose|k: int| 0 <= k < ps.len() && ps[k].id == id;
        lemma_first_exists(ps, id, k);
    }
    if first_with_id(ps, id, i) {
        let p = proposal_position(ps, id);
        assert(first_with_id(ps, id, p));
        if p < i {
            assert(ps[p].id != id);
        } else if i < p {
            assert(ps[i].id != id);
        }
    }
}

proof fn lemma_first_exists(ps: Seq<ProposalView>, id: ProposalId, k: int)
    requires
        0 <= k < ps.len(),
        ps[k].id == id,
    ensures
        exists|i: int| first_with_id(ps, id, i),
    decreases k,
{
    if forall|j: int| 0 <= j < k ==> ps[j].id != id {
        assert(first_with_id(ps, id, k));
    } else {
        let j = choose|j: int| 0 <= j < k && ps[j].id == id;
        lemma_first_exists(ps, id, j);
    }
}

/// Filtering keeps a sequence free of duplicates.
pub proof fn lemma_filter_no_duplicates<A>(s: Seq<A>, pred: spec_fn(A) -> bool)
    requires
        s.no_duplicates(),
    ensures
        s.filter(pred).no_duplicates(),
    decreases s.len(),
{
    if s.len() > 0 {
        let init = s.drop_last();
        let last = s.last();
        assert(s =~= init.push(last));
        assert(init.no_duplicates()) by {
            assert forall|i: int, j: int| 0 <= i < init.len() && 0 <= j < init.len() && i != j
                implies init[i] != init[j] by {
                assert(init[i] == s[i] && init[j] == s[j]);
            }
        }
        lemma_filter_no_duplicates(init, pred);
        init.lemma_filter_push(last, pred);
        if pred(last) && init.filter(pred).contains(last) {
            init.lemma_filter_contains_rev(pred, last);
            let k = choose|k: int| 0 <= k < init.len() && init[k] == last;
            assert(s[k] == s[s.len() - 1]);
        }
    }
}

/// The views of a sequence of proposals.
pub open spec fn proposal_views(ps: Seq<QuorumProposal>) -> Seq<ProposalView> {
    ps.map_values(|p: QuorumProposal| p@)
}

/// Replacing one proposal replaces its view.
proof fn lemma_views_update(ps: Seq<QuorumProposal>, i: int)
    requires
        0 <= i < ps.len(),
    ensures
        forall|x: QuorumProposal|
            #[trigger] proposal_views(ps.update(i, x)) == proposal_views(ps).update(i, x@),
{
    assert forall|x: QuorumProposal|
        #[trigger] proposal_views(ps.update(i, x)) == proposal_views(ps).update(i, x@) by {
        assert(proposal_views(ps.update(i, x)) =~= proposal_views(ps).update(i, x@));
    }
}

impl QuorumView {
    /// Proposal identifiers are distinct and below the next one.
    pub open spec fn ids_wf(self) -> bool {
        &&& forall|i: int| 0 <= i < self.proposals.len() ==> self.proposals[i].id.0 < self.next_id
        &&& forall|i: int, j: int|
            0 <= i < j < self.proposals.len() ==> self.proposals[i].id != self.proposals[j].id
    }

    /// The invariant that every operation of the voting body keeps: no member twice,
    /// proposal identifiers distinct and below the next one, and no agent with two votes
    /// in one round on a proposal.
    pub open spec fn wf(self) -> bool {
        &&& self.members.no_duplicates()
        &&& self.ids_wf()
        &&& forall|i: int|
            0 <= i < self.proposals.len() ==> one_vote_per_round(#[trigger] self.proposals[i].votes)
    }
}

/// The voting body that `Quorum::new(threshold)` makes.
pub open spec fn empty_quorum(threshold: QuorumThreshold) -> QuorumView {
    QuorumView {
        members: Seq::empty(),
        proposals: Seq::empty(),
        threshold,
        next_id: 0,
    }
}

/// The voting body after `add_member(agent)`, and what the call returns.
pub open spec fn add_member_step(q: QuorumView, agent: AgentId) -> (QuorumView, bool) {
    if q.members.contains(agent) {
        (q, false)
    } else {
        (QuorumView { members: q.members.push(agent), ..q }, true)
    }
}

/// Holds of every agent but `agent`.
pub open spec fn other_than(agent: AgentId) -> spec_fn(AgentId) -> bool {
    |m: AgentId| m != agent
}

/// The voting body after `remove_member(agent)`, and what the call returns.
pub open spec fn remove_member_step(q: QuorumView, agent: AgentId) -> (QuorumView, bool) {
    (
        QuorumView { members: q.members.filter(other_than(agent)), ..q },
        q.members.contains(agent),
    )
}

/// Removing an agent from a sequence without duplicates shortens it by one exactly when
/// the agent was in it.
pub proof fn lemma_filter_len_other_than(s: Seq<AgentId>, agent: AgentId)
    requires
        s.no_duplicates(),
    ensures
        s.filter(other_than(agent)).len() + (if s.contains(agent) { 1int } else { 0int })
            == s.len(),
    decreases s.len(),
{
    if s.len() > 0 {
        let init = s.drop_last();
        let last = s.last();
        assert(s =~= init.push(last));
        assert(init.no_duplicates()) by {
            assert forall|i: int, j: int|
                0 <= i < init.len() && 0 <= j < init.len() && i != j implies init[i]
                != init[j] by {
                assert(init[i] == s[i] && init[j] == s[j]);
            }
        }
        lemma_filter_len_other_than(init, agent);
        init.lemma_filter_push(last, other_than(agent));
        if last == agent && init.contains(agent) {
            let k = choose|k: int| 0 <= k < init.len() && init[k] == agent;
            assert(s[k] == s[s.len() - 1]);
        }
        if init.contains(agent) {
            let k = choose|k: int| 0 <= k < init.len() && init[k] == agent;
            assert(s[k] == agent);
        }
        if s.contains(agent) && last != agent {
            let k = choose|k: int| 0 <= k < s.len() && s[k] == agent;
            assert(init[k] == agent);
        }
        if last == agent {
            assert(s[s.len() - 1] == agent);
        }
    }
}

/// What `add_member(a)` does, whatever the proposals: it returns `true` exactly when `a`
/// was not a member, and then appends `a` to the members; otherwise the members stay as
/// they were. Either way `a` is a member afterwards, and proposals, threshold and next
/// identifier are untouched.
pub proof fn lemma_add_member_decides(q: QuorumView, a: AgentId)
    ensures
        ({
            let (q2, ok) = add_member_step(q, a);
            &&& ok == !q.members.contains(a)
            &&& ok ==> q2.members == q.members.push(a)
            &&& !ok ==> q2.members == q.members
            &&& q2.members.contains(a)
            &&& q2.proposals == q.proposals
            &&& q2.threshold == q.threshold
            &&& q2.next_id == q.next_id
        }),
{
    let (q2, ok) = add_member_step(q, a);
    if ok {
        assert(q2.members[q.members.len() as int] == a);
    }
}

/// What `remove_member(a)` does, whatever the proposals: it returns `true` exactly when
/// `a` was a member; afterwards `a` is no member, every other agent is a member exactly
/// when it was before, the remaining members keep their order, and (with no member
/// listed twice) one member fewer is left exactly when the call returned `true`.
/// Proposals, threshold and next identifier are untouched.
pub proof fn lemma_remove_member_decides(q: QuorumView, a: AgentId)
    ensures
        ({
            let (q2, ok) = remove_member_step(q, a);
            &&& ok == q.members.contains(a)
            &&& !q2.members.contains(a)
            &&& forall|m: AgentId| m != a ==> (q2.members.contains(m) <==> q.members.contains(m))
            &&& q2.members == q.members.filter(|m: AgentId| m != a)
            &&& q.members.no_duplicates() ==> q2.members.len() + (if ok { 1int } else { 0int })
                == q.members.len()
            &&& q2.proposals == q.proposals
            &&& q2.threshold == q.threshold
            &&& q2.next_id == q.next_id
        }),
{
    let keep = other_than(a);
    let q2 = remove_member_step(q, a).0;
    q.members.filter_lemma(keep);
    assert(keep == (|m: AgentId| m != a));
    if q2.members.contains(a) {
        let k = choose|k: int| 0 <= k < q2.members.len() && q2.members[k] == a;
        assert(keep(q2.members[k]));
    }
    assert forall|m: AgentId| m != a implies (q2.members.contains(m) <==> q.members.contains(m)) by {
        if q2.members.contains(m) {
            q.members.lemma_filter_contains_rev(keep, m);
        }
        if q.members.contains(m) {
            let k = choose|k: int| 0 <= k < q.members.len() && q.members[k] == m;
            assert(keep(q.members[k]));
        }
    }
    if q.members.no_duplicates() {
        lemma_filter_len_other_than(q.members, a);
    }
}

/// The proposal that `propose(proposer, description)` adds.
pub open spec fn new_proposal(q: QuorumView, proposer: AgentId, description: Seq<char>) -> ProposalView {
    ProposalView {
        id: ProposalId(q.next_id),
        proposer,
        description,
        votes: Seq::empty(),
        status: ProposalStatus::Open,
    }
}

/// The voting body after `propose(proposer, description)`, and what the call returns.
pub open spec fn propose_step(q: QuorumView, proposer: AgentId, description: Seq<char>) -> (
    QuorumView,
    Option<ProposalId>,
) {
    if q.members.contains(proposer) {
        (
            QuorumView {
                proposals: q.proposals.push(new_proposal(q, proposer, description)),
                next_id: (q.next_id + 1) as u64,
                ..q
            },
            Some(ProposalId(q.next_id)),
        )
    } else {
        (q, None)
    }
}

/// The voting body once the first proposal with identifier `pid` has become `p` (what
/// `proposal_mut(pid)` lets its caller do); unchanged when there is no such proposal.
pub open spec fn rewrite_step(q: QuorumView, pid: ProposalId, p: ProposalView) -> QuorumView {
    if has_proposal(q.proposals, pid) {
        QuorumView { proposals: q.proposals.update(proposal_position(q.proposals, pid), p), ..q }
    } else {
        q
    }
}

fn contains_agent(agents: &Vec<AgentId>, agent: AgentId) -> (r: bool)
    ensures
        r == agents@.contains(agent),
{
    let mut i: usize = 0;
    while i < agents.len()
        invariant
            0 <= i <= agents.len(),
            forall|j: int| 0 <= j < i ==> agents@[j] != agent,
        decreases agents.len() - i,
    {
        if agents[i] == agent {
            return true;
        }
        i += 1;
    }
    false
}

impl Quorum {
    /// An empty voting body with the given threshold.
    pub fn new(threshold: QuorumThreshold) -> (q: Self)
        ensures
            q@ == empty_quorum(threshold),
            q@.wf(),
    {
        let q = Quorum {
            members: Vec::new(),
            proposals: Vec::new(),
            threshold,
            next_proposal_id: 0,
        };
        assert(q@.proposals =~= Seq::<ProposalView>::empty());
        q
    }

    /// Adds a member; refused (`false`, nothing changes) when the agent is one already.
    pub fn add_member(&mut self, agent: AgentId) -> (r: bool)
        ensures
            (final(self)@, r) == add_member_step(old(self)@, agent),
            old(self)@.wf() ==> final(self)@.wf(),
    {
        if contains_agent(&self.members, agent) {
            return false;
        }
        self.members.push(agent);
        proof {
            assert(final(self)@.members =~= old(self)@.members.push(agent));
            assert(final(self)@.proposals =~= old(self)@.proposals);
        }
        true
    }

    /// Removes every occurrence of a member; `true` when there was one.
    pub fn remove_member(&mut self, agent: AgentId) -> (r: bool)
        ensures
            (final(self)@, r) == remove_member_step(old(self)@, agent),
            old(self)@.wf() ==> final(self)@.wf(),
    {
        let before = self.members.len();
        let ghost keep = other_than(agent);
        let mut kept: Vec<AgentId> = Vec::new();
        let mut i: usize = 0;
        while i < self.members.len()
            invariant
                0 <= i <= self.members.len(),
                self.members@ == old(self).members@,
                keep == other_than(agent),
                kept@ == self.members@.take(i as int).filter(keep),
                (kept@.len() < i) == self.members@.take(i as int).contains(agent),
                kept@.len() <= i,
            decreases self.members.len() - i,
        {
            let m = self.members[i];
            proof {
                assert(self.members@.take(i + 1) =~= self.members@.take(i as int).push(m));
                self.members@.take(i as int).lemma_filter_push(m, keep);
                if m == agent {
                    assert(self.members@.take(i + 1)[i as int] == agent);
                }
                if self.members@.take(i as int).contains(agent) {
                    let j = choose|j: int| 0 <= j < i && self.members@.take(i as int)[j] == agent;
                    assert(self.members@.take(i + 1)[j] == agent);
                }
            }
            if m != agent {
                kept.push(m);
            }
            i += 1;
        }
        proof {
            assert(self.members@.take(i as int) =~= self.members@);
        }
        self.members = kept;
        proof {
            assert(final(self)@.proposals =~= old(self)@.proposals);
            if old(self)@.members.no_duplicates() {
                lemma_filter_no_duplicates(old(self)@.members, keep);
            }
        }
        self.members.len() < before
    }

    /// Submits a proposal by a member; refused (`None`, nothing changes) for a non-member.
    /// The new proposal gets the next identifier, no votes, and the status `Open`.
    pub fn propose(&mut self, proposer: AgentId, description: &str) -> (r: Option<ProposalId>)
        requires
            old(self)@.members.contains(proposer) ==> old(self)@.next_id < u64::MAX,
        ensures
            (final(self)@, r) == propose_step(old(self)@, proposer, description@),
            old(self)@.wf() ==> final(self)@.wf(),
            old(self)@.wf() ==> (r matches Some(id) ==> {
                &&& has_proposal(final(self)@.proposals, id)
                &&& proposal_position(final(self)@.proposals, id) == old(self)@.proposals.len()
            }),
    {
        if !contains_agent(&self.members, proposer) {
            return None;
        }
        let id = ProposalId(self.next_proposal_id);
        self.next_proposal_id += 1;
        let p = QuorumProposal {
            id,
            proposer,
            description: description.to_owned(),
            votes: Vec::new(),
            status: ProposalStatus::Open,
        };
        self.proposals.push(p);
        proof {
            let ps = final(self)@.proposals;
            assert(ps =~= old(self)@.proposals.push(p@));
            assert(p@.votes =~= Seq::<QuorumVote>::empty());
            if old(self)@.wf() {
                let n = old(self)@.proposals.len() as int;
                assert(first_with_id(ps, id, n));
                lemma_proposal_position(ps, id, n);
            }
        }
        Some(id)
    }

    /// The position of the first proposal with the identifier `id`.
    fn position_of(&self, id: ProposalId) -> (r: Option<usize>)
        ensures
            r is Some <==> has_proposal(self@.proposals, id),
            r matches Some(i) ==> i == proposal_position(self@.proposals, id) && i
                < self.proposals@.len(),
    {
        let ghost ps = self@.proposals;
        let mut i: usize = 0;
        while i < self.proposals.len()
            invariant
                0 <= i <= self.proposals.len(),
                ps == self@.proposals,
                ps.len() == self.proposals@.len(),
                forall|j: int| 0 <= j < i ==> ps[j].id != id,
            decreases self.proposals.len() - i,
        {
            assert(ps[i as int] == self.proposals@[i as int]@);
            if self.proposals[i].id == id {
                proof {
                    assert(first_with_id(ps, id, i as int));
                    lemma_proposal_position(ps, id, i as int);
                }
                return Some(i);
            }
            i += 1;
        }
        None
    }

    /// The first proposal with the given identifier, if any.
    pub fn proposal(&self, id: ProposalId) -> (r: Option<&QuorumProposal>)
        ensures
            r is Some <==> has_proposal(self@.proposals, id),
            r matches Some(p) ==> p@ == self@.proposals[proposal_position(self@.proposals, id)],
    {
        match self.position_of(id) {
            Some(i) => Some(&self.proposals[i]),
            None => None,
        }
    }

    /// Mutable access to the first proposal with the given identifier, if any; what the
    /// caller writes through it becomes that proposal.
    pub fn proposal_mut(&mut self, id: ProposalId) -> (r: Option<&mut QuorumProposal>)
        ensures
            r is Some <==> has_proposal(old(self)@.proposals, id),
            r is None ==> final(self)@ == old(self)@,
            r is Some ==> {
                let i = proposal_position(old(self)@.proposals, id);
                &&& (*r.unwrap())@ == old(self)@.proposals[i]
                &&& final(self)@ == rewrite_step(old(self)@, id, (*final(r.unwrap()))@)
            },
    {
        match self.position_of(id) {
            Some(i) => {
                proof {
                    lemma_views_update(self.proposals@, i as int);
                }
                let p = &mut self.proposals[i];
                Some(p)
            },
            None => None,
        }
    }

    /// The threshold of the voting body.
    pub fn threshold(&self) -> (t: QuorumThreshold)
        ensures
            t == self@.threshold,
    {
        self.threshold
    }

    /// The members, in order of joining.
    pub fn members(&self) -> (r: &Vec<AgentId>)
        ensures
            r@ == self@.members,
    {
        &self.members
    }

    /// The proposals, in order of submission.
    pub fn proposals(&self) -> (r: &Vec<QuorumProposal>)
        ensures
            proposal_views(r@) == self@.proposals,
    {
        &self.proposals
    }

    /// The number of members.
    pub fn member_count(&self) -> (n: usize)
        ensures
            n == self@.members.len(),
    {
        self.members.len()
    }
}

} // verus!

verus! {

/// Whether the voting body takes a vote by `voter` in `round` on proposal `pid`: the
/// voter is a member, the proposal exists and is open, and the voter has no vote in
/// that round on it yet.
pub open spec fn accepts_vote(q: QuorumView, pid: ProposalId, voter: AgentId, round: RoundId) -> bool {
    let i = proposal_position(q.proposals, pid);
    &&& q.members.contains(voter)
    &&& has_proposal(q.proposals, pid)
    &&& q.proposals[i].status == ProposalStatus::Open
    &&& !has_voted(q.proposals[i].votes, voter, round)
}

/// The voting body with `v` appended to the votes of proposal `pid`.
pub open spec fn with_vote(q: QuorumView, pid: ProposalId, v: QuorumVote) -> QuorumView {
    let i = proposal_position(q.proposals, pid);
    let p = q.proposals[i];
    QuorumView {
        proposals: q.proposals.update(i, ProposalView { votes: p.votes.push(v), ..p }),
        ..q
    }
}

/// The voting body after `QuorumVote::cast(pid, voter, vote, round)`, and what the call
/// returns.
pub open spec fn cast_step(
    q: QuorumView,
    pid: ProposalId,
    voter: AgentId,
    vote: Ternary,
    round: RoundId,
) -> (QuorumView, bool) {
    if accepts_vote(q, pid, voter, round) {
        (with_vote(q, pid, QuorumVote { voter, vote, round }), true)
    } else {
        (q, false)
    }
}

/// What `QuorumVote::cast(pid, voter, vote, round)` does, in terms of its inputs: with
/// no proposal `pid` it is refused; with `i` the position of the first proposal `pid`, it
/// succeeds exactly when the voter is a member, that proposal is open (not accepted,
/// rejected or expired) and the voter has no vote in `round` on it. A refused call changes
/// nothing; a successful one appends exactly this vote to that proposal and changes
/// nothing else.
pub proof fn lemma_cast_decides(
    q: QuorumView,
    pid: ProposalId,
    voter: AgentId,
    vote: Ternary,
    round: RoundId,
    i: int,
)
    ensures
        ({
            let (q2, ok) = cast_step(q, pid, voter, vote, round);
            &&& !ok ==> q2 == q
            &&& (forall|k: int| 0 <= k < q.proposals.len() ==> q.proposals[k].id != pid) ==> !ok
            &&& first_with_id(q.proposals, pid, i) ==> {
                let p = q.proposals[i];
                &&& ok == (q.members.contains(voter) && p.status == ProposalStatus::Open && !(
                exists|j: int|
                    0 <= j < p.votes.len() && p.votes[j].voter == voter && p.votes[j].round
                        == round))
                &&& ok ==> {
                    &&& q2.members == q.members
                    &&& q2.threshold == q.threshold
                    &&& q2.next_id == q.next_id
                    &&& q2.proposals.len() == q.proposals.len()
                    &&& forall|k: int|
                        0 <= k < q.proposals.len() && k != i ==> q2.proposals[k]
                            == q.proposals[k]
                    &&& q2.proposals[i].votes == p.votes.push(QuorumVote { voter, vote, round })
                    &&& q2.proposals[i].id == p.id
                    &&& q2.proposals[i].proposer == p.proposer
                    &&& q2.proposals[i].description == p.description
                    &&& q2.proposals[i].status == p.status
                }
            }
        }),
{
    if first_with_id(q.proposals, pid, i) {
        lemma_proposal_position(q.proposals, pid, i);
    }
    if has_proposal(q.proposals, pid) {
        lemma_proposal_position(q.proposals, pid, i);
    }
}

/// Taking a vote keeps the invariant of the voting body.
pub proof fn lemma_with_vote_wf(q: QuorumView, pid: ProposalId, v: QuorumVote)
    requires
        q.wf(),
        accepts_vote(q, pid, v.voter, v.round),
    ensures
        with_vote(q, pid, v).wf(),
{
    let i = proposal_position(q.proposals, pid);
    lemma_proposal_position(q.proposals, pid, i);
    let q2 = with_vote(q, pid, v);
    let votes = q.proposals[i].votes;
    assert(one_vote_per_round(votes.push(v))) by {
        assert forall|a: int, b: int| 0 <= a < b < votes.push(v).len() implies !(
        votes.push(v)[a].voter == votes.push(v)[b].voter && votes.push(v)[a].round == votes.push(
            v,
        )[b].round) by {
            assert(one_vote_per_round(q.proposals[i].votes));
            if b == votes.len() {
                if votes[a].voter == v.voter && votes[a].round == v.round {
                    assert(has_voted(votes, v.voter, v.round));
                }
            }
        }
    }
    assert forall|k: int| 0 <= k < q2.proposals.len() implies one_vote_per_round(
        #[trigger] q2.proposals[k].votes,
    ) by {
        if k != i {
            assert(q2.proposals[k] == q.proposals[k]);
        }
    }
}

fn has_vote_in_round(votes: &Vec<QuorumVote>, voter: AgentId, round: RoundId) -> (r: bool)
    ensures
        r == has_voted(votes@, voter, round),
{
    let mut i: usize = 0;
    while i < votes.len()
        invariant
            0 <= i <= votes.len(),
            forall|j: int| 0 <= j < i ==> !(votes@[j].voter == voter && votes@[j].round == round),
        decreases votes.len() - i,
    {
        if votes[i].voter == voter && votes[i].round == round {
            return true;
        }
        i += 1;
    }
    false
}

impl QuorumVote {
    /// A vote by `voter` in `round`.
    pub fn new(voter: AgentId, vote: Ternary, round: RoundId) -> (r: Self)
        ensures
            r == (QuorumVote { voter, vote, round }),
    {
        QuorumVote { voter, vote, round }
    }

    /// Casts a vote on a proposal. Refused (`false`, nothing changes) when the voter is
    /// not a member, the proposal does not exist or is not open, or the voter already
    /// voted in this round on it; otherwise the vote is appended to the proposal's votes.
    pub fn cast(
        quorum: &mut Quorum,
        proposal_id: ProposalId,
        voter: AgentId,
        vote: Ternary,
        round: RoundId,
    ) -> (r: bool)
        ensures
            (final(quorum)@, r) == cast_step(old(quorum)@, proposal_id, voter, vote, round),
            old(quorum)@.wf() ==> final(quorum)@.wf(),
    {
        if !contains_agent(&quorum.members, voter) {
            return false;
        }
        let ghost ps = old(quorum)@.proposals;
        let ghost i = proposal_position(ps, proposal_id);
        if let Some(proposal) = quorum.proposal_mut(proposal_id) {
            proof {
                lemma_proposal_position(ps, proposal_id, i);
                assert(ps.update(i, proposal@) =~= ps);
            }
            if proposal.status != ProposalStatus::Open {
                return false;
            }
            if has_vote_in_round(&proposal.votes, voter, round) {
                return false;
            }
            proposal.votes.push(QuorumVote::new(voter, vote, round));
            proof {
                if old(quorum)@.wf() {
                    lemma_with_vote_wf(old(quorum)@, proposal_id, QuorumVote { voter, vote, round });
                }
            }
            return true;
        }
        false
    }
}

} // verus!
