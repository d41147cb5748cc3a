use ternary_quorum::{
    AgentId, ProposalId, ProposalStatus, Quorum, QuorumConsensus, QuorumRound, QuorumThreshold,
    QuorumVote, RoundId, Ternary,
};

fn quorum_with_members(threshold: QuorumThreshold, n: u64) -> Quorum {
    let mut q = Quorum::new(threshold);
    for i in 1..=n {
        assert!(q.add_member(AgentId(i)));
    }
    q
}

#[test]
fn ternary_encoding_round_trips_on_every_byte() {
    for v in i8::MIN..=i8::MAX {
        match Ternary::from_i8(v) {
            Some(t) => {
                assert!(v == -1 || v == 0 || v == 1);
                assert_eq!(t.to_i8(), v);
            }
            None => assert!(v != -1 && v != 0 && v != 1),
        }
    }
}

#[test]
fn threshold_presets_hold_their_fractions() {
    assert_eq!(QuorumThreshold::simple_majority().majority_fraction, 500);
    assert_eq!(QuorumThreshold::super_majority().majority_fraction, 667);
    assert_eq!(QuorumThreshold::unanimous().majority_fraction, 1000);
    assert_eq!(QuorumThreshold::unanimous().min_votes, 1);
    assert_eq!(QuorumThreshold::custom(1500, 3).majority_fraction, 1000);
    assert_eq!(QuorumThreshold::custom(1500, 3).min_votes, 3);
    assert_eq!(QuorumThreshold::custom(300, 0).majority_fraction, 300);
}

#[test]
fn threshold_met_exactly_at_the_fraction() {
    let t = QuorumThreshold::custom(700, 1);
    assert!(t.is_met(7, 3, 0)); // 1000 * 7 == 700 * 10
    assert!(!t.is_met(69, 31, 0)); // 690 < 700
    assert!(t.is_met(70, 30, 50));
}

#[test]
fn fraction_is_taken_over_decisive_votes_only() {
    // 7 For, 2 Against, 1 Abstain: 7/9 = 777 per mille, not 7/10 = 700.
    let t = QuorumThreshold::custom(750, 1);
    assert!(t.is_met(7, 2, 1));
    assert!(!t.is_met(7, 3, 0));
}

#[test]
fn abstentions_only_count_toward_the_minimum() {
    let t = QuorumThreshold::custom(500, 4);
    assert!(!t.is_met(2, 1, 0)); // 3 votes, 4 needed
    assert!(t.is_met(2, 1, 1));
    assert_eq!(t.is_met(2, 1, 1), t.is_met(2, 1, 100));
    assert_eq!(t.is_met(1, 2, 1), t.is_met(1, 2, 100));
}

#[test]
fn no_decisive_vote_never_meets_the_threshold() {
    let t = QuorumThreshold::custom(0, 0);
    assert!(!t.is_met(0, 0, 0));
    assert!(!t.is_met(0, 0, 7));
    assert!(t.is_met(0, 1, 0)); // a zero fraction is met by any decisive vote
}

#[test]
fn simple_majority_passes_ties_and_fails_minorities() {
    let t = QuorumThreshold::simple_majority();
    assert!(t.is_met(4, 4, 0));
    assert!(t.is_met(5, 4, 3));
    assert!(!t.is_met(4, 5, 3));
}

#[test]
fn unanimity_is_blocked_by_one_against_but_not_by_abstentions() {
    let t = QuorumThreshold::unanimous();
    assert!(t.is_met(1, 0, 9));
    assert!(!t.is_met(999, 1, 0));
    assert!(!t.is_met(0, 0, 3));
}

#[test]
fn supermajority_needs_a_strict_majority() {
    let t = QuorumThreshold::super_majority();
    assert!(!t.is_met(1, 1, 0));
    let mut round = QuorumRound::new(1);
    assert_eq!(round.record_result(1, 1, 0, &t), ProposalStatus::Open);
}

#[test]
fn rejection_needs_the_against_fraction() {
    let simple = QuorumThreshold::simple_majority();
    let sup = QuorumThreshold::super_majority();
    let mut round = QuorumRound::new(5);
    assert_eq!(round.record_result(2, 3, 0, &simple), ProposalStatus::Rejected); // 600 >= 500
    assert_eq!(round.record_result(2, 3, 0, &sup), ProposalStatus::Open); // 600 < 667
    assert_eq!(round.record_result(1, 2, 0, &sup), ProposalStatus::Open); // 666 < 667
    assert_eq!(round.record_result(1, 3, 0, &sup), ProposalStatus::Rejected); // 750 >= 667
    assert_eq!(round.record_result(0, 0, 4, &simple), ProposalStatus::Open);
    assert_eq!(round.record_result(3, 2, 0, &sup), ProposalStatus::Open); // plurality For
    assert_eq!(round.round_count(), 6);
}

#[test]
fn record_result_logs_the_current_round() {
    let t = QuorumThreshold::simple_majority();
    let mut round = QuorumRound::new(3);
    assert!(round.advance());
    let outcome = round.record_result(3, 1, 2, &t);
    assert_eq!(outcome, ProposalStatus::Accepted);
    assert_eq!(round.round_count(), 1);
    let last = &round.results[0];
    assert_eq!(last.round, RoundId(1));
    assert_eq!(last.for_votes, 3);
    assert_eq!(last.against_votes, 1);
    assert_eq!(last.abstain_votes, 2);
    assert_eq!(last.outcome, Some(ProposalStatus::Accepted));
    assert_eq!(round.current_round, RoundId(1));
}

#[test]
fn rounds_advance_until_exhausted() {
    let mut round = QuorumRound::new(2);
    assert_eq!(round.current_round, RoundId(0));
    assert!(round.advance());
    assert!(round.advance());
    assert_eq!(round.current_round, RoundId(2));
    assert!(!round.advance());
    assert!(!round.advance());
    assert_eq!(round.current_round, RoundId(2));
    let mut none = QuorumRound::new(0);
    assert!(!none.advance());
    assert_eq!(none.current_round, RoundId(0));
}

#[test]
fn advance_compares_the_round_as_32_bits() {
    let mut round = QuorumRound::new(1);
    round.current_round = RoundId(1u64 << 32);
    assert!(round.advance());
    assert_eq!(round.current_round, RoundId((1u64 << 32) + 1));
    round.current_round = RoundId(u64::MAX);
    assert!(!round.advance());
}

#[test]
fn proposals_get_consecutive_identifiers_and_are_found_again() {
    let mut q = quorum_with_members(QuorumThreshold::simple_majority(), 2);
    let a = q.propose(AgentId(1), "first").unwrap();
    let b = q.propose(AgentId(2), "second").unwrap();
    assert_eq!(a, ProposalId(0));
    assert_eq!(b, ProposalId(1));
    let p = q.proposal(b).unwrap();
    assert_eq!(p.id, b);
    assert_eq!(p.proposer, AgentId(2));
    assert_eq!(p.description, "second");
    assert!(p.votes.is_empty());
    assert_eq!(p.status, ProposalStatus::Open);
    assert!(q.proposal(ProposalId(2)).is_none());
}

#[test]
fn refused_proposal_changes_nothing() {
    let mut q = quorum_with_members(QuorumThreshold::simple_majority(), 1);
    assert!(q.propose(AgentId(7), "no").is_none());
    assert!(q.proposals.is_empty());
    assert_eq!(q.propose(AgentId(1), "yes"), Some(ProposalId(0)));
}

#[test]
fn remove_member_removes_every_occurrence() {
    let mut q = Quorum::new(QuorumThreshold::simple_majority());
    q.members.push(AgentId(5));
    q.members.push(AgentId(6));
    q.members.push(AgentId(5));
    assert!(q.remove_member(AgentId(5)));
    assert_eq!(q.members, vec![AgentId(6)]);
    assert!(!q.remove_member(AgentId(5)));
    assert!(q.add_member(AgentId(5)));
    assert_eq!(q.members, vec![AgentId(6), AgentId(5)]);
}

#[test]
fn removed_member_can_no_longer_vote_or_propose() {
    let mut q = quorum_with_members(QuorumThreshold::simple_majority(), 2);
    let pid = q.propose(AgentId(1), "p").unwrap();
    assert!(q.remove_member(AgentId(2)));
    assert!(!QuorumVote::cast(&mut q, pid, AgentId(2), Ternary::Pos, RoundId(0)));
    assert!(q.propose(AgentId(2), "q").is_none());
}

#[test]
fn a_cast_vote_is_counted_once() {
    let mut q = quorum_with_members(QuorumThreshold::simple_majority(), 3);
    let pid = q.propose(AgentId(1), "p").unwrap();
    let before = QuorumConsensus::tally(q.proposal(pid).unwrap());
    assert_eq!(before, (0, 0, 0));
    assert!(QuorumVote::cast(&mut q, pid, AgentId(3), Ternary::Zero, RoundId(4)));
    assert_eq!(QuorumConsensus::tally(q.proposal(pid).unwrap()), (0, 0, 1));
    assert!(QuorumVote::cast(&mut q, pid, AgentId(3), Ternary::Neg, RoundId(5)));
    assert_eq!(QuorumConsensus::tally(q.proposal(pid).unwrap()), (0, 1, 1));
    assert!(!QuorumVote::cast(&mut q, pid, AgentId(3), Ternary::Pos, RoundId(5)));
    assert_eq!(QuorumConsensus::tally(q.proposal(pid).unwrap()), (0, 1, 1));
    let p = q.proposal(pid).unwrap();
    assert_eq!(p.votes.len(), 2);
    assert_eq!(p.votes[1].voter, AgentId(3));
    assert_eq!(p.votes[1].vote, Ternary::Neg);
    assert_eq!(p.votes[1].round, RoundId(5));
}

#[test]
fn tally_partitions_the_votes() {
    let mut q = quorum_with_members(QuorumThreshold::simple_majority(), 6);
    let pid = q.propose(AgentId(1), "p").unwrap();
    let values = [Ternary::Pos, Ternary::Neg, Ternary::Zero, Ternary::Pos, Ternary::Pos, Ternary::Zero];
    for (i, v) in values.iter().enumerate() {
        assert!(QuorumVote::cast(&mut q, pid, AgentId(i as u64 + 1), *v, RoundId(0)));
    }
    let p = q.proposal(pid).unwrap();
    let (f, a, ab) = QuorumConsensus::tally(p);
    assert_eq!((f, a, ab), (3, 1, 2));
    assert_eq!(f + a + ab, p.votes.len());
}

#[test]
fn consensus_agrees_with_the_recorded_round_outcome() {
    let thresholds = [
        QuorumThreshold::simple_majority(),
        QuorumThreshold::super_majority(),
        QuorumThreshold::unanimous(),
        QuorumThreshold::custom(400, 5),
    ];
    let values = [Ternary::Neg, Ternary::Pos, Ternary::Neg, Ternary::Zero, Ternary::Neg];
    for t in thresholds.iter() {
        let mut q = quorum_with_members(*t, 5);
        let pid = q.propose(AgentId(1), "p").unwrap();
        let mut round = QuorumRound::new(10);
        for (i, v) in values.iter().enumerate() {
            assert!(QuorumVote::cast(&mut q, pid, AgentId(i as u64 + 1), *v, RoundId(0)));
            let p = q.proposal(pid).unwrap();
            let (f, a, ab) = QuorumConsensus::tally(p);
            assert_eq!(QuorumConsensus::is_consensus(p, t), round.record_result(f, a, ab, t));
        }
    }
}

#[test]
fn closed_or_missing_proposal_refuses_votes() {
    let mut q = quorum_with_members(QuorumThreshold::simple_majority(), 1);
    let pid = q.propose(AgentId(1), "p").unwrap();
    q.proposal_mut(pid).unwrap().status = ProposalStatus::Rejected;
    assert!(!QuorumVote::cast(&mut q, pid, AgentId(1), Ternary::Pos, RoundId(0)));
    q.proposal_mut(pid).unwrap().status = ProposalStatus::Open;
    assert!(QuorumVote::cast(&mut q, pid, AgentId(1), Ternary::Pos, RoundId(0)));
    assert!(!QuorumVote::cast(&mut q, ProposalId(1), AgentId(1), Ternary::Pos, RoundId(0)));
    assert!(q.proposal_mut(ProposalId(1)).is_none());
}

#[test]
fn vote_new_keeps_its_fields() {
    let v = QuorumVote::new(AgentId(4), Ternary::Neg, RoundId(2));
    assert_eq!(v.voter, AgentId(4));
    assert_eq!(v.vote, Ternary::Neg);
    assert_eq!(v.round, RoundId(2));
}

#[test]
fn getters_read_the_voting_body() {
    let mut q = quorum_with_members(QuorumThreshold::super_majority(), 2);
    assert_eq!(q.threshold().majority_fraction, 667);
    assert_eq!(q.threshold().min_votes, 1);
    assert_eq!(q.members(), &vec![AgentId(1), AgentId(2)]);
    assert!(q.proposals().is_empty());
    let pid = q.propose(AgentId(2), "p").unwrap();
    assert_eq!(q.proposals().len(), 1);
    assert_eq!(q.proposals()[0].id, pid);
    assert!(QuorumVote::cast(&mut q, pid, AgentId(1), Ternary::Pos, RoundId(0)));
    let p = q.proposals()[0].clone();
    assert_eq!(QuorumConsensus::is_consensus(&p, &q.threshold()), ProposalStatus::Accepted);
}

#[test]
fn member_count_follows_successful_adds_and_removes() {
    let mut q = Quorum::new(QuorumThreshold::simple_majority());
    let mut adds = 0usize;
    let mut removes = 0usize;
    let calls: [(bool, u64); 9] = [
        (true, 1), (true, 2), (true, 1), (false, 3), (true, 3),
        (false, 1), (false, 1), (true, 1), (false, 2),
    ];
    for (add, id) in calls.iter() {
        if *add {
            if q.add_member(AgentId(*id)) {
                adds += 1;
            }
        } else if q.remove_member(AgentId(*id)) {
            removes += 1;
        }
        assert_eq!(q.member_count(), adds - removes);
    }
    assert_eq!((adds, removes), (4, 2));
    assert_eq!(q.members, vec![AgentId(3), AgentId(1)]);
}

#[test]
fn proposal_ids_count_successful_proposals_only() {
    let mut q = quorum_with_members(QuorumThreshold::simple_majority(), 2);
    assert_eq!(q.propose(AgentId(1), "a"), Some(ProposalId(0)));
    assert_eq!(q.propose(AgentId(9), "refused"), None);
    assert!(QuorumVote::cast(&mut q, ProposalId(0), AgentId(2), Ternary::Neg, RoundId(0)));
    q.proposal_mut(ProposalId(0)).unwrap().status = ProposalStatus::Expired;
    assert!(q.remove_member(AgentId(1)));
    assert_eq!(q.propose(AgentId(2), "b"), Some(ProposalId(1)));
    let p = q.proposal(ProposalId(1)).unwrap();
    assert_eq!(p.status, ProposalStatus::Open);
    assert!(p.votes.is_empty());
}

#[test]
fn round_count_counts_records_whatever_advances_come_between() {
    let t = QuorumThreshold::simple_majority();
    let mut round = QuorumRound::new(2);
    round.record_result(1, 0, 0, &t);
    assert!(round.advance());
    round.record_result(0, 1, 0, &t);
    assert!(round.advance());
    assert!(!round.advance());
    round.record_result(0, 0, 1, &t);
    assert_eq!(round.round_count(), 3);
    assert_eq!(round.round_count(), round.results.len());
    assert_eq!(round.current_round, RoundId(2));
    assert_eq!(round.results[0].round, RoundId(0));
    assert_eq!(round.results[1].round, RoundId(1));
    assert_eq!(round.results[2].round, RoundId(2));
}

#[test]
fn fraction_holds_for_counts_beyond_32_bits() {
    let simple = QuorumThreshold::simple_majority();
    let big: usize = 1usize << 32;
    assert!(!simple.is_met(1, big, 0)); // 1 For against 2^32 Against is no majority
    assert!(simple.is_met(big, big, 0)); // a tie passes
    assert!(simple.is_met(5_000_000, 0, 0)); // 1000 * For is far beyond 32 bits
    let mut round = QuorumRound::new(1);
    assert_eq!(round.record_result(1, big, 0, &simple), ProposalStatus::Rejected);
    assert_eq!(round.record_result(big, 1, 0, &simple), ProposalStatus::Accepted);
}
