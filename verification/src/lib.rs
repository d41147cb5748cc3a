//! Distributed decision making with ternary votes (For, Abstain, Against),
//! configurable thresholds and multi-round escalation.
//!
//! - `ternary`: the vote values and the identifiers of agents, proposals and rounds;
//! - `threshold`: thresholds, the outcome of a count, and the laws of both;
//! - `quorum`: the voting body, its proposals and the casting of votes;
//! - `round`: multi-round voting with escalation;
//! - `consensus`: tallies and the status that a proposal's votes earn;
//! - `runs`: what holds after whole runs of calls on a voting body.

pub mod consensus;
pub mod quorum;
pub mod round;
pub mod runs;
pub mod ternary;
pub mod threshold;

pub use consensus::QuorumConsensus;
pub use quorum::{Quorum, QuorumProposal, QuorumVote};
pub use round::{QuorumRound, RoundResult};
pub use ternary::{AgentId, ProposalId, RoundId, Ternary};
pub use threshold::{ProposalStatus, QuorumThreshold};
