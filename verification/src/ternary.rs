use vstd::prelude::*;

verus! {

/// A ternary vote: For (`Pos`, +1), Abstain (`Zero`, 0) or Against (`Neg`, -1).
///
/// The integer encoding of a vote is the one that `to_i8` and `from_i8` implement
/// (`ternary_value`); the variants carry no explicit discriminants, so a cast with `as`
/// does not give that encoding.
#[derive(Clone, Copy, Debug, PartialEq, Eq, Structural)]
pub enum Ternary {
    Neg,
    Zero,
    Pos,
}

/// The integer that encodes a vote: -1, 0 or +1.
pub open spec fn ternary_value(t: Ternary) -> i8 {
    match t {
        Ternary::Neg => -1i8,
        Ternary::Zero => 0i8,
        Ternary::Pos => 1i8,
    }
}

impl Ternary {
    /// Decodes -1, 0 and +1; every other integer is refused.
    pub fn from_i8(v: i8) -> (r: Option<Self>)
        ensures
            r is Some <==> (v == -1 || v == 0 || v == 1),
            r matches Some(t) ==> ternary_value(t) == v,
    {
        match v {
            -1 => Some(Ternary::Neg),
            0 => Some(Ternary::Zero),
            1 => Some(Ternary::Pos),
            _ => None,
        }
    }

    /// The integer encoding of the vote: -1, 0 or +1. Use this, not a cast with `as`.
    pub fn to_i8(self) -> (r: i8)
        ensures
            r == ternary_value(self),
    {
        match self {
            Ternary::Neg => -1,
            Ternary::Zero => 0,
            Ternary::Pos => 1,
        }
    }
}

/// Each vote has its own encoding, so decoding the encoding of a vote gives the vote
/// back, and encoding a decoded integer gives the integer back.
pub proof fn lemma_encoding_round_trip(t: Ternary, u: Ternary)
    ensures
        ternary_value(t) == ternary_value(u) ==> t == u,
        ternary_value(t) == -1 || ternary_value(t) == 0 || ternary_value(t) == 1,
{
}

/// Identifies a voter.
#[derive(Clone, Copy, Debug, PartialEq, Eq, Hash, Structural)]
pub struct AgentId(pub u64);

/// Identifies a proposal.
#[derive(Clone, Copy, Debug, PartialEq, Eq, Hash, Structural)]
pub struct ProposalId(pub u64);

/// Identifies a voting round.
#[derive(Clone, Copy, Debug, PartialEq, Eq, Hash, Structural)]
pub struct RoundId(pub u64);

} // verus!
