//! Core of a Tendermint-style consensus engine for one validator at one
//! height: a weighted vote tally with quorum detection, the round state
//! machine with its lock/unlock rules, and drivers that route inputs into
//! both and re-inject the messages they produce.

use vstd::prelude::*;

pub mod round_votes;
pub mod state_machine;
pub mod validators;
pub mod vote_executor;
pub mod consensus_executor;
pub mod executor;

verus! {

/// The unit of agreement.  The engine never inspects a value's content; it
/// only compares values for equality, so an opaque identifier suffices.
#[derive(Copy, Clone, Debug, PartialEq, Eq, Structural)]
pub struct Value {
    pub id: u64,
}

impl Value {
    pub fn new(id: u64) -> (v: Value)
        ensures
            v.id == id,
    {
        Value { id }
    }
}

/// A proposal for a value in a round.  `pol_round` is `-1` for a fresh
/// proposal, or the round at which the value last gathered a polka.
#[derive(Copy, Clone, Debug, PartialEq, Eq, Structural)]
pub struct Proposal {
    pub round: i64,
    pub value: Value,
    pub pol_round: i64,
}

#[derive(Copy, Clone, Debug, PartialEq, Eq, Structural)]
pub enum VoteType {
    Prevote,
    Precommit,
}

/// A vote for a value in a round; `value == None` is a vote for nil.
#[derive(Copy, Clone, Debug, PartialEq)]
pub struct Vote {
    pub typ: VoteType,
    pub round: i64,
    pub value: Option<Value>,
}

impl Vote {
    pub fn new_prevote(round: i64, value: Option<Value>) -> (v: Vote)
        ensures
            v == (Vote { typ: VoteType::Prevote, round, value }),
    {
        let typ = VoteType::Prevote;
        Vote { typ, round, value }
    }

    pub fn new_precommit(round: i64, value: Option<Value>) -> (v: Vote)
        ensures
            v == (Vote { typ: VoteType::Precommit, round, value }),
    {
        let typ = VoteType::Precommit;
        Vote { typ, round, value }
    }
}

} // verus!
