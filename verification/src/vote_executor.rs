//! The vote keeper: owns one `RoundVotes` per round seen so far, feeds each
//! incoming weighted vote to the tally of its round, and translates the
//! threshold that comes back into a state-machine event.  It also answers
//! the cross-round question behind round skips: whether the weight observed
//! in some round exceeds a third of the total voting power.

use vstd::prelude::*;

use crate::round_votes::{fresh_round_votes, RoundVotes, RoundVotesModel, Thresh};
use crate::state_machine::Event;
use crate::{Vote, VoteType};

verus! {

/// Whether some tracked round is `r`.
pub open spec fn has_round(rs: Seq<RoundVotesModel>, r: i64) -> bool {
    exists|i: int| 0 <= i < rs.len() && rs[i].round == r
}

/// The index tracking round `r`; meaningful when the rounds are distinct
/// and `has_round` holds, and then unique.
pub open spec fn round_index(rs: Seq<RoundVotesModel>, r: i64) -> int {
    choose|i: int| 0 <= i < rs.len() && rs[i].round == r
}

/// The tracked rounds after one `apply` call: the tally of the vote's round
/// (created fresh if the round is new) with the vote added.
pub open spec fn keeper_after(
    rs: Seq<RoundVotesModel>,
    height: i64,
    total: i64,
    vote: Vote,
    weight: i64,
) -> Seq<RoundVotesModel> {
    if has_round(rs, vote.round) {
        let i = round_index(rs, vote.round);
        rs.update(i, rs[i].after(vote, weight))
    } else {
        rs.push(fresh_round_votes(height, vote.round, total).after(vote, weight))
    }
}

/// The threshold that the vote's round reports after the vote is added.
pub open spec fn keeper_thresh(
    rs: Seq<RoundVotesModel>,
    height: i64,
    total: i64,
    vote: Vote,
    weight: i64,
) -> Thresh {
    if has_round(rs, vote.round) {
        rs[round_index(rs, vote.round)].after(vote, weight).thresh_for(vote.typ)
    } else {
        fresh_round_votes(height, vote.round, total).after(vote, weight).thresh_for(vote.typ)
    }
}

/// The exhaustive translation of a vote type and a threshold into a
/// state-machine event.  `Init` means no news; a precommit quorum for nil
/// carries no event of its own, being covered by `PrecommitAny`.
pub open spec fn to_event_spec(typ: VoteType, t: Thresh) -> Option<Event> {
    match (typ, t) {
        (_, Thresh::Init) => None,
        (VoteType::Prevote, Thresh::Any) => Some(Event::PolkaAny),
        (VoteType::Prevote, Thresh::Nil) => Some(Event::PolkaNil),
        (VoteType::Prevote, Thresh::Value(v)) => Some(Event::PolkaValue(v)),
        (VoteType::Precommit, Thresh::Any) => Some(Event::PrecommitAny),
        (VoteType::Precommit, Thresh::Nil) => None,
        (VoteType::Precommit, Thresh::Value(v)) => Some(Event::PrecommitValue(v)),
    }
}

/// The weight observed in round `r`, over both vote types; zero for a round
/// never seen.
pub open spec fn round_weight(rs: Seq<RoundVotesModel>, r: i64) -> int {
    if has_round(rs, r) {
        rs[round_index(rs, r)].weight_seen()
    } else {
        0
    }
}

/// Strictly more than a third of `total`: the threshold that justifies
/// skipping forward to a later round.
pub open spec fn skip_quorum(w: int, total: int) -> bool {
    3 * w > total
}

/// Owns the tallies of all rounds seen so far at one height and maps each
/// incoming vote to the event its threshold triggers, if any.
#[derive(Debug)]
pub struct VoteExecutor {
    pub height: i64,
    /// Configured total voting power of the validator set at this height.
    pub total: i64,
    /// One tally per round, in the order the rounds were first seen.
    pub rounds: Vec<RoundVotes>,
}

impl View for VoteExecutor {
    type V = Seq<RoundVotesModel>;

    open spec fn view(&self) -> Seq<RoundVotesModel> {
        self.rounds@.map_values(|rv: RoundVotes| rv@)
    }
}

impl VoteExecutor {
    /// The keeper invariant: every tally is well formed, belongs to this
    /// height, carries the configured total, and no round is tracked twice.
    pub open spec fn wf(self) -> bool {
        &&& 0 <= self.total
        &&& forall|i: int|
            0 <= i < self@.len() ==> (#[trigger] self@[i]).wf() && self@[i].height == self.height
                && self@[i].prevotes.total == self.total && self@[i].precommits.total == self.total
        &&& forall|i: int, j: int|
            0 <= i < j < self@.len() ==> #[trigger] self@[i].round != #[trigger] self@[j].round
    }

    pub fn new(height: i64, total_weight: i64) -> (k: VoteExecutor)
        requires
            0 <= total_weight,
        ensures
            k.height == height,
            k.total == total_weight,
            k@ == Seq::<RoundVotesModel>::empty(),
            k.wf(),
    {
        let rounds: Vec<RoundVotes> = Vec::new();
        let k = VoteExecutor { height, total: total_weight, rounds };
        proof {
            assert(k@ =~= Seq::<RoundVotesModel>::empty());
        }
        k
    }

    /// The index tracking `round`, if any; when the rounds are distinct this
    /// is the unique witness of `has_round`.
    fn find_round(&self, round: i64) -> (o: Option<usize>)
        requires
            self.wf(),
        ensures
            match o {
                Some(i) => i < self@.len() && self@[i as int].round == round && round_index(
                    self@,
                    round,
                ) == i && has_round(self@, round),
                None => !has_round(self@, round),
            },
    {
        let n = self.rounds.len();
        let mut i: usize = 0;
        while i < n
            invariant
                self.wf(),
                n == self@.len(),
                n == self.rounds@.len(),
                i <= n,
                forall|k: int| 0 <= k < i ==> #[trigger] self@[k].round != round,
            decreases n - i,
        {
            proof {
                assert(self@[i as int] == self.rounds@[i as int]@);
            }
            if self.rounds[i].round == round {
                proof {
                    let j = round_index(self@, round);
                    assert(0 <= j < self@.len() && self@[j].round == round);
                    if j != i {
                        assert(self@[j as int].round != self@[i as int].round);
                    }
                }
                return Some(i);
            }
            i += 1;
        }
        return None;
    }

    /// Add the vote to the tally of its round, creating the tally if the
    /// round is new, and translate the resulting threshold into an event.
    pub fn apply(&mut self, vote: Vote, weight: i64) -> (e: Option<Event>)
        requires
            old(self).wf(),
            0 <= weight,
        ensures
            final(self).height == old(self).height,
            final(self).total == old(self).total,
            final(self)@ == keeper_after(
                old(self)@,
                old(self).height,
                old(self).total,
                vote,
                weight,
            ),
            e == to_event_spec(
                vote.typ,
                keeper_thresh(old(self)@, old(self).height, old(self).total, vote, weight),
            ),
            final(self).wf(),
    {
        let thresh: Thresh = match self.find_round(vote.round) {
            Some(i) => {
                let rv = &mut self.rounds[i];
                let t = rv.add_vote(vote, weight);
                proof {
                    assert(self@ =~= old(self)@.update(
                        i as int,
                        old(self)@[i as int].after(vote, weight),
                    ));
                }
                t
            },
            None => {
                let mut rv = RoundVotes::new(self.height, vote.round, self.total);
                let t = rv.add_vote(vote, weight);
                self.rounds.push(rv);
                proof {
                    assert(self@ =~= old(self)@.push(
                        fresh_round_votes(old(self).height, vote.round, old(self).total).after(
                            vote,
                            weight,
                        ),
                    ));
                }
                t
            },
        };
        to_event(vote.typ, thresh)
    }

    /// Whether the weight observed in `round` strictly exceeds a third of
    /// the total voting power, the signal that justifies a round skip.
    pub fn skip_threshold(&self, round: i64) -> (b: bool)
        requires
            self.wf(),
        ensures
            b == skip_quorum(round_weight(self@, round), self.total as int),
    {
        match self.find_round(round) {
            Some(i) => {
                let rv = &self.rounds[i];
                proof {
                    assert(self@[i as int] == self.rounds@[i as int]@);
                }
                let seen: i128 = rv.prevotes.nil as i128 + rv.prevotes.value_total as i128
                    + rv.precommits.nil as i128 + rv.precommits.value_total as i128;
                3 * seen > self.total as i128
            },
            None => 3 * 0i128 > self.total as i128,
        }
    }
}

/// Map a vote type and a threshold to a state-machine event, following
/// `to_event_spec` exactly.
fn to_event(typ: VoteType, thresh: Thresh) -> (e: Option<Event>)
    ensures
        e == to_event_spec(typ, thresh),
{
    match (typ, thresh) {
        (_, Thresh::Init) => None,
        (VoteType::Prevote, Thresh::Any) => Some(Event::PolkaAny),
        (VoteType::Prevote, Thresh::Nil) => Some(Event::PolkaNil),
        (VoteType::Prevote, Thresh::Value(v)) => Some(Event::PolkaValue(v)),
        (VoteType::Precommit, Thresh::Any) => Some(Event::PrecommitAny),
        (VoteType::Precommit, Thresh::Nil) => None,
        (VoteType::Precommit, Thresh::Value(v)) => Some(Event::PrecommitValue(v)),
    }
}

} // verus!
