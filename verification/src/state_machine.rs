//! The round state machine: a pure transition function from a per-height
//! state and a round-tagged event to a new state and at most one output
//! message.  Every step of the algorithm (propose, prevote, precommit,
//! commit, the lock and unlock rules, round skips and timeouts) lives here.
//!
//! The whole transition is the spec function `next_spec`; the executable
//! entry point `State::apply` returns exactly what `next_spec` says.  That
//! the machine emits at most one message per transition is built into the
//! result type `Option<Message>`.

use vstd::prelude::*;

use crate::{Proposal, Value, Vote};

verus! {

/// The step of the consensus within the round, in the order the algorithm
/// passes through them.  `Commit` is terminal for the height.
#[derive(Copy, Clone, Debug, PartialEq, Eq, Structural)]
pub enum Step {
    NewRound,
    Propose,
    Prevote,
    Precommit,
    Commit,
}

/// A value together with the round at which it became locked or valid.
#[derive(Copy, Clone, Debug, PartialEq, Eq, Structural)]
pub struct RoundValue {
    pub round: i64,
    pub value: Value,
}

/// The step a timeout belongs to.  There is no timeout for `NewRound` or
/// `Commit`.
#[derive(Copy, Clone, Debug, PartialEq, Eq, Structural)]
pub enum TimeoutStep {
    Propose,
    Prevote,
    Precommit,
}

/// A timeout to schedule; when it fires it comes back as the matching
/// `Timeout*` event at this round.
#[derive(Copy, Clone, Debug, PartialEq, Eq, Structural)]
pub struct Timeout {
    pub round: i64,
    pub step: TimeoutStep,
}

/// The per-height state of one validator.
#[derive(Copy, Clone, Debug, PartialEq)]
pub struct State {
    /// Set at construction, never changed.
    pub height: i64,
    /// The current round; non-negative and non-decreasing.
    pub round: i64,
    pub step: Step,
    /// The value this validator has precommitted, with its round; must not
    /// be contradicted until legitimately unlocked.
    pub locked: Option<RoundValue>,
    /// The most recent value seen to have a polka, with its round; the basis
    /// of future proposals.
    pub valid: Option<RoundValue>,
}

/// An input signal for the state machine.
#[derive(Copy, Clone, Debug, PartialEq)]
pub enum Event {
    /// A new round began and this validator is not the proposer.
    NewRound,
    /// A new round began and this validator proposes; the value comes from
    /// the value provider.
    NewRoundProposer(Value),
    /// A valid proposal arrived: its POL round and its value.
    Proposal(i64, Value),
    /// A proposal arrived whose value failed external validation, or whose
    /// block is missing.
    ProposalInvalid,
    /// A prevote quorum spread over several values or nil.
    PolkaAny,
    /// A prevote quorum for nil.
    PolkaNil,
    /// A prevote quorum for this value.
    PolkaValue(Value),
    /// A precommit quorum spread over several values or nil.
    PrecommitAny,
    /// A precommit quorum for this value.
    PrecommitValue(Value),
    /// More than a third of the voting power was seen in a later round.
    RoundSkip,
    TimeoutPropose,
    TimeoutPrevote,
    TimeoutPrecommit,
}

/// An event tagged with the round it speaks about.
#[derive(Copy, Clone, Debug, PartialEq)]
pub struct RoundEvent {
    pub round: i64,
    pub event: Event,
}

/// An output of the state machine: a side-effect descriptor that the driver
/// surfaces or re-injects, never consumed inside the machine itself.
#[derive(Copy, Clone, Debug, PartialEq)]
pub enum Message {
    /// A new round has begun; the driver decides whether this validator
    /// proposes in it.
    NewRound(i64),
    /// A proposal to sign and broadcast.
    Proposal(Proposal),
    /// A prevote to sign and broadcast.
    Prevote(Vote),
    /// A precommit to sign and broadcast.
    Precommit(Vote),
    /// A timeout for the external scheduler.
    Timeout(Timeout),
    /// The final decision for the height.
    Decision(RoundValue),
}

/// The position of a step in the order the algorithm visits them.
pub open spec fn step_rank(s: Step) -> int {
    match s {
        Step::NewRound => 0,
        Step::Propose => 1,
        Step::Prevote => 2,
        Step::Precommit => 3,
        Step::Commit => 4,
    }
}

/// A POL round is `-1` (fresh proposal) or an earlier round of this height.
pub open spec fn valid_pol_round(pol_round: int, round: int) -> bool {
    pol_round == -1 || (0 <= pol_round && pol_round < round)
}

impl State {
    /// The state invariant: the round is non-negative, and a lock or valid
    /// value can only have been acquired in a round up to the current one,
    /// with the lock never younger than the valid value.
    pub open spec fn wf(self) -> bool {
        &&& 0 <= self.round
        &&& (self.locked matches Some(l) ==> 0 <= l.round && l.round <= self.round)
        &&& (self.valid matches Some(v) ==> 0 <= v.round && v.round <= self.round)
        &&& (self.locked is Some && self.valid is Some ==> self.locked.unwrap().round
            <= self.valid.unwrap().round)
    }

    /// The state a validator starts a height in.
    pub open spec fn init_spec(height: i64) -> State {
        State { height, round: 0, step: Step::NewRound, locked: None, valid: None }
    }

    pub fn new(height: i64) -> (s: State)
        ensures
            s == State::init_spec(height),
            s.wf(),
    {
        State { height, round: 0, step: Step::NewRound, locked: None, valid: None }
    }

    /// Drive the machine one transition.  Returns exactly what `next_spec`
    /// prescribes; in particular at most one message, and nothing at all
    /// once the step is `Commit`.
    pub fn apply(self, round: i64, event: Event) -> (r: (State, Option<Message>))
        ensures
            r == next_spec(self, round, event),
    {
        if matches!(self.step, Step::Commit) {
            return (self, None);
        }
        let eqr: bool = self.round == round;
        match event {
            Event::NewRoundProposer(v) => {
                if matches!(self.step, Step::NewRound) && eqr {
                    propose(self, v)
                } else {
                    (self, None)
                }
            },
            Event::NewRound => {
                if matches!(self.step, Step::NewRound) && eqr {
                    schedule_timeout_propose(self, round)
                } else {
                    (self, None)
                }
            },
            Event::Proposal(pol_round, v) => {
                if matches!(self.step, Step::Propose) && eqr && (pol_round == -1 || (0
                    <= pol_round && pol_round < self.round)) {
                    prevote(self, pol_round, v)
                } else {
                    (self, None)
                }
            },
            Event::ProposalInvalid => {
                if matches!(self.step, Step::Propose) && eqr {
                    prevote_nil(self)
                } else {
                    (self, None)
                }
            },
            Event::TimeoutPropose => {
                if matches!(self.step, Step::Propose) && eqr {
                    prevote_nil(self)
                } else {
                    (self, None)
                }
            },
            Event::PolkaAny => {
                if matches!(self.step, Step::Prevote) && eqr {
                    schedule_timeout_prevote(self)
                } else {
                    (self, None)
                }
            },
            Event::PolkaNil => {
                if matches!(self.step, Step::Prevote) && eqr {
                    precommit_nil(self)
                } else {
                    (self, None)
                }
            },
            Event::PolkaValue(v) => {
                if eqr && matches!(self.step, Step::Prevote) {
                    precommit(self, v)
                } else if eqr && matches!(self.step, Step::Precommit) {
                    set_valid_value(self, v)
                } else {
                    (self, None)
                }
            },
            Event::TimeoutPrevote => {
                if matches!(self.step, Step::Prevote) && eqr {
                    precommit_nil(self)
                } else {
                    (self, None)
                }
            },
            Event::PrecommitAny => {
                if eqr {
                    schedule_timeout_precommit(self)
                } else {
                    (self, None)
                }
            },
            Event::TimeoutPrecommit => {
                if eqr && round < i64::MAX {
                    round_skip(self, round + 1)
                } else {
                    (self, None)
                }
            },
            Event::RoundSkip => {
                if self.round < round {
                    round_skip(self, round)
                } else {
                    (self, None)
                }
            },
            Event::PrecommitValue(v) => commit(self, round, v),
        }
    }
}

/// The full transition function: guards, dispatch and handlers in one
/// place.  Unmatched pairs of step and event leave the state unchanged and
/// emit nothing.
pub open spec fn next_spec(s: State, round: i64, event: Event) -> (State, Option<Message>) {
    if s.step is Commit {
        (s, None)
    } else {
        let eqr = s.round == round;
        match event {
            Event::NewRoundProposer(v) => if s.step is NewRound && eqr {
                propose_spec(s, v)
            } else {
                (s, None)
            },
            Event::NewRound => if s.step is NewRound && eqr {
                schedule_timeout_propose_spec(s, round)
            } else {
                (s, None)
            },
            Event::Proposal(pol_round, v) => if s.step is Propose && eqr && valid_pol_round(
                pol_round as int,
                s.round as int,
            ) {
                prevote_spec(s, pol_round, v)
            } else {
                (s, None)
            },
            Event::ProposalInvalid => if s.step is Propose && eqr {
                prevote_nil_spec(s)
            } else {
                (s, None)
            },
            Event::TimeoutPropose => if s.step is Propose && eqr {
                prevote_nil_spec(s)
            } else {
                (s, None)
            },
            Event::PolkaAny => if s.step is Prevote && eqr {
                schedule_timeout_prevote_spec(s)
            } else {
                (s, None)
            },
            Event::PolkaNil => if s.step is Prevote && eqr {
                precommit_nil_spec(s)
            } else {
                (s, None)
            },
            Event::PolkaValue(v) => if eqr && s.step is Prevote {
                precommit_spec(s, v)
            } else if eqr && s.step is Precommit {
                set_valid_value_spec(s, v)
            } else {
                (s, None)
            },
            Event::TimeoutPrevote => if s.step is Prevote && eqr {
                precommit_nil_spec(s)
            } else {
                (s, None)
            },
            Event::PrecommitAny => if eqr {
                schedule_timeout_precommit_spec(s)
            } else {
                (s, None)
            },
            Event::TimeoutPrecommit => if eqr && round < i64::MAX {
                round_skip_spec(s, (round + 1) as i64)
            } else {
                (s, None)
            },
            Event::RoundSkip => if s.round < round {
                round_skip_spec(s, round)
            } else {
                (s, None)
            },
            Event::PrecommitValue(v) => commit_spec(s, round, v),
        }
    }
}

/// This validator proposes: advance to `Propose` and propose the valid
/// value if one is known, else the value the provider handed in.
pub open spec fn propose_spec(s: State, v: Value) -> (State, Option<Message>) {
    let s2 = State { step: Step::Propose, ..s };
    let p = match s.valid {
        Some(rv) => Proposal { round: s.round, value: rv.value, pol_round: rv.round },
        None => Proposal { round: s.round, value: v, pol_round: -1i64 },
    };
    (s2, Some(Message::Proposal(p)))
}

fn propose(s: State, v: Value) -> (r: (State, Option<Message>))
    ensures
        r == propose_spec(s, v),
{
    let s2 = State { step: Step::Propose, ..s };
    let p = match s.valid {
        Some(rv) => Proposal { round: s.round, value: rv.value, pol_round: rv.round },
        None => Proposal { round: s.round, value: v, pol_round: -1 },
    };
    (s2, Some(Message::Proposal(p)))
}

/// A valid proposal arrived while waiting in `Propose`: advance to
/// `Prevote` and prevote the proposed value unless a lock forbids it.  The
/// lock allows the value when there is no lock, when the lock is at most as
/// old as the proposal's POL round (the unlock rule), or when the lock is on
/// this very value; otherwise prevote nil.
pub open spec fn prevote_spec(s: State, pol_round: i64, proposed: Value) -> (
    State,
    Option<Message>,
) {
    let value = match s.locked {
        None => Some(proposed),
        Some(l) => if l.round <= pol_round {
            Some(proposed)
        } else if l.value == proposed {
            Some(proposed)
        } else {
            None
        },
    };
    let s2 = State { step: Step::Prevote, ..s };
    (s2, Some(Message::Prevote(Vote { typ: crate::VoteType::Prevote, round: s.round, value })))
}

fn prevote(s: State, pol_round: i64, proposed: Value) -> (r: (State, Option<Message>))
    ensures
        r == prevote_spec(s, pol_round, proposed),
{
    let value = match s.locked {
        None => Some(proposed),
        Some(l) => if l.round <= pol_round {
            Some(proposed)
        } else if l.value == proposed {
            Some(proposed)
        } else {
            None
        },
    };
    let s2 = State { step: Step::Prevote, ..s };
    (s2, Some(Message::Prevote(Vote::new_prevote(s.round, value))))
}

/// No acceptable proposal in time: advance to `Prevote` and prevote nil.
pub open spec fn prevote_nil_spec(s: State) -> (State, Option<Message>) {
    let s2 = State { step: Step::Prevote, ..s };
    (s2, Some(Message::Prevote(Vote { typ: crate::VoteType::Prevote, round: s.round, value: None })))
}

fn prevote_nil(s: State) -> (r: (State, Option<Message>))
    ensures
        r == prevote_nil_spec(s),
{
    let s2 = State { step: Step::Prevote, ..s };
    (s2, Some(Message::Prevote(Vote::new_prevote(s.round, None))))
}

/// A polka for `v` while in `Prevote`: lock `v`, record it as valid, advance
/// to `Precommit` and precommit it.
pub open spec fn precommit_spec(s: State, v: Value) -> (State, Option<Message>) {
    let rv = RoundValue { round: s.round, value: v };
    let s2 = State { step: Step::Precommit, locked: Some(rv), valid: Some(rv), ..s };
    (
        s2,
        Some(
            Message::Precommit(
                Vote { typ: crate::VoteType::Precommit, round: s.round, value: Some(v) },
            ),
        ),
    )
}

fn precommit(s: State, v: Value) -> (r: (State, Option<Message>))
    ensures
        r == precommit_spec(s, v),
{
    let rv = RoundValue { round: s.round, value: v };
    let s2 = State { step: Step::Precommit, locked: Some(rv), valid: Some(rv), ..s };
    (s2, Some(Message::Precommit(Vote::new_precommit(s.round, Some(v)))))
}

/// Nothing worth precommitting: advance to `Precommit` and precommit nil,
/// leaving lock and valid value untouched.
pub open spec fn precommit_nil_spec(s: State) -> (State, Option<Message>) {
    let s2 = State { step: Step::Precommit, ..s };
    (
        s2,
        Some(
            Message::Precommit(
                Vote { typ: crate::VoteType::Precommit, round: s.round, value: None },
            ),
        ),
    )
}

fn precommit_nil(s: State) -> (r: (State, Option<Message>))
    ensures
        r == precommit_nil_spec(s),
{
    let s2 = State { step: Step::Precommit, ..s };
    (s2, Some(Message::Precommit(Vote::new_precommit(s.round, None))))
}

/// A late polka while already in `Precommit`: upgrade the valid value but
/// not the lock, and emit nothing.
pub open spec fn set_valid_value_spec(s: State, v: Value) -> (State, Option<Message>) {
    (State { valid: Some(RoundValue { round: s.round, value: v }), ..s }, None)
}

fn set_valid_value(s: State, v: Value) -> (r: (State, Option<Message>))
    ensures
        r == set_valid_value_spec(s, v),
{
    (State { valid: Some(RoundValue { round: s.round, value: v }), ..s }, None)
}

/// Not the proposer in a fresh round: move to `Propose` and schedule the
/// propose timeout, waiting for the proposer's value.
pub open spec fn schedule_timeout_propose_spec(s: State, round: i64) -> (State, Option<Message>) {
    let s2 = State { round, step: Step::Propose, ..s };
    (s2, Some(Message::Timeout(Timeout { round, step: TimeoutStep::Propose })))
}

fn schedule_timeout_propose(s: State, round: i64) -> (r: (State, Option<Message>))
    ensures
        r == schedule_timeout_propose_spec(s, round),
{
    let s2 = State { round, step: Step::Propose, ..s };
    (s2, Some(Message::Timeout(Timeout { round, step: TimeoutStep::Propose })))
}

/// A mixed prevote quorum: give the polka a chance to form before
/// precommitting nil.
pub open spec fn schedule_timeout_prevote_spec(s: State) -> (State, Option<Message>) {
    (s, Some(Message::Timeout(Timeout { round: s.round, step: TimeoutStep::Prevote })))
}

fn schedule_timeout_prevote(s: State) -> (r: (State, Option<Message>))
    ensures
        r == schedule_timeout_prevote_spec(s),
{
    (s, Some(Message::Timeout(Timeout { round: s.round, step: TimeoutStep::Prevote })))
}

/// A mixed precommit quorum: give the decision a chance to arrive before
/// skipping to the next round.
pub open spec fn schedule_timeout_precommit_spec(s: State) -> (State, Option<Message>) {
    (s, Some(Message::Timeout(Timeout { round: s.round, step: TimeoutStep::Precommit })))
}

fn schedule_timeout_precommit(s: State) -> (r: (State, Option<Message>))
    ensures
        r == schedule_timeout_precommit_spec(s),
{
    (s, Some(Message::Timeout(Timeout { round: s.round, step: TimeoutStep::Precommit })))
}

/// Move forward to round `r`, keeping lock and valid value, and announce
/// the new round so the driver can decide who proposes.
pub open spec fn round_skip_spec(s: State, r: i64) -> (State, Option<Message>) {
    (State { round: r, step: Step::NewRound, ..s }, Some(Message::NewRound(r)))
}

fn round_skip(s: State, r: i64) -> (res: (State, Option<Message>))
    ensures
        res == round_skip_spec(s, r),
{
    (State { round: r, step: Step::NewRound, ..s }, Some(Message::NewRound(r)))
}

/// A precommit quorum for a value, from any round: decide it.  Terminal.
pub open spec fn commit_spec(s: State, round: i64, v: Value) -> (State, Option<Message>) {
    (
        State { step: Step::Commit, ..s },
        Some(Message::Decision(RoundValue { round, value: v })),
    )
}

fn commit(s: State, round: i64, v: Value) -> (r: (State, Option<Message>))
    ensures
        r == commit_spec(s, round, v),
{
    (State { step: Step::Commit, ..s }, Some(Message::Decision(RoundValue { round, value: v })))
}


/// Purity: the transition is a mathematical function, so equal inputs give
/// equal outputs, whatever they are.
pub proof fn lemma_next_deterministic(
    s1: State,
    round1: i64,
    event1: Event,
    s2: State,
    round2: i64,
    event2: Event,
)
    requires
        s1 == s2,
        round1 == round2,
        event1 == event2,
    ensures
        next_spec(s1, round1, event1) == next_spec(s2, round2, event2),
{
}

/// Every transition preserves the state invariant.
pub proof fn lemma_next_preserves_wf(s: State, round: i64, event: Event)
    requires
        s.wf(),
    ensures
        next_spec(s, round, event).0.wf(),
{
}

/// Round monotonicity: one transition never decreases the round.
pub proof fn lemma_round_monotone_step(s: State, round: i64, event: Event)
    requires
        s.wf(),
    ensures
        next_spec(s, round, event).0.round >= s.round,
{
}

/// Lock monotonicity: one transition never drops a lock or a valid value,
/// and never moves either to an earlier round.
pub proof fn lemma_lock_monotone_step(s: State, round: i64, event: Event)
    requires
        s.wf(),
    ensures
        s.locked is Some ==> next_spec(s, round, event).0.locked is Some
            && next_spec(s, round, event).0.locked.unwrap().round >= s.locked.unwrap().round,
        s.valid is Some ==> next_spec(s, round, event).0.valid is Some
            && next_spec(s, round, event).0.valid.unwrap().round >= s.valid.unwrap().round,
{
}

/// Terminal absorption: once the step is `Commit`, every event leaves the
/// state untouched and emits nothing.
pub proof fn lemma_terminal_absorption(s: State, round: i64, event: Event)
    requires
        s.step is Commit,
    ensures
        next_spec(s, round, event) == (s, None::<Message>),
{
}

/// Step ordering: within a round the step only moves forward through
/// `NewRound < Propose < Prevote < Precommit < Commit`; the step goes
/// backwards only when the round moves strictly forward, and then it is
/// reset to `NewRound`.
pub proof fn lemma_step_order(s: State, round: i64, event: Event)
    requires
        s.wf(),
    ensures
        next_spec(s, round, event).0.round == s.round ==> step_rank(next_spec(s, round, event).0.step)
            >= step_rank(s.step),
        next_spec(s, round, event).0.round != s.round ==> next_spec(s, round, event).0.round
            > s.round && next_spec(s, round, event).0.step is NewRound,
{
}

/// The unlock rule: a proposal seen in step `Propose` at the current round
/// is prevoted exactly when no lock forbids it -- there is no lock, or the
/// lock is at most as old as the proposal's POL round, or the lock is on the
/// proposed value itself.  Otherwise the prevote is for nil.
pub proof fn lemma_unlock_rule(s: State, pol_round: i64, proposed: Value)
    requires
        s.wf(),
        s.step is Propose,
        valid_pol_round(pol_round as int, s.round as int),
    ensures
        ({
            let out = next_spec(s, s.round, Event::Proposal(pol_round, proposed)).1;
            &&& (s.locked is None || s.locked.unwrap().round <= pol_round
                || s.locked.unwrap().value == proposed) ==> out == Some(
                Message::Prevote(
                    Vote {
                        typ: crate::VoteType::Prevote,
                        round: s.round,
                        value: Some(proposed),
                    },
                ),
            )
            &&& !(s.locked is None || s.locked.unwrap().round <= pol_round
                || s.locked.unwrap().value == proposed) ==> out == Some(
                Message::Prevote(
                    Vote { typ: crate::VoteType::Prevote, round: s.round, value: None },
                ),
            )
        }),
{
}

/// The proposal selection rule: when this validator proposes, a known valid
/// value is proposed with its polka round; otherwise the provider's value is
/// proposed fresh, with POL round `-1`.
pub proof fn lemma_proposal_selection(s: State, v: Value)
    requires
        s.wf(),
        s.step is NewRound,
    ensures
        ({
            let out = next_spec(s, s.round, Event::NewRoundProposer(v)).1;
            &&& (s.valid matches Some(rv) ==> out == Some(
                Message::Proposal(Proposal { round: s.round, value: rv.value, pol_round: rv.round }),
            ))
            &&& (s.valid is None ==> out == Some(
                Message::Proposal(Proposal { round: s.round, value: v, pol_round: -1i64 }),
            ))
        }),
{
}

/// The state after feeding a whole sequence of round-tagged events through
/// the machine, one at a time, discarding the messages.
pub open spec fn run_spec(s: State, events: Seq<RoundEvent>) -> State
    decreases events.len(),
{
    if events.len() == 0 {
        s
    } else {
        run_spec(next_spec(s, events[0].round, events[0].event).0, events.drop_first())
    }
}

/// Over a whole run the invariant is kept and the round never decreases.
pub proof fn lemma_run_wf(s: State, events: Seq<RoundEvent>)
    requires
        s.wf(),
    ensures
        run_spec(s, events).wf(),
        run_spec(s, events).round >= s.round,
    decreases events.len(),
{
    if events.len() > 0 {
        let s2 = next_spec(s, events[0].round, events[0].event).0;
        lemma_next_preserves_wf(s, events[0].round, events[0].event);
        lemma_round_monotone_step(s, events[0].round, events[0].event);
        lemma_run_wf(s2, events.drop_first());
    }
}

/// Running a concatenation is running the two parts in turn.
pub proof fn lemma_run_append(s: State, a: Seq<RoundEvent>, b: Seq<RoundEvent>)
    ensures
        run_spec(s, a + b) == run_spec(run_spec(s, a), b),
    decreases a.len(),
{
    if a.len() == 0 {
        assert(a + b =~= b);
    } else {
        let s2 = next_spec(s, a[0].round, a[0].event).0;
        assert((a + b).drop_first() =~= a.drop_first() + b);
        assert((a + b)[0] == a[0]);
        lemma_run_append(s2, a.drop_first(), b);
    }
}

/// Round monotonicity over sequences: along any run, successive values of
/// the round are non-decreasing.
pub proof fn lemma_round_monotone(s: State, events: Seq<RoundEvent>, i: int, j: int)
    requires
        s.wf(),
        0 <= i <= j <= events.len(),
    ensures
        run_spec(s, events.take(i)).round <= run_spec(s, events.take(j)).round,
{
    assert(events.take(j) =~= events.take(i) + events.subrange(i, j));
    lemma_run_append(s, events.take(i), events.subrange(i, j));
    lemma_run_wf(s, events.take(i));
    lemma_run_wf(run_spec(s, events.take(i)), events.subrange(i, j));
}

/// Over a whole run, a lock or valid value is never dropped and its round
/// never decreases.
pub proof fn lemma_run_lock(s: State, events: Seq<RoundEvent>)
    requires
        s.wf(),
    ensures
        s.locked is Some ==> run_spec(s, events).locked is Some && run_spec(
            s,
            events,
        ).locked.unwrap().round >= s.locked.unwrap().round,
        s.valid is Some ==> run_spec(s, events).valid is Some && run_spec(
            s,
            events,
        ).valid.unwrap().round >= s.valid.unwrap().round,
    decreases events.len(),
{
    if events.len() > 0 {
        let s2 = next_spec(s, events[0].round, events[0].event).0;
        lemma_next_preserves_wf(s, events[0].round, events[0].event);
        lemma_lock_monotone_step(s, events[0].round, events[0].event);
        lemma_run_lock(s2, events.drop_first());
    }
}

/// Lock monotonicity over sequences: along any run, the round of the lock
/// and the round of the valid value are non-decreasing.
pub proof fn lemma_lock_monotone(s: State, events: Seq<RoundEvent>, i: int, j: int)
    requires
        s.wf(),
        0 <= i <= j <= events.len(),
    ensures
        run_spec(s, events.take(i)).locked is Some ==> run_spec(s, events.take(j)).locked is Some
            && run_spec(s, events.take(j)).locked.unwrap().round >= run_spec(
            s,
            events.take(i),
        ).locked.unwrap().round,
        run_spec(s, events.take(i)).valid is Some ==> run_spec(s, events.take(j)).valid is Some
            && run_spec(s, events.take(j)).valid.unwrap().round >= run_spec(
            s,
            events.take(i),
        ).valid.unwrap().round,
{
    assert(events.take(j) =~= events.take(i) + events.subrange(i, j));
    lemma_run_append(s, events.take(i), events.subrange(i, j));
    lemma_run_wf(s, events.take(i));
    lemma_run_lock(run_spec(s, events.take(i)), events.subrange(i, j));
}

} // verus!
