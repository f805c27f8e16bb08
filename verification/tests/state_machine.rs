use consensus_core::state_machine::{
    Event, Message, RoundValue, State, Step, Timeout, TimeoutStep,
};
use consensus_core::{Proposal, Value, Vote};

// Happy path as proposer: propose own value, see the polka and the
// precommit quorum, decide.
#[test]
fn s1_happy_path_proposer() {
    let v = Value::new(7);
    let s = State::new(1);
    let (s, m) = s.apply(0, Event::NewRoundProposer(v));
    assert_eq!(
        m,
        Some(Message::Proposal(Proposal { round: 0, value: v, pol_round: -1 }))
    );
    assert_eq!(s.step, Step::Propose);
    let (s, m) = s.apply(0, Event::Proposal(-1, v));
    assert_eq!(m, Some(Message::Prevote(Vote::new_prevote(0, Some(v)))));
    let (s, m) = s.apply(0, Event::PolkaValue(v));
    assert_eq!(m, Some(Message::Precommit(Vote::new_precommit(0, Some(v)))));
    assert_eq!(s.locked, Some(RoundValue { round: 0, value: v }));
    assert_eq!(s.valid, Some(RoundValue { round: 0, value: v }));
    let (s, m) = s.apply(0, Event::PrecommitValue(v));
    assert_eq!(m, Some(Message::Decision(RoundValue { round: 0, value: v })));
    assert_eq!(s.step, Step::Commit);
}

// Not the proposer and no proposal in time: prevote nil, precommit nil; a
// late prevote timeout is silently ignored once the step has moved on.
#[test]
fn s2_not_proposer_timeout_propose() {
    let s = State::new(1);
    let (s, m) = s.apply(0, Event::NewRound);
    assert_eq!(
        m,
        Some(Message::Timeout(Timeout { round: 0, step: TimeoutStep::Propose }))
    );
    assert_eq!(s.step, Step::Propose);
    let (s, m) = s.apply(0, Event::TimeoutPropose);
    assert_eq!(m, Some(Message::Prevote(Vote::new_prevote(0, None))));
    let (s, m) = s.apply(0, Event::PolkaNil);
    assert_eq!(m, Some(Message::Precommit(Vote::new_precommit(0, None))));
    assert_eq!(s.step, Step::Precommit);
    let (s2, m) = s.apply(0, Event::TimeoutPrevote);
    assert_eq!(m, None);
    assert_eq!(s2, s);
}

fn locked_at_round_zero(v: Value) -> State {
    let s = State::new(1);
    let (s, _) = s.apply(0, Event::NewRoundProposer(v));
    let (s, _) = s.apply(0, Event::Proposal(-1, v));
    let (s, _) = s.apply(0, Event::PolkaValue(v));
    assert_eq!(s.locked, Some(RoundValue { round: 0, value: v }));
    assert_eq!(s.step, Step::Precommit);
    s
}

// Lock at round 0, then unlock at round 1: the new proposal's POL round is
// not older than the lock, so the new value is prevoted.
#[test]
fn s3_unlock_at_higher_round() {
    let v = Value::new(1);
    let v2 = Value::new(2);
    let s = locked_at_round_zero(v);
    let (s, m) = s.apply(1, Event::RoundSkip);
    assert_eq!(m, Some(Message::NewRound(1)));
    assert_eq!(s.round, 1);
    assert_eq!(s.step, Step::NewRound);
    let (s, m) = s.apply(1, Event::NewRound);
    assert_eq!(
        m,
        Some(Message::Timeout(Timeout { round: 1, step: TimeoutStep::Propose }))
    );
    let (_, m) = s.apply(1, Event::Proposal(0, v2));
    assert_eq!(m, Some(Message::Prevote(Vote::new_prevote(1, Some(v2)))));
}

// Same setup, but a fresh proposal (POL round -1) for a different value
// cannot unseat the lock: prevote nil.
#[test]
fn s4_lock_held_against_fresh_proposal() {
    let v = Value::new(1);
    let v2 = Value::new(2);
    let s = locked_at_round_zero(v);
    let (s, _) = s.apply(1, Event::RoundSkip);
    let (s, _) = s.apply(1, Event::NewRound);
    let (s2, m) = s.apply(1, Event::Proposal(-1, v2));
    assert_eq!(m, Some(Message::Prevote(Vote::new_prevote(1, None))));
    assert_eq!(s2.locked, Some(RoundValue { round: 0, value: v }));
}

// A late polka while already in Precommit upgrades the valid value but not
// the lock, and emits nothing.
#[test]
fn s5_late_polka_upgrades_valid_only() {
    let v = Value::new(1);
    let v2 = Value::new(2);
    let s = locked_at_round_zero(v);
    let (s2, m) = s.apply(0, Event::PolkaValue(v2));
    assert_eq!(m, None);
    assert_eq!(s2.valid, Some(RoundValue { round: 0, value: v2 }));
    assert_eq!(s2.locked, Some(RoundValue { round: 0, value: v }));
    assert_eq!(s2.step, Step::Precommit);
}

// Purity: applying the same event to the same state twice gives the same
// state and the same message.
#[test]
fn purity_equal_inputs_equal_outputs() {
    let v = Value::new(5);
    let s = State::new(3);
    let (s1, m1) = s.apply(0, Event::NewRoundProposer(v));
    let (s2, m2) = s.apply(0, Event::NewRoundProposer(v));
    assert_eq!(s1, s2);
    assert_eq!(m1, m2);
}

// Round monotonicity along a run that skips forward.
#[test]
fn round_never_decreases() {
    let v = Value::new(5);
    let mut s = State::new(1);
    let mut last_round = s.round;
    let inputs = [
        (0, Event::NewRoundProposer(v)),
        (0, Event::Proposal(-1, v)),
        (3, Event::RoundSkip),
        (1, Event::RoundSkip),
        (3, Event::NewRound),
        (3, Event::TimeoutPropose),
    ];
    for (round, event) in inputs {
        let (s2, _) = s.apply(round, event);
        assert!(s2.round >= last_round);
        last_round = s2.round;
        s = s2;
    }
    assert_eq!(s.round, 3);
}

// Lock monotonicity: the lock round never decreases, even across a round
// skip and a new precommit.
#[test]
fn lock_round_never_decreases() {
    let v = Value::new(1);
    let v2 = Value::new(2);
    let s = locked_at_round_zero(v);
    assert_eq!(s.locked.unwrap().round, 0);
    let (s, _) = s.apply(2, Event::RoundSkip);
    assert_eq!(s.locked.unwrap().round, 0);
    let (s, _) = s.apply(2, Event::NewRound);
    let (s, _) = s.apply(2, Event::Proposal(0, v2));
    let (s, _) = s.apply(2, Event::PolkaValue(v2));
    assert_eq!(s.locked, Some(RoundValue { round: 2, value: v2 }));
    assert_eq!(s.valid, Some(RoundValue { round: 2, value: v2 }));
}

// Terminal absorption: a committed state ignores every further event.
#[test]
fn commit_absorbs_everything() {
    let v = Value::new(4);
    let s = State::new(1);
    let (s, _) = s.apply(0, Event::PrecommitValue(v));
    assert_eq!(s.step, Step::Commit);
    let events = [
        Event::NewRound,
        Event::NewRoundProposer(v),
        Event::Proposal(-1, v),
        Event::ProposalInvalid,
        Event::PolkaAny,
        Event::PolkaNil,
        Event::PolkaValue(v),
        Event::PrecommitAny,
        Event::PrecommitValue(v),
        Event::RoundSkip,
        Event::TimeoutPropose,
        Event::TimeoutPrevote,
        Event::TimeoutPrecommit,
    ];
    for e in events {
        let (s2, m) = s.apply(0, e);
        assert_eq!(s2, s);
        assert_eq!(m, None);
        let (s3, m3) = s.apply(5, e);
        assert_eq!(s3, s);
        assert_eq!(m3, None);
    }
}

// Step ordering within a round: the rank of the step never goes back while
// the round stands still, and a precommit timeout resets to NewRound at the
// next round.
#[test]
fn step_order_within_round() {
    fn rank(s: Step) -> u32 {
        match s {
            Step::NewRound => 0,
            Step::Propose => 1,
            Step::Prevote => 2,
            Step::Precommit => 3,
            Step::Commit => 4,
        }
    }
    let v = Value::new(6);
    let mut s = State::new(1);
    let inputs = [
        (0, Event::NewRoundProposer(v)),
        (0, Event::Proposal(-1, v)),
        (0, Event::PolkaAny),
        (0, Event::PolkaValue(v)),
        (0, Event::PrecommitAny),
    ];
    for (round, event) in inputs {
        let prev = s;
        let (s2, _) = s.apply(round, event);
        assert_eq!(s2.round, prev.round);
        assert!(rank(s2.step) >= rank(prev.step));
        s = s2;
    }
    let (s2, m) = s.apply(0, Event::TimeoutPrecommit);
    assert_eq!(s2.round, 1);
    assert_eq!(s2.step, Step::NewRound);
    assert_eq!(m, Some(Message::NewRound(1)));
}

// At most one output: every transition hands back a single optional
// message, here exercised over a whole run.
#[test]
fn at_most_one_output_per_transition() {
    let v = Value::new(8);
    let mut s = State::new(1);
    let inputs = [
        (0, Event::NewRoundProposer(v)),
        (0, Event::Proposal(-1, v)),
        (0, Event::PolkaValue(v)),
        (0, Event::PrecommitValue(v)),
    ];
    let mut outputs = 0;
    for (round, event) in inputs {
        let (s2, m) = s.apply(round, event);
        outputs += match m {
            Some(_) => 1,
            None => 0,
        };
        s = s2;
    }
    assert_eq!(outputs, 4);
}

// Proposal selection: with a valid value recorded, a proposer re-proposes
// it with its polka round; without one, the provider's value goes out
// fresh.
#[test]
fn proposal_selection_uses_valid_value() {
    let v = Value::new(1);
    let w = Value::new(9);
    let s = locked_at_round_zero(v);
    let (s, _) = s.apply(1, Event::RoundSkip);
    let (_, m) = s.apply(1, Event::NewRoundProposer(w));
    assert_eq!(
        m,
        Some(Message::Proposal(Proposal { round: 1, value: v, pol_round: 0 }))
    );
}

// A proposal whose POL round is out of range (not -1, not an earlier
// round) is rejected outright: no transition, no message.
#[test]
fn out_of_range_pol_round_is_ignored() {
    let v = Value::new(2);
    let s = State::new(1);
    let (s, _) = s.apply(0, Event::NewRound);
    assert_eq!(s.step, Step::Propose);
    let (s2, m) = s.apply(0, Event::Proposal(0, v));
    assert_eq!(m, None);
    assert_eq!(s2, s);
    let (s3, m) = s.apply(0, Event::Proposal(-2, v));
    assert_eq!(m, None);
    assert_eq!(s3, s);
}

// A precommit quorum for a value is accepted whatever round it is from.
#[test]
fn commit_accepted_from_any_round() {
    let v = Value::new(3);
    let s = State::new(1);
    let (s, m) = s.apply(7, Event::PrecommitValue(v));
    assert_eq!(m, Some(Message::Decision(RoundValue { round: 7, value: v })));
    assert_eq!(s.step, Step::Commit);
}

// Current-round events from another round are ignored.
#[test]
fn wrong_round_events_are_ignored() {
    let v = Value::new(3);
    let s = State::new(1);
    let (s2, m) = s.apply(1, Event::NewRoundProposer(v));
    assert_eq!(m, None);
    assert_eq!(s2, s);
    let (s3, m) = s.apply(0, Event::RoundSkip);
    assert_eq!(m, None);
    assert_eq!(s3, s);
}
