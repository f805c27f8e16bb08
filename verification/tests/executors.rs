use consensus_core::consensus_executor::{ConsensusExecutor, Message as CeMessage};
use consensus_core::executor::{Executor, Message as ExMessage};
use consensus_core::round_votes::ValueWeight;
use consensus_core::state_machine::{Event, Message, RoundValue, Step, Timeout, TimeoutStep};
use consensus_core::vote_executor::VoteExecutor;
use consensus_core::{Proposal, Value, Vote};

// The keeper creates one tally per round and translates thresholds into
// events by the table: a prevote quorum for a value is a polka for it.
#[test]
fn keeper_polka_value() {
    let v = Value::new(1);
    let mut keeper = VoteExecutor::new(1, 4);
    let vote = Vote::new_prevote(0, Some(v));
    assert_eq!(keeper.apply(vote, 1), None);
    assert_eq!(keeper.apply(vote, 1), None);
    assert_eq!(keeper.apply(vote, 1), Some(Event::PolkaValue(v)));
}

// A nil prevote quorum is a nil polka; a nil precommit quorum carries no
// event of its own.
#[test]
fn keeper_nil_thresholds() {
    let mut keeper = VoteExecutor::new(1, 4);
    let prevote_nil = Vote::new_prevote(0, None);
    assert_eq!(keeper.apply(prevote_nil, 3), Some(Event::PolkaNil));
    let precommit_nil = Vote::new_precommit(0, None);
    assert_eq!(keeper.apply(precommit_nil, 3), None);
}

// A mixed precommit quorum gives PrecommitAny; a value quorum gives
// PrecommitValue.
#[test]
fn keeper_precommit_thresholds() {
    let v = Value::new(2);
    let mut keeper = VoteExecutor::new(1, 4);
    assert_eq!(keeper.apply(Vote::new_precommit(0, Some(v)), 2), None);
    assert_eq!(
        keeper.apply(Vote::new_precommit(0, None), 1),
        Some(Event::PrecommitAny)
    );
    assert_eq!(
        keeper.apply(Vote::new_precommit(0, Some(v)), 1),
        Some(Event::PrecommitValue(v))
    );
}

// A quorum spread over two distinct values is not a polka for either.
#[test]
fn keeper_no_polka_for_split_values() {
    let v1 = Value::new(1);
    let v2 = Value::new(2);
    let mut keeper = VoteExecutor::new(1, 4);
    assert_eq!(keeper.apply(Vote::new_prevote(0, Some(v1)), 2), None);
    assert_eq!(
        keeper.apply(Vote::new_prevote(0, Some(v2)), 2),
        Some(Event::PolkaAny)
    );
}

// Rounds are tallied separately: votes in round 1 do not help round 0.
#[test]
fn keeper_rounds_are_separate() {
    let v = Value::new(3);
    let mut keeper = VoteExecutor::new(1, 4);
    assert_eq!(keeper.apply(Vote::new_prevote(0, Some(v)), 2), None);
    assert_eq!(keeper.apply(Vote::new_prevote(1, Some(v)), 2), None);
    // One more in round 0 crosses two thirds there.
    assert_eq!(
        keeper.apply(Vote::new_prevote(0, Some(v)), 1),
        Some(Event::PolkaValue(v))
    );
}

// The round-skip signal: more than a third of the total weight observed in
// one round.
#[test]
fn keeper_skip_threshold() {
    let v = Value::new(4);
    let mut keeper = VoteExecutor::new(1, 4);
    assert!(!keeper.skip_threshold(5));
    keeper.apply(Vote::new_prevote(5, Some(v)), 1);
    assert!(!keeper.skip_threshold(5));
    keeper.apply(Vote::new_precommit(5, None), 1);
    assert!(keeper.skip_threshold(5));
    assert!(!keeper.skip_threshold(0));
}

// A precommit quorum for a value drives the executor straight to a
// decision, whatever step it was in, and the decision is handed back.
#[test]
fn executor_commits_on_precommit_quorum() {
    let v = Value::new(5);
    let mut ex = Executor::new(1, 1, 4);
    let vote = Vote::new_precommit(0, Some(v));
    assert_eq!(ex.apply(ExMessage::Vote(vote, 1)), vec![]);
    assert_eq!(ex.state.step, Step::NewRound);
    assert_eq!(ex.apply(ExMessage::Vote(vote, 1)), vec![]);
    assert_eq!(ex.state.step, Step::NewRound);
    let out = ex.apply(ExMessage::Vote(vote, 1));
    assert_eq!(out, vec![Message::Decision(RoundValue { round: 0, value: v })]);
    assert_eq!(ex.state.step, Step::Commit);
    assert_eq!(ex.state.round, 0);
}

// Observing more than a third of the voting power in a later round makes
// the executor skip forward; as the proposer of the new round it proposes
// its own value, prevotes it and counts that prevote.  The peers' weight
// sits on another value, so the mixed quorum only schedules the prevote
// timeout; every emitted message comes back in order.
#[test]
fn executor_round_skip_chain() {
    let v = Value::new(9);
    let own = Value::new(0);
    let mut ex = Executor::new(1, 1, 4);
    assert_eq!(ex.apply(ExMessage::Vote(Vote::new_prevote(5, Some(v)), 1)), vec![]);
    assert_eq!(ex.state.round, 0);
    let out = ex.apply(ExMessage::Vote(Vote::new_prevote(5, Some(v)), 1));
    assert_eq!(
        out,
        vec![
            Message::NewRound(5),
            Message::Proposal(Proposal { round: 5, value: own, pol_round: -1 }),
            Message::Prevote(Vote::new_prevote(5, Some(own))),
            Message::Timeout(Timeout { round: 5, step: TimeoutStep::Prevote }),
        ]
    );
    assert_eq!(ex.state.round, 5);
    assert_eq!(ex.state.step, Step::Prevote);
    assert_eq!(ex.state.locked, None);
    // Round 5 holds the two peer prevotes on v and our own on our value.
    assert_eq!(ex.votes.rounds.len(), 1);
    assert_eq!(ex.votes.rounds[0].round, 5);
    assert_eq!(
        ex.votes.rounds[0].prevotes.values,
        vec![
            ValueWeight { value: v, weight: 2 },
            ValueWeight { value: own, weight: 1 }
        ]
    );
    assert_eq!(ex.votes.rounds[0].prevotes.value_total, 3);
}

// A timeout for a step the machine is no longer in is dropped without a
// trace.
#[test]
fn executor_ignores_stale_timeout() {
    let mut ex = Executor::new(1, 1, 4);
    let out = ex.apply(ExMessage::Timeout(Timeout { round: 0, step: TimeoutStep::Prevote }));
    assert_eq!(out, vec![]);
    assert_eq!(ex.state.step, Step::NewRound);
    assert_eq!(ex.state.round, 0);
}

// A precommit timeout moves the executor to the next round even from the
// start; as proposer it proposes and prevotes its own value in round 1.
#[test]
fn executor_precommit_timeout_advances_round() {
    let own = Value::new(0);
    let mut ex = Executor::new(1, 1, 4);
    let out = ex.apply(ExMessage::Timeout(Timeout { round: 0, step: TimeoutStep::Precommit }));
    assert_eq!(
        out,
        vec![
            Message::NewRound(1),
            Message::Proposal(Proposal { round: 1, value: own, pol_round: -1 }),
            Message::Prevote(Vote::new_prevote(1, Some(own))),
        ]
    );
    assert_eq!(ex.state.round, 1);
    assert_eq!(ex.state.step, Step::Prevote);
    assert_eq!(ex.votes.rounds.len(), 1);
    assert_eq!(ex.votes.rounds[0].round, 1);
    assert_eq!(
        ex.votes.rounds[0].prevotes.values,
        vec![ValueWeight { value: own, weight: 1 }]
    );
}

// The host chooses what this validator proposes.
#[test]
fn executor_proposes_the_hosts_value() {
    let mine = Value::new(77);
    let mut ex = Executor::new(1, 1, 4);
    ex.proposal_value = mine;
    let out = ex.apply(ExMessage::Timeout(Timeout { round: 0, step: TimeoutStep::Precommit }));
    assert_eq!(
        out,
        vec![
            Message::NewRound(1),
            Message::Proposal(Proposal { round: 1, value: mine, pol_round: -1 }),
            Message::Prevote(Vote::new_prevote(1, Some(mine))),
        ]
    );
}

// A proposal arriving while the machine is not waiting in Propose is
// ignored: no state change, no output.
#[test]
fn executor_ignores_early_proposal() {
    let v = Value::new(8);
    let mut ex = Executor::new(1, 1, 4);
    let out = ex.apply(ExMessage::Proposal(Proposal { round: 0, value: v, pol_round: -1 }));
    assert_eq!(out, vec![]);
    assert_eq!(ex.state.step, Step::NewRound);
    assert_eq!(ex.state.round, 0);
    assert_eq!(ex.votes.rounds.len(), 0);
}

// The thin driver, one transition at a time: three unit precommits for one
// value reach the quorum and the third returns the decision.
#[test]
fn consensus_executor_decides() {
    let v = Value::new(6);
    let mut ce = ConsensusExecutor::new(1, 4);
    let vote = Vote::new_precommit(0, Some(v));
    assert_eq!(ce.apply_msg(CeMessage::Vote(vote)), None);
    assert_eq!(ce.apply_msg(CeMessage::Vote(vote)), None);
    assert_eq!(
        ce.apply_msg(CeMessage::Vote(vote)),
        Some(Message::Decision(RoundValue { round: 0, value: v }))
    );
    assert_eq!(ce.state.step, Step::Commit);
}

// execute() runs the chain and hands every emitted message back; here the
// third precommit decides the height.
#[test]
fn consensus_executor_execute_decides() {
    let v = Value::new(6);
    let mut ce = ConsensusExecutor::new(1, 4);
    let vote = Vote::new_precommit(0, Some(v));
    assert_eq!(ce.execute(CeMessage::Vote(vote)), vec![]);
    assert_eq!(ce.execute(CeMessage::Vote(vote)), vec![]);
    let out = ce.execute(CeMessage::Vote(vote));
    assert_eq!(out, vec![Message::Decision(RoundValue { round: 0, value: v })]);
    assert_eq!(ce.state.step, Step::Commit);
}

// A precommit timeout makes the thin driver skip to the next round; the
// new-round announcement is surfaced for the host's proposer selection.
#[test]
fn consensus_executor_surfaces_new_round() {
    let mut ce = ConsensusExecutor::new(1, 4);
    let out = ce.execute(CeMessage::Timeout(Timeout { round: 0, step: TimeoutStep::Precommit }));
    assert_eq!(out, vec![Message::NewRound(1)]);
    assert_eq!(ce.state.round, 1);
    assert_eq!(ce.state.step, Step::NewRound);
}

// A timeout that matches no transition leaves the thin driver untouched.
#[test]
fn consensus_executor_ignores_stale_timeout() {
    let mut ce = ConsensusExecutor::new(1, 4);
    let out = ce.apply_msg(CeMessage::Timeout(Timeout { round: 0, step: TimeoutStep::Propose }));
    assert_eq!(out, None);
    assert_eq!(ce.state.step, Step::NewRound);
    let chained = ce.execute(CeMessage::Timeout(Timeout { round: 0, step: TimeoutStep::Prevote }));
    assert_eq!(chained, vec![]);
    assert_eq!(ce.state.step, Step::NewRound);
}
