//! The driver: owns the round state machine's state and the vote keeper,
//! translates validated consensus messages into state-machine events, and
//! re-injects the messages the machine produces -- a proposal or vote of our
//! own is also an input, counted with our own weight.  Every message the
//! machine emits along the way is handed back to the caller in production
//! order, so the host can broadcast proposals and votes, schedule timeouts
//! and learn of the decision.
//!
//! The whole effect of one `apply` call is the spec function chain
//! `process_spec` / `drive_spec`; the re-injection loop terminates because
//! every re-injected event either advances the step within the round or
//! follows the single round skip a chain can contain, which the measure
//! `chain_measure` makes precise.

use vstd::prelude::*;

use crate::round_votes::RoundVotesModel;
use crate::state_machine::{
    next_spec, step_rank, Event, Message as SmMessage, State, Timeout, TimeoutStep,
};
use crate::vote_executor::{
    keeper_after, keeper_thresh, round_weight, skip_quorum, to_event_spec, VoteExecutor,
};
use crate::{Value, Vote};

verus! {

/// A validated consensus message: the executor's input.  Proposals and
/// votes come from peers or from this validator's own outputs; timeouts
/// come from the external scheduler.
#[derive(Copy, Clone, Debug, PartialEq)]
pub enum Message {
    Proposal(crate::Proposal),
    /// A vote together with the voting power behind it.
    Vote(Vote, i64),
    Timeout(Timeout),
}

/// The event a counted vote triggers.  A precommit quorum for a value is
/// always delivered (commits are accepted from any round); otherwise, if
/// the vote's round lies ahead of the current one and now holds more than a
/// third of the voting power, the round-skip signal takes precedence over
/// an event the state machine would ignore as belonging to another round.
pub open spec fn vote_event_spec(
    rs: Seq<RoundVotesModel>,
    height: i64,
    total: i64,
    v: Vote,
    w: i64,
    cur_round: i64,
) -> Option<Event> {
    let e = to_event_spec(v.typ, keeper_thresh(rs, height, total, v, w));
    if e matches Some(Event::PrecommitValue(_)) {
        e
    } else if v.round > cur_round && skip_quorum(
        round_weight(keeper_after(rs, height, total, v, w), v.round),
        total as int,
    ) {
        Some(Event::RoundSkip)
    } else {
        e
    }
}

/// What `process_msg` does: the keeper's tallies afterwards, the round the
/// input speaks about, and the event it triggers, if any.
pub open spec fn process_spec(
    st: State,
    rs: Seq<RoundVotesModel>,
    height: i64,
    total: i64,
    msg: Message,
) -> (Seq<RoundVotesModel>, i64, Option<Event>) {
    match msg {
        Message::Proposal(p) => (rs, p.round, Some(Event::Proposal(p.pol_round, p.value))),
        Message::Vote(v, w) => (
            keeper_after(rs, height, total, v, w),
            v.round,
            vote_event_spec(rs, height, total, v, w, st.round),
        ),
        Message::Timeout(t) => (
            rs,
            t.round,
            Some(
                match t.step {
                    TimeoutStep::Propose => Event::TimeoutPropose,
                    TimeoutStep::Prevote => Event::TimeoutPrevote,
                    TimeoutStep::Precommit => Event::TimeoutPrecommit,
                },
            ),
        ),
    }
}

/// How a state-machine output is fed back in: the keeper's tallies after
/// counting our own vote, and the follow-up round and event, if any.
/// Timeouts and decisions only go to the host; a new-round announcement
/// comes back as the proposer event carrying `prop`, the value this
/// validator proposes.
pub open spec fn reinject_spec(
    s2: State,
    rs: Seq<RoundVotesModel>,
    height: i64,
    total: i64,
    own: i64,
    prop: Value,
    m: SmMessage,
) -> (Seq<RoundVotesModel>, Option<(i64, Event)>) {
    match m {
        SmMessage::NewRound(r) => (rs, Some((r, Event::NewRoundProposer(prop)))),
        SmMessage::Proposal(p) => (rs, Some((p.round, Event::Proposal(p.pol_round, p.value)))),
        SmMessage::Prevote(v) => (
            keeper_after(rs, height, total, v, own),
            match vote_event_spec(rs, height, total, v, own, s2.round) {
                Some(e) => Some((v.round, e)),
                None => None,
            },
        ),
        SmMessage::Precommit(v) => (
            keeper_after(rs, height, total, v, own),
            match vote_event_spec(rs, height, total, v, own, s2.round) {
                Some(e) => Some((v.round, e)),
                None => None,
            },
        ),
        SmMessage::Timeout(_) => (rs, None),
        SmMessage::Decision(_) => (rs, None),
    }
}

/// The two events that can move the round forward weigh more than the rest;
/// they appear at most once, at the head of a re-injection chain.
pub open spec fn event_weight(e: Event) -> int {
    match e {
        Event::TimeoutPrecommit => 6,
        Event::RoundSkip => 6,
        _ => 1,
    }
}

/// The termination measure of the re-injection chain: after the head event,
/// every re-injected event strictly advances the step within the round.
pub open spec fn chain_measure(s: State, e: Event) -> int {
    event_weight(e) + 4 - step_rank(s.step)
}

/// One link of the chain shrinks the measure: whatever message a transition
/// emits, the follow-up event (if any) scores strictly lower.
pub proof fn lemma_chain_step(
    s: State,
    rs: Seq<RoundVotesModel>,
    height: i64,
    total: i64,
    own: i64,
    prop: Value,
    round: i64,
    event: Event,
)
    ensures
        0 <= chain_measure(s, event),
        ({
            let (s2, msg) = next_spec(s, round, event);
            msg matches Some(m) ==> {
                let (rs2, nxt) = reinject_spec(s2, rs, height, total, own, prop, m);
                nxt matches Some((r2, e2)) ==> chain_measure(s2, e2) < chain_measure(s, event)
            }
        }),
{
}

/// The state, the tallies and the emitted messages, in production order,
/// after the whole re-injection chain started by one event has run to
/// quiescence.
pub open spec fn drive_spec(
    s: State,
    rs: Seq<RoundVotesModel>,
    height: i64,
    total: i64,
    own: i64,
    prop: Value,
    round: i64,
    event: Event,
) -> (State, Seq<RoundVotesModel>, Seq<SmMessage>)
    decreases chain_measure(s, event),
    via drive_spec_dec
{
    let (s2, msg) = next_spec(s, round, event);
    match msg {
        None => (s2, rs, Seq::<SmMessage>::empty()),
        Some(m) => {
            let (rs2, nxt) = reinject_spec(s2, rs, height, total, own, prop, m);
            match nxt {
                None => (s2, rs2, seq![m]),
                Some((r2, e2)) => {
                    let d = drive_spec(s2, rs2, height, total, own, prop, r2, e2);
                    (d.0, d.1, seq![m] + d.2)
                },
            }
        },
    }
}

#[via_fn]
proof fn drive_spec_dec(
    s: State,
    rs: Seq<RoundVotesModel>,
    height: i64,
    total: i64,
    own: i64,
    prop: Value,
    round: i64,
    event: Event,
) {
    lemma_chain_step(s, rs, height, total, own, prop, round, event);
}

/// The whole re-injection chain keeps the state invariant, never moves the
/// round backwards, and never drops a lock or a valid value nor moves
/// either to an earlier round: round and lock monotonicity lift from one
/// transition to everything one input sets in motion.
pub proof fn lemma_drive_monotone(
    s: State,
    rs: Seq<RoundVotesModel>,
    height: i64,
    total: i64,
    own: i64,
    prop: Value,
    round: i64,
    event: Event,
)
    requires
        s.wf(),
    ensures
        drive_spec(s, rs, height, total, own, prop, round, event).0.wf(),
        drive_spec(s, rs, height, total, own, prop, round, event).0.round >= s.round,
        s.locked is Some ==> drive_spec(s, rs, height, total, own, prop, round, event).0.locked
            is Some && drive_spec(
            s,
            rs,
            height,
            total,
            own,
            prop,
            round,
            event,
        ).0.locked.unwrap().round >= s.locked.unwrap().round,
        s.valid is Some ==> drive_spec(s, rs, height, total, own, prop, round, event).0.valid
            is Some && drive_spec(
            s,
            rs,
            height,
            total,
            own,
            prop,
            round,
            event,
        ).0.valid.unwrap().round >= s.valid.unwrap().round,
    decreases chain_measure(s, event),
{
    let (s2, msg) = next_spec(s, round, event);
    crate::state_machine::lemma_next_preserves_wf(s, round, event);
    crate::state_machine::lemma_round_monotone_step(s, round, event);
    crate::state_machine::lemma_lock_monotone_step(s, round, event);
    match msg {
        None => {},
        Some(m) => {
            let (rs2, nxt) = reinject_spec(s2, rs, height, total, own, prop, m);
            match nxt {
                None => {},
                Some((r2, e2)) => {
                    lemma_chain_step(s, rs, height, total, own, prop, round, event);
                    lemma_drive_monotone(s2, rs2, height, total, own, prop, r2, e2);
                },
            }
        },
    }
}

/// Executes validated consensus messages: the composition of the vote
/// keeper and the round state machine, with re-injection of our own
/// proposals and votes.
#[derive(Debug)]
pub struct Executor {
    pub state: State,
    pub votes: VoteExecutor,
    /// This validator's own voting power, counted when our votes are
    /// re-injected.
    pub our_weight: i64,
    /// The value this validator proposes when a new round makes it the
    /// proposer.  The host sets it; a production host would consult a
    /// block builder before each height.
    pub proposal_value: Value,
}

impl Executor {
    pub open spec fn wf(self) -> bool {
        &&& self.state.wf()
        &&& self.votes.wf()
        &&& 0 <= self.our_weight
    }

    pub fn new(height: i64, our_weight: i64, total_weight: i64) -> (e: Executor)
        requires
            0 <= our_weight,
            0 <= total_weight,
        ensures
            e.state == State::init_spec(height),
            e.votes.height == height,
            e.votes.total == total_weight,
            e.votes@ == Seq::<RoundVotesModel>::empty(),
            e.our_weight == our_weight,
            e.proposal_value == (Value { id: 0 }),
            e.wf(),
    {
        Executor {
            votes: VoteExecutor::new(height, total_weight),
            state: State::new(height),
            our_weight,
            proposal_value: Value::new(0),
        }
    }

    /// The value provider: what this validator proposes in round `_round`.
    fn get_proposal(&self, _round: i64) -> (v: Option<Value>)
        ensures
            v == Some(self.proposal_value),
    {
        Some(self.proposal_value)
    }

    /// Apply a message.  Proposals and votes received from peers and
    /// timeouts fired by the scheduler all enter here; if the message
    /// triggers an event, the whole re-injection chain runs to quiescence.
    /// Returns every message the state machine emitted, in production
    /// order: proposals and votes to broadcast (already counted here),
    /// timeouts to schedule, new-round announcements, and the decision.
    pub fn apply(&mut self, msg: Message) -> (out: Vec<SmMessage>)
        requires
            old(self).wf(),
            msg matches Message::Vote(_, w) ==> 0 <= w,
        ensures
            final(self).wf(),
            final(self).our_weight == old(self).our_weight,
            final(self).proposal_value == old(self).proposal_value,
            final(self).votes.height == old(self).votes.height,
            final(self).votes.total == old(self).votes.total,
            final(self).state.round >= old(self).state.round,
            ({
                let (rs1, round, oe) = process_spec(
                    old(self).state,
                    old(self).votes@,
                    old(self).votes.height,
                    old(self).votes.total,
                    msg,
                );
                match oe {
                    None => final(self).state == old(self).state && final(self).votes@ == rs1
                        && out@ == Seq::<SmMessage>::empty(),
                    Some(e) => ({
                        let d = drive_spec(
                            old(self).state,
                            rs1,
                            old(self).votes.height,
                            old(self).votes.total,
                            old(self).our_weight,
                            old(self).proposal_value,
                            round,
                            e,
                        );
                        final(self).state == d.0 && final(self).votes@ == d.1 && out@ == d.2
                    }),
                }
            }),
    {
        let (round, oe) = self.process_msg(msg);
        match oe {
            Some(event) => {
                let ghost s0 = self.state;
                let ghost rs1 = self.votes@;
                let out = self.apply_event(round, event);
                proof {
                    lemma_drive_monotone(
                        s0,
                        rs1,
                        old(self).votes.height,
                        old(self).votes.total,
                        old(self).our_weight,
                        old(self).proposal_value,
                        round,
                        event,
                    );
                }
                out
            },
            None => {
                let out: Vec<SmMessage> = Vec::new();
                proof {
                    assert(out@ =~= Seq::<SmMessage>::empty());
                }
                out
            },
        }
    }

    /// Translate one message: add a vote to the keeper and return the
    /// triggered event, pass a proposal through, convert a timeout.  The
    /// state itself is untouched.
    fn process_msg(&mut self, msg: Message) -> (r: (i64, Option<Event>))
        requires
            old(self).wf(),
            msg matches Message::Vote(_, w) ==> 0 <= w,
        ensures
            final(self).wf(),
            final(self).state == old(self).state,
            final(self).our_weight == old(self).our_weight,
            final(self).proposal_value == old(self).proposal_value,
            final(self).votes.height == old(self).votes.height,
            final(self).votes.total == old(self).votes.total,
            ({
                let (rs2, round, oe) = process_spec(
                    old(self).state,
                    old(self).votes@,
                    old(self).votes.height,
                    old(self).votes.total,
                    msg,
                );
                final(self).votes@ == rs2 && r.0 == round && r.1 == oe
            }),
    {
        match msg {
            Message::Proposal(p) => (p.round, Some(Event::Proposal(p.pol_round, p.value))),
            Message::Vote(v, weight) => {
                let e = self.votes.apply(v, weight);
                let event = match e {
                    Some(Event::PrecommitValue(val)) => Some(Event::PrecommitValue(val)),
                    _ => {
                        if v.round > self.state.round && self.votes.skip_threshold(v.round) {
                            Some(Event::RoundSkip)
                        } else {
                            e
                        }
                    },
                };
                (v.round, event)
            },
            Message::Timeout(t) => {
                let event = match t.step {
                    TimeoutStep::Propose => Event::TimeoutPropose,
                    TimeoutStep::Prevote => Event::TimeoutPrevote,
                    TimeoutStep::Precommit => Event::TimeoutPrecommit,
                };
                (t.round, Some(event))
            },
        }
    }

    /// Run the state machine on the event and keep feeding it its own
    /// outputs until it goes quiet or produces something only the host can
    /// consume, collecting every emitted message in order.
    #[verifier::loop_isolation(false)]
    #[verifier::rlimit(100)]
    fn apply_event(&mut self, round: i64, event: Event) -> (out: Vec<SmMessage>)
        requires
            old(self).wf(),
        ensures
            final(self).wf(),
            final(self).our_weight == old(self).our_weight,
            final(self).proposal_value == old(self).proposal_value,
            final(self).votes.height == old(self).votes.height,
            final(self).votes.total == old(self).votes.total,
            ({
                let d = drive_spec(
                    old(self).state,
                    old(self).votes@,
                    old(self).votes.height,
                    old(self).votes.total,
                    old(self).our_weight,
                    old(self).proposal_value,
                    round,
                    event,
                );
                final(self).state == d.0 && final(self).votes@ == d.1 && out@ == d.2
            }),
    {
        let ghost target = drive_spec(
            old(self).state,
            old(self).votes@,
            old(self).votes.height,
            old(self).votes.total,
            old(self).our_weight,
            old(self).proposal_value,
            round,
            event,
        );
        let mut out: Vec<SmMessage> = Vec::new();
        let mut r = round;
        let mut e = event;
        proof {
            assert(out@ =~= Seq::<SmMessage>::empty());
        }
        loop
            invariant
                self.wf(),
                self.our_weight == old(self).our_weight,
                self.proposal_value == old(self).proposal_value,
                self.votes.height == old(self).votes.height,
                self.votes.total == old(self).votes.total,
                ({
                    let d = drive_spec(
                        self.state,
                        self.votes@,
                        self.votes.height,
                        self.votes.total,
                        self.our_weight,
                        self.proposal_value,
                        r,
                        e,
                    );
                    target.0 == d.0 && target.1 == d.1 && target.2 == out@ + d.2
                }),
            decreases chain_measure(self.state, e),
        {
            let ghost pre_s = self.state;
            let ghost pre_rs = self.votes@;
            let ghost pre_out = out@;
            let ghost pre_r = r;
            let ghost pre_e = e;
            proof {
                lemma_chain_step(
                    pre_s,
                    pre_rs,
                    self.votes.height,
                    self.votes.total,
                    self.our_weight,
                    self.proposal_value,
                    pre_r,
                    pre_e,
                );
            }
            let (s2, msg) = self.state.apply(r, e);
            self.state = s2;
            match msg {
                None => {
                    proof {
                        assert(pre_out + Seq::<SmMessage>::empty() =~= pre_out);
                    }
                    return out;
                },
                Some(m) => {
                    out.push(m);
                    proof {
                        assert(out@ =~= pre_out + seq![m]);
                        assert(pre_out + seq![m] + Seq::<SmMessage>::empty() =~= pre_out
                            + seq![m]);
                    }
                    match m {
                        SmMessage::NewRound(nr) => {
                            match self.get_proposal(nr) {
                                Some(v) => {
                                    r = nr;
                                    e = Event::NewRoundProposer(v);
                                    proof {
                                        let d2 = drive_spec(
                                            self.state,
                                            self.votes@,
                                            self.votes.height,
                                            self.votes.total,
                                            self.our_weight,
                                            self.proposal_value,
                                            r,
                                            e,
                                        );
                                        assert(pre_out + (seq![m] + d2.2) =~= out@ + d2.2);
                                    }
                                },
                                None => {
                                    return out;
                                },
                            }
                        },
                        SmMessage::Proposal(p) => {
                            let (r2, oe) = self.process_msg(Message::Proposal(p));
                            match oe {
                                Some(e2) => {
                                    r = r2;
                                    e = e2;
                                    proof {
                                        let d2 = drive_spec(
                                            self.state,
                                            self.votes@,
                                            self.votes.height,
                                            self.votes.total,
                                            self.our_weight,
                                            self.proposal_value,
                                            r,
                                            e,
                                        );
                                        assert(pre_out + (seq![m] + d2.2) =~= out@ + d2.2);
                                    }
                                },
                                None => {
                                    return out;
                                },
                            }
                        },
                        SmMessage::Prevote(v) => {
                            let w = self.our_weight;
                            let (r2, oe) = self.process_msg(Message::Vote(v, w));
                            match oe {
                                Some(e2) => {
                                    r = r2;
                                    e = e2;
                                    proof {
                                        let d2 = drive_spec(
                                            self.state,
                                            self.votes@,
                                            self.votes.height,
                                            self.votes.total,
                                            self.our_weight,
                                            self.proposal_value,
                                            r,
                                            e,
                                        );
                                        assert(pre_out + (seq![m] + d2.2) =~= out@ + d2.2);
                                    }
                                },
                                None => {
                                    return out;
                                },
                            }
                        },
                        SmMessage::Precommit(v) => {
                            let w = self.our_weight;
                            let (r2, oe) = self.process_msg(Message::Vote(v, w));
                            match oe {
                                Some(e2) => {
                                    r = r2;
                                    e = e2;
                                    proof {
                                        let d2 = drive_spec(
                                            self.state,
                                            self.votes@,
                                            self.votes.height,
                                            self.votes.total,
                                            self.our_weight,
                                            self.proposal_value,
                                            r,
                                            e,
                                        );
                                        assert(pre_out + (seq![m] + d2.2) =~= out@ + d2.2);
                                    }
                                },
                                None => {
                                    return out;
                                },
                            }
                        },
                        SmMessage::Timeout(_) => {
                            return out;
                        },
                        SmMessage::Decision(_) => {
                            return out;
                        },
                    }
                },
            }
        }
    }
}

} // verus!
