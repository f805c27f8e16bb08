//! A driver without a value provider: it applies consensus messages
//! against the state machine and runs the re-injection chain -- a proposal
//! or vote the machine emits is re-entered as an input, with each vote
//! counted at unit weight -- until the machine goes quiet or produces
//! something only the host can act on.  New-round announcements are handed
//! back so the host can run its proposer selection; timeouts go to the
//! scheduler and the decision to the commit handler, all returned in
//! production order.

use vstd::prelude::*;

use crate::round_votes::RoundVotesModel;
use crate::state_machine::{next_spec, Event, Message as SmMessage, State, Timeout, TimeoutStep};
use crate::vote_executor::{keeper_after, keeper_thresh, to_event_spec, VoteExecutor};
use crate::{Proposal, Vote};

verus! {

/// A consensus message for this driver.  Votes carry no weight here: each
/// validator counts with weight one.
#[derive(Copy, Clone, Debug, PartialEq)]
pub enum Message {
    Proposal(Proposal),
    Vote(Vote),
    Timeout(Timeout),
}

/// The weight this driver counts every vote with.
pub open spec fn unit_weight() -> i64 {
    1
}

/// The event a timeout converts to.
pub open spec fn timeout_event(step: TimeoutStep) -> Event {
    match step {
        TimeoutStep::Propose => Event::TimeoutPropose,
        TimeoutStep::Prevote => Event::TimeoutPrevote,
        TimeoutStep::Precommit => Event::TimeoutPrecommit,
    }
}

/// What one `apply_msg` call does: the state and keeper afterwards, and the
/// message the state machine produced, if any.
pub open spec fn apply_msg_spec(
    st: State,
    rs: Seq<RoundVotesModel>,
    height: i64,
    total: i64,
    msg: Message,
) -> (State, Seq<RoundVotesModel>, Option<SmMessage>) {
    match msg {
        Message::Proposal(p) => {
            let (s2, m) = next_spec(st, p.round, Event::Proposal(p.pol_round, p.value));
            (s2, rs, m)
        },
        Message::Vote(v) => {
            let rs2 = keeper_after(rs, height, total, v, unit_weight());
            match to_event_spec(v.typ, keeper_thresh(rs, height, total, v, unit_weight())) {
                None => (st, rs2, None),
                Some(e) => {
                    let (s2, m) = next_spec(st, v.round, e);
                    (s2, rs2, m)
                },
            }
        },
        Message::Timeout(t) => {
            let (s2, m) = next_spec(st, t.round, timeout_event(t.step));
            (s2, rs, m)
        },
    }
}

/// One link of this driver's chain shrinks the executor's measure: every
/// message a transition emits either ends the chain or is followed by an
/// event that strictly advances the step.  The follow-up of an own vote is
/// whatever event its threshold translates to; all of those weigh one.
pub proof fn lemma_ce_chain_step(st: State, round: i64, event: Event)
    ensures
        0 <= crate::executor::chain_measure(st, event),
        ({
            let (s2, msg) = next_spec(st, round, event);
            &&& (msg matches Some(SmMessage::Proposal(p)) ==> crate::executor::chain_measure(
                s2,
                Event::Proposal(p.pol_round, p.value),
            ) < crate::executor::chain_measure(st, event))
            &&& (msg matches Some(SmMessage::Prevote(v)) ==> forall|t: crate::round_votes::Thresh|
                (#[trigger] to_event_spec(v.typ, t)) matches Some(e2)
                    ==> crate::executor::chain_measure(s2, e2) < crate::executor::chain_measure(
                    st,
                    event,
                ))
            &&& (msg matches Some(SmMessage::Precommit(v)) ==> forall|
                t: crate::round_votes::Thresh,
            |
                (#[trigger] to_event_spec(v.typ, t)) matches Some(e2)
                    ==> crate::executor::chain_measure(s2, e2) < crate::executor::chain_measure(
                    st,
                    event,
                ))
        }),
{
}

/// How a state-machine output is fed back into this driver: the keeper's
/// tallies after counting the own vote at unit weight, and the follow-up
/// round and event, if any.  A new-round announcement, a timeout or a
/// decision is for the host and ends the chain.
pub open spec fn ce_reinject_spec(
    rs: Seq<RoundVotesModel>,
    height: i64,
    total: i64,
    m: SmMessage,
) -> (Seq<RoundVotesModel>, Option<(i64, Event)>) {
    match m {
        SmMessage::Proposal(p) => (rs, Some((p.round, Event::Proposal(p.pol_round, p.value)))),
        SmMessage::Prevote(v) => (
            keeper_after(rs, height, total, v, unit_weight()),
            match to_event_spec(v.typ, keeper_thresh(rs, height, total, v, unit_weight())) {
                Some(e) => Some((v.round, e)),
                None => None,
            },
        ),
        SmMessage::Precommit(v) => (
            keeper_after(rs, height, total, v, unit_weight()),
            match to_event_spec(v.typ, keeper_thresh(rs, height, total, v, unit_weight())) {
                Some(e) => Some((v.round, e)),
                None => None,
            },
        ),
        _ => (rs, None),
    }
}

/// The state, the tallies and the emitted messages after this driver's
/// re-injection chain, started by one event, has run to quiescence.
/// Proposals and votes are re-entered; a new-round announcement, a timeout
/// or a decision ends the chain and stays in the message list for the
/// host.
pub open spec fn ce_drive_spec(
    st: State,
    rs: Seq<RoundVotesModel>,
    height: i64,
    total: i64,
    round: i64,
    event: Event,
) -> (State, Seq<RoundVotesModel>, Seq<SmMessage>)
    decreases crate::executor::chain_measure(st, event),
    via ce_drive_spec_dec
{
    let (s2, msg) = next_spec(st, round, event);
    match msg {
        None => (s2, rs, Seq::<SmMessage>::empty()),
        Some(m) => {
            let (rs2, nxt) = ce_reinject_spec(rs, height, total, m);
            match nxt {
                None => (s2, rs2, seq![m]),
                Some((r2, e2)) => {
                    let d = ce_drive_spec(s2, rs2, height, total, r2, e2);
                    (d.0, d.1, seq![m] + d.2)
                },
            }
        },
    }
}

#[via_fn]
proof fn ce_drive_spec_dec(
    st: State,
    rs: Seq<RoundVotesModel>,
    height: i64,
    total: i64,
    round: i64,
    event: Event,
) {
    lemma_ce_chain_step(st, round, event);
}

/// What one `execute` call does: translate the input, then run the chain.
pub open spec fn execute_spec(
    st: State,
    rs: Seq<RoundVotesModel>,
    height: i64,
    total: i64,
    msg: Message,
) -> (State, Seq<RoundVotesModel>, Seq<SmMessage>) {
    match msg {
        Message::Proposal(p) => ce_drive_spec(
            st,
            rs,
            height,
            total,
            p.round,
            Event::Proposal(p.pol_round, p.value),
        ),
        Message::Vote(v) => {
            let rs2 = keeper_after(rs, height, total, v, unit_weight());
            match to_event_spec(v.typ, keeper_thresh(rs, height, total, v, unit_weight())) {
                None => (st, rs2, Seq::<SmMessage>::empty()),
                Some(e) => ce_drive_spec(st, rs2, height, total, v.round, e),
            }
        },
        Message::Timeout(t) => ce_drive_spec(st, rs, height, total, t.round, timeout_event(t.step)),
    }
}

/// Applies consensus messages: one state-machine transition per
/// `apply_msg` call, or a whole chain per `execute` call.
#[derive(Debug)]
pub struct ConsensusExecutor {
    pub vote_executor: VoteExecutor,
    pub state: State,
}

impl ConsensusExecutor {
    pub open spec fn wf(self) -> bool {
        &&& self.state.wf()
        &&& self.vote_executor.wf()
    }

    pub fn new(height: i64, total_weight: i64) -> (c: ConsensusExecutor)
        requires
            0 <= total_weight,
        ensures
            c.state == State::init_spec(height),
            c.vote_executor.height == height,
            c.vote_executor.total == total_weight,
            c.vote_executor@ == Seq::<RoundVotesModel>::empty(),
            c.wf(),
    {
        ConsensusExecutor {
            vote_executor: VoteExecutor::new(height, total_weight),
            state: State::new(height),
        }
    }

    /// Execute the message in full: apply it, and re-enter every proposal
    /// or vote the machine emits until it goes quiet.  Returns all emitted
    /// messages in production order; the last one, if the chain did not
    /// simply end, is for the host: a new-round announcement for its
    /// proposer selection, a timeout for its scheduler, or the decision.
    pub fn execute(&mut self, msg: Message) -> (out: Vec<SmMessage>)
        requires
            old(self).wf(),
        ensures
            final(self).wf(),
            final(self).vote_executor.height == old(self).vote_executor.height,
            final(self).vote_executor.total == old(self).vote_executor.total,
            ({
                let d = execute_spec(
                    old(self).state,
                    old(self).vote_executor@,
                    old(self).vote_executor.height,
                    old(self).vote_executor.total,
                    msg,
                );
                final(self).state == d.0 && final(self).vote_executor@ == d.1 && out@ == d.2
            }),
    {
        match msg {
            Message::Proposal(p) => self.run_chain(p.round, Event::Proposal(p.pol_round, p.value)),
            Message::Vote(v) => {
                let weight: i64 = 1;
                match self.vote_executor.apply(v, weight) {
                    None => {
                        let out: Vec<SmMessage> = Vec::new();
                        proof {
                            assert(out@ =~= Seq::<SmMessage>::empty());
                        }
                        out
                    },
                    Some(e) => self.run_chain(v.round, e),
                }
            },
            Message::Timeout(t) => {
                let e = match t.step {
                    TimeoutStep::Propose => Event::TimeoutPropose,
                    TimeoutStep::Prevote => Event::TimeoutPrevote,
                    TimeoutStep::Precommit => Event::TimeoutPrecommit,
                };
                self.run_chain(t.round, e)
            },
        }
    }

    /// The re-injection loop: drive the machine on the event, re-enter
    /// every proposal or vote it emits at unit weight, and collect all
    /// emitted messages in order.
    #[verifier::loop_isolation(false)]
    #[verifier::rlimit(100)]
    fn run_chain(&mut self, round: i64, event: Event) -> (out: Vec<SmMessage>)
        requires
            old(self).wf(),
        ensures
            final(self).wf(),
            final(self).vote_executor.height == old(self).vote_executor.height,
            final(self).vote_executor.total == old(self).vote_executor.total,
            ({
                let d = ce_drive_spec(
                    old(self).state,
                    old(self).vote_executor@,
                    old(self).vote_executor.height,
                    old(self).vote_executor.total,
                    round,
                    event,
                );
                final(self).state == d.0 && final(self).vote_executor@ == d.1 && out@ == d.2
            }),
    {
        let ghost target = ce_drive_spec(
            old(self).state,
            old(self).vote_executor@,
            old(self).vote_executor.height,
            old(self).vote_executor.total,
            round,
            event,
        );
        let mut out: Vec<SmMessage> = Vec::new();
        let mut r = round;
        let mut e = event;
        proof {
            assert(out@ =~= Seq::<SmMessage>::empty());
        }
        loop
            invariant
                self.wf(),
                self.vote_executor.height == old(self).vote_executor.height,
                self.vote_executor.total == old(self).vote_executor.total,
                ({
                    let d = ce_drive_spec(
                        self.state,
                        self.vote_executor@,
                        self.vote_executor.height,
                        self.vote_executor.total,
                        r,
                        e,
                    );
                    target.0 == d.0 && target.1 == d.1 && target.2 == out@ + d.2
                }),
            decreases crate::executor::chain_measure(self.state, e),
        {
            let ghost pre_out = out@;
            proof {
                lemma_ce_chain_step(self.state, r, e);
            }
            let (s2, m) = self.state.apply(r, e);
            self.state = s2;
            match m {
                None => {
                    proof {
                        assert(pre_out + Seq::<SmMessage>::empty() =~= pre_out);
                    }
                    return out;
                },
                Some(mm) => {
                    out.push(mm);
                    proof {
                        assert(out@ =~= pre_out + seq![mm]);
                    }
                    match mm {
                        SmMessage::Proposal(p) => {
                            r = p.round;
                            e = Event::Proposal(p.pol_round, p.value);
                            proof {
                                let d2 = ce_drive_spec(
                                    self.state,
                                    self.vote_executor@,
                                    self.vote_executor.height,
                                    self.vote_executor.total,
                                    r,
                                    e,
                                );
                                assert(pre_out + (seq![mm] + d2.2) =~= out@ + d2.2);
                            }
                        },
                        SmMessage::Prevote(v) => {
                            let weight: i64 = 1;
                            match self.vote_executor.apply(v, weight) {
                                Some(e2) => {
                                    r = v.round;
                                    e = e2;
                                    proof {
                                        let d2 = ce_drive_spec(
                                            self.state,
                                            self.vote_executor@,
                                            self.vote_executor.height,
                                            self.vote_executor.total,
                                            r,
                                            e,
                                        );
                                        assert(pre_out + (seq![mm] + d2.2) =~= out@ + d2.2);
                                    }
                                },
                                None => {
                                    return out;
                                },
                            }
                        },
                        SmMessage::Precommit(v) => {
                            let weight: i64 = 1;
                            match self.vote_executor.apply(v, weight) {
                                Some(e2) => {
                                    r = v.round;
                                    e = e2;
                                    proof {
                                        let d2 = ce_drive_spec(
                                            self.state,
                                            self.vote_executor@,
                                            self.vote_executor.height,
                                            self.vote_executor.total,
                                            r,
                                            e,
                                        );
                                        assert(pre_out + (seq![mm] + d2.2) =~= out@ + d2.2);
                                    }
                                },
                                None => {
                                    return out;
                                },
                            }
                        },
                        SmMessage::NewRound(_) => {
                            return out;
                        },
                        SmMessage::Timeout(_) => {
                            return out;
                        },
                        SmMessage::Decision(_) => {
                            return out;
                        },
                    }
                },
            }
        }
    }

    /// Apply a single consensus message against the state: count a vote,
    /// translate a proposal or timeout, drive the state machine once, and
    /// return its output.
    pub fn apply_msg(&mut self, msg: Message) -> (m: Option<SmMessage>)
        requires
            old(self).wf(),
        ensures
            final(self).wf(),
            final(self).vote_executor.height == old(self).vote_executor.height,
            final(self).vote_executor.total == old(self).vote_executor.total,
            ({
                let (s2, rs2, m2) = apply_msg_spec(
                    old(self).state,
                    old(self).vote_executor@,
                    old(self).vote_executor.height,
                    old(self).vote_executor.total,
                    msg,
                );
                final(self).state == s2 && final(self).vote_executor@ == rs2 && m == m2
            }),
    {
        match msg {
            Message::Proposal(p) => {
                let event = Event::Proposal(p.pol_round, p.value);
                self.apply_event(p.round, event)
            },
            Message::Vote(v) => {
                let weight: i64 = 1;
                let event = match self.vote_executor.apply(v, weight) {
                    None => {
                        return None;
                    },
                    Some(event) => event,
                };
                self.apply_event(v.round, event)
            },
            Message::Timeout(t) => {
                let event = match t.step {
                    TimeoutStep::Propose => Event::TimeoutPropose,
                    TimeoutStep::Prevote => Event::TimeoutPrevote,
                    TimeoutStep::Precommit => Event::TimeoutPrecommit,
                };
                self.apply_event(t.round, event)
            },
        }
    }

    /// Drive the state machine one transition and keep the new state.
    fn apply_event(&mut self, round: i64, event: Event) -> (m: Option<SmMessage>)
        requires
            old(self).wf(),
        ensures
            final(self).wf(),
            final(self).vote_executor == old(self).vote_executor,
            final(self).state == next_spec(old(self).state, round, event).0,
            m == next_spec(old(self).state, round, event).1,
    {
        let (s, m) = self.state.apply(round, event);
        self.state = s;
        proof {
            crate::state_machine::lemma_next_preserves_wf(old(self).state, round, event);
        }
        m
    }
}

} // verus!
