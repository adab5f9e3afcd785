//! One session: the supervisor-level wiring of router, worker and
//! dispatcher for a single client connection.
//!
//! Every externally visible stimulus is one [`EventView`]; the ghost
//! transition function [`apply`] says exactly how a session reacts to each,
//! and every executable operation is proved to step the session's abstract
//! state by `apply`. The general ordering and teardown guarantees are
//! proved over `apply` in [`crate::laws`].

use vstd::prelude::*;
use crate::conversation::{
    fresh_id, Message, Role, TurnView, open_assistant_turn, seed_turns, user_turn,
};
use crate::dispatcher::Dispatcher;
use crate::frames::{InboundFrame, ItemView, OutboundFrame, OutboundItem, wire_view};
use crate::router::{classify, RouterAction};
use crate::worker::{notice_view, Phase, TurnError, Worker, INPUT_CAPACITY};

verus! {

/// One externally visible stimulus to a session.
#[verifier::ext_equal]
pub ghost enum EventView {
    /// A user text frame arrived.
    InboundText(Seq<char>),
    /// A ping frame arrived.
    InboundPing(Seq<u8>),
    /// The client closed the connection.
    InboundClose,
    /// A frame of a kind the relay does not consume arrived.
    InboundUnsupported,
    /// Undecodable inbound data arrived.
    InboundMalformed,
    /// The worker looks for its next queued user message.
    BeginTurn,
    /// Generation yielded one fragment.
    Fragment(Seq<char>),
    /// Generation reached its end marker.
    TurnComplete,
    /// Generation failed.
    TurnFailed(TurnError),
    /// The writer takes the oldest outbound item.
    TakeOutbound,
    /// A write to the connection succeeded.
    WriteOk,
    /// A write to the connection failed.
    WriteFailed,
    /// The supervisor tears the session down.
    Teardown,
}

impl View for InboundFrame {
    type V = EventView;

    open spec fn view(&self) -> EventView {
        match self {
            InboundFrame::Text(s) => EventView::InboundText(s@),
            InboundFrame::Ping(p) => EventView::InboundPing(p@),
            InboundFrame::Close => EventView::InboundClose,
            InboundFrame::Unsupported => EventView::InboundUnsupported,
            InboundFrame::Malformed => EventView::InboundMalformed,
        }
    }
}

/// The abstract state of a session.
#[verifier::ext_equal]
pub ghost struct SessionView {
    /// The liveness flag: false once the session is torn down.
    pub live: bool,
    /// The worker's phase.
    pub phase: Phase,
    /// The conversation store's turns, oldest first.
    pub turns: Seq<TurnView>,
    /// The queued user messages, oldest first.
    pub pending: Seq<Seq<char>>,
    /// The outbound queue, oldest first.
    pub outq: Seq<ItemView>,
    /// Whether the outbound dispatcher has stopped.
    pub stopped: bool,
}

/// The torn-down session: everything stopped, pending input dropped, the
/// store released unchanged.
pub open spec fn torn_down(v: SessionView) -> SessionView {
    SessionView {
        live: false,
        phase: Phase::Closed,
        pending: Seq::empty(),
        stopped: true,
        ..v
    }
}

/// Validity of an abstract session state: the store is seeded and its
/// first turn is the system persona; while generating, the newest turn is
/// the assistant turn in flight; the input queue respects its bound; and
/// liveness, phase and the dispatcher's stop flag agree.
pub open spec fn wf(v: SessionView) -> bool {
    &&& v.turns.len() >= 1
    &&& v.turns[0].role == Role::System
    &&& v.pending.len() <= INPUT_CAPACITY
    &&& v.phase == Phase::Generating ==> v.turns.last().role == Role::Assistant
    &&& (v.phase == Phase::Closed <==> !v.live)
    &&& (v.stopped <==> !v.live)
    &&& v.phase == Phase::Closed ==> v.pending.len() == 0
}

/// How a session reacts to one stimulus. A torn-down session reacts to
/// nothing.
pub open spec fn apply(v: SessionView, e: EventView) -> SessionView {
    if !v.live {
        v
    } else {
        match e {
            EventView::InboundText(s) => if v.pending.len() < INPUT_CAPACITY {
                SessionView { pending: v.pending.push(s), ..v }
            } else {
                v
            },
            EventView::InboundPing(p) => SessionView {
                outq: v.outq.push(ItemView::Pong(p)),
                ..v
            },
            EventView::InboundClose => torn_down(v),
            EventView::InboundUnsupported => torn_down(v),
            EventView::InboundMalformed => v,
            EventView::BeginTurn => if v.phase == Phase::Idle && v.pending.len() > 0 {
                SessionView {
                    phase: Phase::Generating,
                    turns: v.turns.push(user_turn(v.pending[0])).push(open_assistant_turn()),
                    pending: v.pending.drop_first(),
                    ..v
                }
            } else {
                v
            },
            EventView::Fragment(s) => if v.phase == Phase::Generating {
                SessionView {
                    turns: v.turns.update(
                        v.turns.len() - 1,
                        TurnView {
                            role: Role::Assistant,
                            content: v.turns.last().content + s,
                        },
                    ),
                    outq: v.outq.push(ItemView::Fragment(s)),
                    ..v
                }
            } else {
                v
            },
            EventView::TurnComplete => if v.phase == Phase::Generating {
                SessionView { phase: Phase::Idle, ..v }
            } else {
                v
            },
            EventView::TurnFailed(err) => if v.phase == Phase::Generating {
                SessionView {
                    phase: Phase::Idle,
                    outq: v.outq.push(ItemView::Notice(notice_view(err))),
                    ..v
                }
            } else {
                v
            },
            EventView::TakeOutbound => if v.outq.len() > 0 {
                SessionView { outq: v.outq.drop_first(), ..v }
            } else {
                v
            },
            EventView::WriteOk => v,
            EventView::WriteFailed => torn_down(v),
            EventView::Teardown => torn_down(v),
        }
    }
}

/// The abstract state of a freshly created session: live and idle, its
/// store seeded with the persona, nothing queued in either direction.
pub open spec fn fresh_session(persona: Seq<char>) -> SessionView {
    SessionView {
        live: true,
        phase: Phase::Idle,
        turns: seed_turns(persona),
        pending: Seq::empty(),
        outq: Seq::empty(),
        stopped: false,
    }
}

/// The concatenation of a sequence of fragments, in order.
pub open spec fn concat_frags(frags: Seq<Seq<char>>) -> Seq<char>
    decreases frags.len(),
{
    if frags.len() == 0 {
        Seq::empty()
    } else {
        concat_frags(frags.drop_last()) + frags.last()
    }
}

/// The outbound items one turn emits: its fragments in order, then an
/// in-band notice if generation failed.
pub open spec fn turn_emissions(frags: Seq<Seq<char>>, failure: Option<TurnError>) -> Seq<
    ItemView,
> {
    frags.map_values(|s: Seq<char>| ItemView::Fragment(s)) + match failure {
        Option::Some(e) => seq![ItemView::Notice(notice_view(e))],
        Option::None => Seq::empty(),
    }
}

/// Where one whole turn's worth of generation output takes a session that
/// is generating: the assistant turn in flight ends holding every fragment
/// in order, the turn's emissions are queued outbound in order, and the
/// worker is idle again.
pub open spec fn run_turn_model(
    v: SessionView,
    frags: Seq<Seq<char>>,
    failure: Option<TurnError>,
) -> SessionView {
    SessionView {
        phase: Phase::Idle,
        turns: v.turns.update(
            v.turns.len() - 1,
            TurnView {
                role: Role::Assistant,
                content: v.turns.last().content + concat_frags(frags),
            },
        ),
        outq: v.outq + turn_emissions(frags, failure),
        ..v
    }
}

/// What became of one inbound frame.
#[derive(Clone, Copy, PartialEq, Eq, Structural, Debug)]
pub enum Disposition {
    /// The text went into the worker's input queue.
    Queued,
    /// The input queue is full: suspend the read loop and retry.
    WouldBlock,
    /// A pong reply went into the outbound queue.
    PongQueued,
    /// The frame ended the session.
    Terminated,
    /// The frame was dropped.
    Ignored,
}

/// The full per-connection state: an identifier, the liveness flag, and
/// the worker and dispatcher wired back to back.
pub struct Session {
    pub id: u128,
    pub live: bool,
    pub worker: Worker,
    pub dispatcher: Dispatcher,
}

impl View for Session {
    type V = SessionView;

    open spec fn view(&self) -> SessionView {
        SessionView {
            live: self.live,
            phase: self.worker@.phase,
            turns: self.worker@.turns,
            pending: self.worker@.pending,
            outq: self.dispatcher@.items,
            stopped: self.dispatcher@.stopped,
        }
    }
}

impl Session {
    /// Validity of the session: the worker is valid, and the liveness
    /// flag, the worker's phase and the dispatcher's stop flag agree.
    pub open spec fn inv(&self) -> bool {
        &&& self.worker.inv()
        &&& (self.worker.phase == Phase::Closed <==> !self.live)
        &&& (self.dispatcher@.stopped <==> !self.live)
    }

    /// A valid session is abstractly well-formed.
    pub proof fn lemma_inv_wf(&self)
        requires
            self.inv(),
        ensures
            wf(self@),
    {
        if self.worker.phase == Phase::Generating {
            let n = self.worker.store.messages@.len();
            assert(self@.turns[n - 1] == self.worker.store.messages@[n - 1]@);
        }
    }

    /// A fresh live session for one accepted connection, its store seeded
    /// with the supplied persona.
    pub fn new(persona: String) -> (s: Session)
        ensures
            s.inv(),
            s@ =~= fresh_session(persona@),
    {
        Session {
            id: fresh_id(),
            live: true,
            worker: Worker::new(persona),
            dispatcher: Dispatcher::new(),
        }
    }

    /// Stops all components: the worker closes and drops its pending
    /// input, the dispatcher stops, the store is released unchanged.
    fn halt_components(&mut self)
        requires
            old(self).inv(),
        ensures
            final(self).inv(),
            final(self)@ =~= torn_down(old(self)@),
            final(self).id == old(self).id,
    {
        self.live = false;
        self.worker.close();
        self.dispatcher.stop();
    }

    /// Routes one inbound frame: a ping is answered through the outbound
    /// queue and never reaches the worker; a text frame goes to the
    /// worker's input queue and never triggers a reply; a close or an
    /// unsupported frame tears the session down; malformed data is
    /// dropped.
    pub fn on_inbound(&mut self, frame: InboundFrame) -> (d: Disposition)
        requires
            old(self).inv(),
        ensures
            final(self).inv(),
            final(self)@ == apply(old(self)@, frame@),
            final(self).id == old(self).id,
            !old(self).live ==> d == Disposition::Ignored,
            old(self).live ==> match frame {
                InboundFrame::Text(_) => if old(self)@.pending.len() < INPUT_CAPACITY {
                    d == Disposition::Queued
                } else {
                    d == Disposition::WouldBlock
                },
                InboundFrame::Ping(_) => d == Disposition::PongQueued,
                InboundFrame::Close => d == Disposition::Terminated,
                InboundFrame::Unsupported => d == Disposition::Terminated,
                InboundFrame::Malformed => d == Disposition::Ignored,
            },
    {
        if !self.live {
            proof {
                assert(final(self)@ =~= apply(old(self)@, frame@));
            }
            return Disposition::Ignored;
        }
        match classify(frame) {
            RouterAction::Reply(p) => {
                self.dispatcher.enqueue(OutboundItem::Pong(p));
                proof {
                    assert(final(self)@ =~= apply(old(self)@, frame@));
                }
                Disposition::PongQueued
            },
            RouterAction::Deliver(s) => {
                let accepted = self.worker.enqueue_user(s);
                proof {
                    assert(final(self)@ =~= apply(old(self)@, frame@));
                }
                if accepted {
                    Disposition::Queued
                } else {
                    Disposition::WouldBlock
                }
            },
            RouterAction::Shutdown => {
                self.halt_components();
                proof {
                    assert(final(self)@ =~= apply(old(self)@, frame@));
                }
                Disposition::Terminated
            },
            RouterAction::Ignore => {
                proof {
                    assert(final(self)@ =~= apply(old(self)@, frame@));
                }
                Disposition::Ignored
            },
        }
    }

    /// Takes up the oldest queued user message, if the worker is idle and
    /// one is waiting. The returned history — the conversation up to and
    /// including the new user turn — is what the caller hands to
    /// generation.
    pub fn begin_turn(&mut self) -> (req: Option<Vec<Message>>)
        requires
            old(self).inv(),
        ensures
            final(self).inv(),
            final(self)@ == apply(old(self)@, EventView::BeginTurn),
            final(self).id == old(self).id,
            req is Some <==> (old(self).live && old(self)@.phase == Phase::Idle
                && old(self)@.pending.len() > 0),
            req matches Some(h) ==> h@.map_values(|m: Message| m@)
                == old(self)@.turns.push(user_turn(old(self)@.pending[0])),
    {
        if !self.live {
            proof {
                assert(final(self)@ =~= apply(old(self)@, EventView::BeginTurn));
            }
            return None;
        }
        let req = self.worker.begin_turn();
        proof {
            assert(final(self)@ =~= apply(old(self)@, EventView::BeginTurn));
        }
        req
    }

    /// Accepts one generated fragment of the turn in flight: the assistant
    /// turn grows by it and a copy is queued outbound, in order.
    pub fn on_fragment(&mut self, frag: String)
        requires
            old(self).inv(),
        ensures
            final(self).inv(),
            final(self)@ == apply(old(self)@, EventView::Fragment(frag@)),
            final(self).id == old(self).id,
    {
        if self.live && matches!(self.worker.phase, Phase::Generating) {
            self.worker.accept_fragment(frag.as_str());
            self.dispatcher.enqueue(OutboundItem::Fragment(frag));
            proof {
                assert(final(self)@ =~= apply(old(self)@, EventView::Fragment(frag@)));
            }
        } else {
            proof {
                assert(final(self)@ =~= apply(old(self)@, EventView::Fragment(frag@)));
            }
        }
    }

    /// Ends the turn in flight normally: back to idle, ready for the next
    /// queued message.
    pub fn on_turn_complete(&mut self)
        requires
            old(self).inv(),
        ensures
            final(self).inv(),
            final(self)@ == apply(old(self)@, EventView::TurnComplete),
            final(self).id == old(self).id,
    {
        if self.live && matches!(self.worker.phase, Phase::Generating) {
            self.worker.finish_turn();
        }
        proof {
            assert(final(self)@ =~= apply(old(self)@, EventView::TurnComplete));
        }
    }

    /// Recovers from a turn-level generation failure: fragments already
    /// delivered stay, an in-band notice is queued outbound, and the
    /// session stays usable for the next message.
    pub fn on_turn_failed(&mut self, err: TurnError)
        requires
            old(self).inv(),
        ensures
            final(self).inv(),
            final(self)@ == apply(old(self)@, EventView::TurnFailed(err)),
            final(self).id == old(self).id,
    {
        if self.live && matches!(self.worker.phase, Phase::Generating) {
            let notice = self.worker.fail_turn(err);
            self.dispatcher.enqueue(OutboundItem::Notice(notice));
        }
        proof {
            assert(final(self)@ =~= apply(old(self)@, EventView::TurnFailed(err)));
        }
    }

    /// Takes the oldest outbound item as a wire frame, strictly FIFO.
    pub fn next_outbound(&mut self) -> (r: Option<OutboundFrame>)
        requires
            old(self).inv(),
        ensures
            final(self).inv(),
            final(self)@ == apply(old(self)@, EventView::TakeOutbound),
            final(self).id == old(self).id,
            (old(self).live && old(self)@.outq.len() > 0) ==> (r matches Some(f)
                && f@ == wire_view(old(self)@.outq[0])),
            !(old(self).live && old(self)@.outq.len() > 0) ==> r is None,
    {
        if !self.live {
            proof {
                assert(final(self)@ =~= apply(old(self)@, EventView::TakeOutbound));
            }
            return None;
        }
        let r = self.dispatcher.next_frame();
        proof {
            assert(final(self)@ =~= apply(old(self)@, EventView::TakeOutbound));
        }
        r
    }

    /// Reports the outcome of one connection write. A failed write is
    /// terminal for the whole session.
    pub fn on_write_result(&mut self, ok: bool)
        requires
            old(self).inv(),
        ensures
            final(self).inv(),
            final(self)@ == apply(
                old(self)@,
                if ok { EventView::WriteOk } else { EventView::WriteFailed },
            ),
            final(self).id == old(self).id,
    {
        if !ok && self.live {
            self.halt_components();
        }
        proof {
            if ok {
                assert(final(self)@ =~= apply(old(self)@, EventView::WriteOk));
            } else {
                assert(final(self)@ =~= apply(old(self)@, EventView::WriteFailed));
            }
        }
    }

    /// Drives one whole turn already in flight: feeds every fragment in
    /// order, then ends the turn as completed or failed.
    ///
    /// On completion after fragments `f1 .. fn`, the assistant turn's
    /// content is their concatenation and exactly `n` fragment items were
    /// queued outbound in that order; on failure, the fragments already
    /// accepted stay, one in-band notice follows them, and the session is
    /// idle again, ready for further user messages.
    pub fn run_turn(&mut self, fragments: &Vec<String>, failure: Option<TurnError>)
        requires
            old(self).inv(),
            old(self).live,
            old(self)@.phase == Phase::Generating,
        ensures
            final(self).inv(),
            final(self)@ == run_turn_model(
                old(self)@,
                fragments@.map_values(|s: String| s@),
                failure,
            ),
            final(self).id == old(self).id,
    {
        let ghost frags = fragments@.map_values(|s: String| s@);
        proof {
            old(self).lemma_inv_wf();
            assert(concat_frags(frags.take(0)) =~= Seq::<char>::empty());
            assert(old(self)@.turns.last().content + Seq::<char>::empty()
                =~= old(self)@.turns.last().content);
            assert(old(self)@.turns.update(
                old(self)@.turns.len() - 1,
                old(self)@.turns.last(),
            ) =~= old(self)@.turns);
            assert(frags.take(0).map_values(|s: Seq<char>| ItemView::Fragment(s))
                =~= Seq::<ItemView>::empty());
            assert(old(self)@.outq + Seq::<ItemView>::empty() =~= old(self)@.outq);
        }
        let n = fragments.len();
        for i in 0..n
            invariant
                self.inv(),
                self.live,
                self@.phase == Phase::Generating,
                n == fragments@.len(),
                frags == fragments@.map_values(|s: String| s@),
                self.id == old(self).id,
                old(self)@.turns.len() >= 1,
                self@ =~~= (SessionView {
                    turns: old(self)@.turns.update(
                        old(self)@.turns.len() - 1,
                        TurnView {
                            role: Role::Assistant,
                            content: old(self)@.turns.last().content
                                + concat_frags(frags.take(i as int)),
                        },
                    ),
                    outq: old(self)@.outq + frags.take(i as int).map_values(
                        |s: Seq<char>| ItemView::Fragment(s),
                    ),
                    ..old(self)@
                }),
        {
            let frag = fragments[i].clone();
            let ghost prev = self@;
            self.on_fragment(frag);
            proof {
                let j = i as int;
                assert(frag@ == frags[j]);
                assert(self@ == apply(prev, EventView::Fragment(frags[j])));
                assert(prev.turns.len() == old(self)@.turns.len());
                assert(prev.turns.last() == TurnView {
                    role: Role::Assistant,
                    content: old(self)@.turns.last().content + concat_frags(frags.take(j)),
                });
                assert(frags.take(j + 1).drop_last() =~= frags.take(j));
                assert(frags.take(j + 1).last() == frags[j]);
                assert(concat_frags(frags.take(j + 1))
                    == concat_frags(frags.take(j)) + frags[j]);
                assert(frags.take(j + 1).map_values(|s: Seq<char>| ItemView::Fragment(s))
                    =~= frags.take(j).map_values(
                        |s: Seq<char>| ItemView::Fragment(s),
                    ).push(ItemView::Fragment(frags[j])));
                assert(self@ =~~= (SessionView {
                    turns: old(self)@.turns.update(
                        old(self)@.turns.len() - 1,
                        TurnView {
                            role: Role::Assistant,
                            content: old(self)@.turns.last().content
                                + concat_frags(frags.take(j + 1)),
                        },
                    ),
                    outq: old(self)@.outq + frags.take(j + 1).map_values(
                        |s: Seq<char>| ItemView::Fragment(s),
                    ),
                    ..old(self)@
                }));
            }
        }
        proof {
            assert(frags.take(n as int) =~= frags);
        }
        match failure {
            Option::None => {
                self.on_turn_complete();
            },
            Option::Some(err) => {
                self.on_turn_failed(err);
            },
        }
        proof {
            assert(final(self)@ =~~= run_turn_model(old(self)@, frags, failure));
        }
    }

    /// Tears the session down: all three components reach their stopped
    /// state and the store is released, never mutated again.
    pub fn teardown(&mut self)
        requires
            old(self).inv(),
        ensures
            final(self).inv(),
            final(self)@ == apply(old(self)@, EventView::Teardown),
            final(self).id == old(self).id,
    {
        if self.live {
            self.halt_components();
        }
        proof {
            assert(final(self)@ =~= apply(old(self)@, EventView::Teardown));
        }
    }
}

} // verus!
