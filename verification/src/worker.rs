//! Inference worker: the single-threaded consumer that owns the
//! conversation store and serializes one generation at a time.
//!
//! Per session it steps `Idle -> Generating -> Idle`, with a terminal
//! `Closed` state. User messages queue FIFO in a bounded input queue and
//! are taken up one at a time; fragments of the turn in flight grow the
//! newest assistant turn, in order.

use vstd::prelude::*;
use vstd::string::StringExecFns;
use crate::conversation::{
    Conversation, Message, Role, TurnView, open_assistant_turn, seed_turns, user_turn,
};

verus! {

/// How many user messages may wait in the input queue.
pub const INPUT_CAPACITY: usize = 100;

/// The worker's state machine.
#[derive(Clone, Copy, PartialEq, Eq, Structural, Debug)]
pub enum Phase {
    Idle,
    Generating,
    Closed,
}

/// A turn-level generation failure. Both kinds leave the session usable.
#[derive(Clone, Copy, PartialEq, Eq, Structural, Debug)]
pub enum TurnError {
    /// Generation could not start at all.
    BackendUnavailable,
    /// Generation failed after zero or more fragments were yielded.
    StreamInterrupted,
}

/// The text of the in-band notice shown to the user for a failed turn.
pub open spec fn notice_view(err: TurnError) -> Seq<char> {
    match err {
        TurnError::BackendUnavailable => "[error: the assistant backend is unavailable]"@,
        TurnError::StreamInterrupted => "[error: the response was interrupted]"@,
    }
}

/// Builds the in-band notice for a failed turn.
pub fn notice_text(err: TurnError) -> (r: String)
    ensures
        r@ == notice_view(err),
{
    match err {
        TurnError::BackendUnavailable => {
            String::from_str("[error: the assistant backend is unavailable]")
        },
        TurnError::StreamInterrupted => {
            String::from_str("[error: the response was interrupted]")
        },
    }
}

/// The abstract value of the worker: its phase, the turns of its store,
/// and the queued user messages, oldest first.
#[verifier::ext_equal]
pub ghost struct WorkerView {
    pub phase: Phase,
    pub turns: Seq<TurnView>,
    pub pending: Seq<Seq<char>>,
}

/// The worker: phase, owned store, input queue, and the identifier of the
/// assistant turn being generated (meaningful only while `Generating`).
pub struct Worker {
    pub phase: Phase,
    pub store: Conversation,
    pub pending: Vec<String>,
    pub active: u128,
}

impl View for Worker {
    type V = WorkerView;

    open spec fn view(&self) -> WorkerView {
        WorkerView {
            phase: self.phase,
            turns: self.store@,
            pending: self.pending@.map_values(|s: String| s@),
        }
    }
}

impl Worker {
    /// Validity of the worker. The store is seeded (its first turn is the
    /// system persona); while generating, the newest turn is the assistant
    /// turn in flight; a closed worker holds no pending input.
    pub open spec fn inv(&self) -> bool {
        &&& self@.turns.len() >= 1
        &&& self@.turns[0].role == Role::System
        &&& self@.pending.len() <= INPUT_CAPACITY
        &&& self.phase == Phase::Generating ==> self.store.can_extend(self.active)
        &&& self.phase == Phase::Closed ==> self@.pending.len() == 0
    }

    /// A fresh worker around a store seeded with the persona: one system
    /// turn followed by a canned greeting exchange for tone-setting.
    pub fn new(persona: String) -> (w: Worker)
        ensures
            w.inv(),
            w@.phase == Phase::Idle,
            w@.pending =~= Seq::<Seq<char>>::empty(),
            w@.turns =~= seed_turns(persona@),
    {
        Worker {
            phase: Phase::Idle,
            store: Conversation::seed(persona),
            pending: Vec::new(),
            active: 0,
        }
    }

    /// Queues one user message FIFO. A full queue rejects the message so
    /// that the caller can suspend and retry (backpressure, never silent
    /// loss); a closed worker drops its input.
    pub fn enqueue_user(&mut self, msg: String) -> (accepted: bool)
        requires
            old(self).inv(),
        ensures
            final(self).inv(),
            (old(self).phase == Phase::Closed || old(self)@.pending.len() >= INPUT_CAPACITY)
                ==> (*final(self) == *old(self) && !accepted),
            (old(self).phase != Phase::Closed && old(self)@.pending.len() < INPUT_CAPACITY)
                ==> {
                    &&& accepted
                    &&& final(self)@ =~= (WorkerView {
                        pending: old(self)@.pending.push(msg@),
                        ..old(self)@
                    })
                    &&& final(self).phase == old(self).phase
                    &&& final(self).store == old(self).store
                    &&& final(self).active == old(self).active
                },
    {
        if matches!(self.phase, Phase::Closed) {
            return false;
        }
        if self.pending.len() >= INPUT_CAPACITY {
            return false;
        }
        self.pending.push(msg);
        proof {
            assert(final(self)@.pending =~= old(self)@.pending.push(msg@));
        }
        true
    }

    /// Takes up the oldest queued user message: appends it as a user turn,
    /// opens an empty assistant turn, and moves to `Generating`. The
    /// returned history is the snapshot to hand to generation — it ends
    /// with the just-appended user turn.
    ///
    /// Does nothing unless the worker is idle with input waiting: a
    /// message that arrives mid-generation stays queued until the current
    /// turn is over.
    pub fn begin_turn(&mut self) -> (req: Option<Vec<Message>>)
        requires
            old(self).inv(),
        ensures
            final(self).inv(),
            (old(self).phase != Phase::Idle || old(self)@.pending.len() == 0) ==> {
                &&& *final(self) == *old(self)
                &&& req is None
            },
            (old(self).phase == Phase::Idle && old(self)@.pending.len() > 0) ==> {
                &&& final(self)@ =~= (WorkerView {
                    phase: Phase::Generating,
                    turns: old(self)@.turns
                        .push(user_turn(old(self)@.pending[0]))
                        .push(open_assistant_turn()),
                    pending: old(self)@.pending.drop_first(),
                })
                &&& req matches Some(h)
                    && h@.map_values(|m: Message| m@)
                        =~= old(self)@.turns.push(user_turn(old(self)@.pending[0]))
            },
    {
        if !matches!(self.phase, Phase::Idle) || self.pending.len() == 0 {
            return None;
        }
        let msg = self.pending.remove(0);
        self.store.append(Role::User, msg);
        let history = self.store.snapshot();
        let active = self.store.append(Role::Assistant, String::new());
        self.active = active;
        self.phase = Phase::Generating;
        proof {
            assert(final(self)@.pending =~= old(self)@.pending.drop_first());
            assert(final(self)@.turns =~= old(self)@.turns
                .push(user_turn(old(self)@.pending[0]))
                .push(open_assistant_turn()));
            assert(history@.map_values(|m: Message| m@)
                =~= old(self)@.turns.push(user_turn(old(self)@.pending[0])));
        }
        Some(history)
    }

    /// Grows the assistant turn in flight by one fragment, in order.
    pub fn accept_fragment(&mut self, frag: &str)
        requires
            old(self).inv(),
            old(self).phase == Phase::Generating,
        ensures
            final(self).inv(),
            final(self)@ =~= (WorkerView {
                turns: old(self)@.turns.update(
                    old(self)@.turns.len() - 1,
                    TurnView {
                        role: Role::Assistant,
                        content: old(self)@.turns.last().content + frag@,
                    },
                ),
                ..old(self)@
            }),
            final(self).phase == Phase::Generating,
            final(self).active == old(self).active,
    {
        let r = self.store.extend(self.active, frag);
        proof {
            assert(r is Ok);
            let n = final(self).store.messages@.len();
            assert(final(self).store@[n - 1] == final(self).store.messages@[n - 1]@);
            assert(final(self).store.messages@.last().role == Role::Assistant);
            assert(final(self)@.turns[0] == old(self)@.turns[0]);
        }
    }

    /// Ends the turn in flight normally: the assistant turn's content is
    /// complete and immutable from here on, and the worker is idle again.
    pub fn finish_turn(&mut self)
        requires
            old(self).inv(),
            old(self).phase == Phase::Generating,
        ensures
            final(self).inv(),
            final(self)@ =~= (WorkerView { phase: Phase::Idle, ..old(self)@ }),
            final(self).store == old(self).store,
    {
        self.phase = Phase::Idle;
    }

    /// Ends the turn in flight on a generation failure. Whatever was
    /// already appended stays; the worker returns to `Idle`, so the
    /// session remains usable; the returned notice is to be shown to the
    /// user in band.
    pub fn fail_turn(&mut self, err: TurnError) -> (notice: String)
        requires
            old(self).inv(),
            old(self).phase == Phase::Generating,
        ensures
            final(self).inv(),
            final(self)@ =~= (WorkerView { phase: Phase::Idle, ..old(self)@ }),
            final(self).store == old(self).store,
            notice@ == notice_view(err),
    {
        self.phase = Phase::Idle;
        notice_text(err)
    }

    /// Moves to the terminal `Closed` state: pending input is dropped and
    /// the store is never mutated again.
    pub fn close(&mut self)
        requires
            old(self).inv(),
        ensures
            final(self).inv(),
            final(self)@ =~= (WorkerView {
                phase: Phase::Closed,
                turns: old(self)@.turns,
                pending: Seq::empty(),
            }),
            final(self).store == old(self).store,
    {
        self.phase = Phase::Closed;
        self.pending.clear();
        proof {
            assert(final(self)@.pending =~= Seq::<Seq<char>>::empty());
        }
    }
}

} // verus!
