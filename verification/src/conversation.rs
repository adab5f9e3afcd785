//! The conversation store: an in-memory ordered log of turns for one
//! session, owned exclusively by the session's worker.

use vstd::prelude::*;
use vstd::string::StringExecFns;

verus! {

/// Who produced a turn.
#[derive(Clone, Copy, PartialEq, Eq, Structural, Debug)]
pub enum Role {
    System,
    User,
    Assistant,
}

/// The abstract value of a turn: its role and its text. Identifiers and
/// timestamps are carried alongside but play no part in the relay's logic.
#[verifier::ext_equal]
pub ghost struct TurnView {
    pub role: Role,
    pub content: Seq<char>,
}

/// A user turn view with the given content.
pub open spec fn user_turn(content: Seq<char>) -> TurnView {
    TurnView { role: Role::User, content }
}

/// A freshly opened assistant turn, before any fragment arrived.
pub open spec fn open_assistant_turn() -> TurnView {
    TurnView { role: Role::Assistant, content: Seq::empty() }
}

/// The turns of a freshly seeded store: the persona as the first system
/// turn, then a canned greeting exchange for tone-setting.
pub open spec fn seed_turns(persona: Seq<char>) -> Seq<TurnView> {
    seq![
        TurnView { role: Role::System, content: persona },
        user_turn("Hello there?"@),
        TurnView { role: Role::Assistant, content: "Hello - How may I help you today?"@ },
    ]
}

/// One message unit in a conversation, attributed to system, user or
/// assistant.
pub struct Message {
    pub id: u128,
    pub role: Role,
    pub content: String,
    pub timestamp: i64,
}

impl View for Message {
    type V = TurnView;

    open spec fn view(&self) -> TurnView {
        TurnView { role: self.role, content: self.content@ }
    }
}

impl Clone for Message {
    fn clone(&self) -> (res: Self)
        ensures
            res == *self,
    {
        Message {
            id: self.id,
            role: self.role,
            content: self.content.clone(),
            timestamp: self.timestamp,
        }
    }
}

/// Failure of a store operation: the targeted turn cannot be extended.
#[derive(Clone, Copy, PartialEq, Eq, Structural, Debug)]
pub enum StoreError {
    InvalidTarget,
}

/// An ordered sequence of turns plus a cosmetic name and an identifier.
pub struct Conversation {
    pub id: u128,
    pub name: String,
    pub messages: Vec<Message>,
}

impl View for Conversation {
    type V = Seq<TurnView>;

    open spec fn view(&self) -> Seq<TurnView> {
        self.messages@.map_values(|m: Message| m@)
    }
}

impl Conversation {
    /// Whether `target` names a turn that may still grow: the most recent
    /// turn, and an assistant one.
    pub open spec fn can_extend(&self, target: u128) -> bool {
        &&& self.messages@.len() > 0
        &&& self.messages@.last().id == target
        &&& self.messages@.last().role == Role::Assistant
    }

    /// An empty conversation under the given name, with a fresh identifier.
    pub fn new(name: String) -> (c: Conversation)
        ensures
            c@ =~= Seq::<TurnView>::empty(),
            c.name@ == name@,
    {
        Conversation { id: fresh_id(), name, messages: Vec::new() }
    }

    /// A store seeded for one session: the persona as the first system
    /// turn — never mutated or removed afterwards — followed by a canned
    /// greeting exchange for tone-setting.
    pub fn seed(persona: String) -> (c: Conversation)
        ensures
            c@ =~= seed_turns(persona@),
    {
        let mut c = Conversation::new(String::new());
        c.append(Role::System, persona);
        c.append(Role::User, String::from_str("Hello there?"));
        c.append(Role::Assistant, String::from_str("Hello - How may I help you today?"));
        c
    }

    /// Appends one turn at the end of the log and returns its identifier.
    pub fn append(&mut self, role: Role, content: String) -> (id: u128)
        ensures
            final(self)@ =~= old(self)@.push(TurnView { role, content: content@ }),
            final(self).messages@ == old(self).messages@.push(final(self).messages@.last()),
            final(self).messages@.last().id == id,
            final(self).messages@.last().role == role,
            final(self).messages@.last().content@ == content@,
            final(self).name@ == old(self).name@,
            final(self).id == old(self).id,
    {
        let m = Message { id: fresh_id(), role, content, timestamp: now_timestamp() };
        let id = m.id;
        self.messages.push(m);
        proof {
            assert(final(self)@ =~= old(self)@.push(TurnView {
                role,
                content: final(self).messages@.last().content@,
            }));
        }
        id
    }

    /// Appends `delta` to the content of the turn named by `target`.
    ///
    /// Succeeds exactly when that turn is the most recent one and has the
    /// assistant role; otherwise the store is left unchanged and
    /// `InvalidTarget` comes back.
    pub fn extend(&mut self, target: u128, delta: &str) -> (r: Result<(), StoreError>)
        ensures
            r is Ok <==> old(self).can_extend(target),
            old(self).can_extend(target) ==> {
                &&& final(self)@ =~= old(self)@.update(
                    old(self)@.len() - 1,
                    TurnView {
                        role: Role::Assistant,
                        content: old(self)@.last().content + delta@,
                    },
                )
                &&& final(self).messages@.last().id == target
                &&& final(self).messages@.last().timestamp
                    == old(self).messages@.last().timestamp
            },
            !old(self).can_extend(target) ==> {
                &&& *final(self) == *old(self)
                &&& r == Result::<(), StoreError>::Err(StoreError::InvalidTarget)
            },
            final(self).name@ == old(self).name@,
            final(self).id == old(self).id,
            final(self)@.len() == old(self)@.len(),
    {
        let n = self.messages.len();
        if n == 0 {
            return Err(StoreError::InvalidTarget);
        }
        let fits = self.messages[n - 1].id == target
            && self.messages[n - 1].role == Role::Assistant;
        if !fits {
            return Err(StoreError::InvalidTarget);
        }
        let mut m = self.messages.pop().unwrap();
        m.content.append(delta);
        self.messages.push(m);
        proof {
            assert(final(self)@ =~= old(self)@.update(
                old(self)@.len() - 1,
                TurnView {
                    role: Role::Assistant,
                    content: old(self)@.last().content + delta@,
                },
            ));
        }
        Ok(())
    }

    /// An immutable copy of the whole log, in order, for handing to the
    /// generation backend.
    pub fn snapshot(&self) -> (r: Vec<Message>)
        ensures
            r@ == self.messages@,
    {
        let mut r: Vec<Message> = Vec::new();
        let n = self.messages.len();
        for i in 0..n
            invariant
                n == self.messages@.len(),
                r@ =~= self.messages@.subrange(0, i as int),
        {
            r.push(self.messages[i].clone());
        }
        proof {
            assert(r@ =~= self.messages@);
        }
        r
    }
}

/// Relies on `uuid::Uuid::new_v4` for a fresh random identifier; the value
/// is random, so nothing is promised of it.
#[verifier::external_body]
pub(crate) fn fresh_id() -> u128 {
    uuid::Uuid::new_v4().as_u128()
}

/// Relies on `chrono::Utc::now` for the creation time in whole seconds; the
/// value depends on the clock, so nothing is promised of it.
#[verifier::external_body]
pub(crate) fn now_timestamp() -> i64 {
    chrono::Utc::now().timestamp()
}

} // verus!
