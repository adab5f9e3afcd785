//! The session's guarantees, stated and proved over the ghost transition
//! model [`apply`]: conversation and fragment ordering, router separation,
//! serialization of generations, quiescence after teardown, and seeding.

use vstd::prelude::*;
use crate::conversation::{Role, TurnView, open_assistant_turn, seed_turns, user_turn};
use crate::frames::ItemView;
use crate::session::{
    apply, concat_frags, fresh_session, torn_down, turn_emissions, wf, EventView, SessionView,
};
use crate::worker::{Phase, TurnError, INPUT_CAPACITY};

verus! {

/// Folds a sequence of stimuli over a session state, oldest first.
pub open spec fn apply_all(v: SessionView, es: Seq<EventView>) -> SessionView
    decreases es.len(),
{
    if es.len() == 0 {
        v
    } else {
        apply_all(apply(v, es[0]), es.drop_first())
    }
}

/// Folding distributes over concatenation of stimulus sequences.
pub proof fn lemma_apply_all_concat(v: SessionView, a: Seq<EventView>, b: Seq<EventView>)
    ensures
        apply_all(v, a + b) == apply_all(apply_all(v, a), b),
    decreases a.len(),
{
    if a.len() == 0 {
        assert(a + b =~= b);
    } else {
        assert((a + b)[0] == a[0]);
        assert((a + b).drop_first() =~= a.drop_first() + b);
        lemma_apply_all_concat(apply(v, a[0]), a.drop_first(), b);
    }
}

/// No single stimulus breaks a session's well-formedness.
pub proof fn lemma_wf_apply(v: SessionView, e: EventView)
    requires
        wf(v),
    ensures
        wf(apply(v, e)),
        apply(v, e).turns[0] == v.turns[0],
        apply(v, e).turns.len() >= v.turns.len(),
{
    if v.live {
        match e {
            EventView::BeginTurn => {
                if v.phase == Phase::Idle && v.pending.len() > 0 {
                    let t = v.turns.push(user_turn(v.pending[0])).push(open_assistant_turn());
                    assert(t[0] == v.turns[0]);
                    assert(t.last() == open_assistant_turn());
                }
            },
            EventView::Fragment(s) => {
                if v.phase == Phase::Generating {
                    if v.turns.len() == 1 {
                        assert(v.turns.last() == v.turns[0]);
                        assert(false);
                    }
                    let t = apply(v, e).turns;
                    assert(t[0] == v.turns[0]);
                    assert(t.last().role == Role::Assistant);
                }
            },
            _ => {},
        }
    }
}

/// The seeding law: the first turn of the store — the system persona,
/// established when the session was created — is never altered or removed
/// by any sequence of stimuli, and the session stays well-formed.
pub proof fn lemma_seed_turn_preserved(v: SessionView, es: Seq<EventView>)
    requires
        wf(v),
    ensures
        wf(apply_all(v, es)),
        apply_all(v, es).turns[0] == v.turns[0],
        apply_all(v, es).turns.len() >= 1,
    decreases es.len(),
{
    if es.len() > 0 {
        lemma_wf_apply(v, es[0]);
        lemma_seed_turn_preserved(apply(v, es[0]), es.drop_first());
    }
}

/// Teardown is quiescent: once a session is torn down, no sequence of
/// stimuli mutates the store, the queues, or anything else.
pub proof fn lemma_torn_down_stable(v: SessionView, es: Seq<EventView>)
    requires
        !v.live,
    ensures
        apply_all(v, es) == v,
    decreases es.len(),
{
    if es.len() > 0 {
        assert(apply(v, es[0]) == v);
        lemma_torn_down_stable(v, es.drop_first());
    }
}

/// A connection write failure is terminal for the whole session: every
/// component reaches its stopped state, the store is released with its
/// turns intact, and nothing that happens afterwards is observed.
pub proof fn lemma_write_failure_teardown(v: SessionView, es: Seq<EventView>)
    requires
        wf(v),
        v.live,
    ensures
        apply(v, EventView::WriteFailed) == torn_down(v),
        !torn_down(v).live,
        torn_down(v).phase == Phase::Closed,
        torn_down(v).stopped,
        torn_down(v).turns == v.turns,
        apply_all(torn_down(v), es) == torn_down(v),
{
    lemma_torn_down_stable(torn_down(v), es);
}

/// Router separation: a ping is answered straight through the outbound
/// queue and never reaches the worker's input queue; a text frame goes to
/// the worker and never triggers a direct reply.
pub proof fn lemma_classification_separation(v: SessionView, payload: Seq<u8>, text: Seq<char>)
    ensures
        apply(v, EventView::InboundPing(payload)).pending == v.pending,
        apply(v, EventView::InboundPing(payload)).turns == v.turns,
        apply(v, EventView::InboundPing(payload)).phase == v.phase,
        v.live ==> apply(v, EventView::InboundPing(payload)).outq
            == v.outq.push(ItemView::Pong(payload)),
        apply(v, EventView::InboundText(text)).outq == v.outq,
        apply(v, EventView::InboundText(text)).turns == v.turns,
{
}

/// At most one generation in flight: while a turn is generating, the
/// worker takes up no new message — a second user message only queues,
/// leaving the store untouched, and is processed only once the session is
/// idle again.
pub proof fn lemma_one_generation_at_a_time(v: SessionView, msg: Seq<char>)
    requires
        wf(v),
        v.phase == Phase::Generating,
    ensures
        apply(v, EventView::BeginTurn) == v,
        apply(v, EventView::InboundText(msg)).turns == v.turns,
        apply(v, EventView::InboundText(msg)).phase == Phase::Generating,
        (v.live && v.pending.len() < INPUT_CAPACITY) ==> apply(v, EventView::InboundText(msg))
            == (SessionView { pending: v.pending.push(msg), ..v }),
{
}

/// While a turn is generating, the store changes only at the newest
/// turn: no stimulus appends a turn or touches an older one, so the store
/// never holds more than one unfinished assistant turn at a time.
pub proof fn lemma_generation_isolates_newest_turn(v: SessionView, e: EventView)
    requires
        wf(v),
        v.phase == Phase::Generating,
    ensures
        apply(v, e).turns.len() == v.turns.len(),
        forall|i: int|
            0 <= i < v.turns.len() - 1 ==> apply(v, e).turns[i] == v.turns[i],
{
}

/// One exchange as the client drives it: a user message, the fragments
/// generation yields for it, and how the turn ends.
#[verifier::ext_equal]
pub ghost struct Exchange {
    pub msg: Seq<char>,
    pub frags: Seq<Seq<char>>,
    pub failure: Option<TurnError>,
}

/// The stimuli of one full exchange: the text arrives, the worker takes
/// it up, the fragments arrive in order, and the turn ends.
pub open spec fn turn_events(x: Exchange) -> Seq<EventView> {
    seq![EventView::InboundText(x.msg), EventView::BeginTurn]
        + x.frags.map_values(|s: Seq<char>| EventView::Fragment(s))
        + match x.failure {
            Option::Some(e) => seq![EventView::TurnFailed(e)],
            Option::None => seq![EventView::TurnComplete],
        }
}

/// The two turns one exchange adds to the store: the user's message, then
/// the assistant turn holding the concatenation of its fragments.
pub open spec fn turn_pair(x: Exchange) -> Seq<TurnView> {
    seq![
        user_turn(x.msg),
        TurnView { role: Role::Assistant, content: concat_frags(x.frags) },
    ]
}

/// The stimuli of a whole conversation, exchange after exchange.
pub open spec fn all_events(xs: Seq<Exchange>) -> Seq<EventView>
    decreases xs.len(),
{
    if xs.len() == 0 {
        Seq::empty()
    } else {
        turn_events(xs[0]) + all_events(xs.drop_first())
    }
}

/// The turns a whole conversation adds to the store, in exchange order.
pub open spec fn all_turns(xs: Seq<Exchange>) -> Seq<TurnView>
    decreases xs.len(),
{
    if xs.len() == 0 {
        Seq::empty()
    } else {
        turn_pair(xs[0]) + all_turns(xs.drop_first())
    }
}

/// The outbound items a whole conversation emits: each exchange's
/// emissions stand contiguously, in exchange order.
pub open spec fn all_emissions(xs: Seq<Exchange>) -> Seq<ItemView>
    decreases xs.len(),
{
    if xs.len() == 0 {
        Seq::empty()
    } else {
        turn_emissions(xs[0].frags, xs[0].failure) + all_emissions(xs.drop_first())
    }
}

/// A conversation of `n` exchanges adds exactly `2 n` turns.
pub proof fn lemma_all_turns_len(xs: Seq<Exchange>)
    ensures
        all_turns(xs).len() == 2 * xs.len(),
    decreases xs.len(),
{
    if xs.len() > 0 {
        lemma_all_turns_len(xs.drop_first());
    }
}

/// Exchange `k`'s user turn stands at position `2 k` of the added turns
/// and its assistant turn right after it: assistant turns appear in
/// exactly the relative order of the user messages.
pub proof fn lemma_turn_positions(xs: Seq<Exchange>, k: int)
    requires
        0 <= k < xs.len(),
    ensures
        all_turns(xs)[2 * k] == user_turn(xs[k].msg),
        all_turns(xs)[2 * k + 1] == (TurnView {
            role: Role::Assistant,
            content: concat_frags(xs[k].frags),
        }),
    decreases k,
{
    lemma_all_turns_len(xs.drop_first());
    if k == 0 {
        assert(all_turns(xs)[0] == turn_pair(xs[0])[0]);
        assert(all_turns(xs)[1] == turn_pair(xs[0])[1]);
    } else {
        lemma_turn_positions(xs.drop_first(), k - 1);
        assert(xs.drop_first()[k - 1] == xs[k]);
        assert(all_turns(xs)[2 * k] == all_turns(xs.drop_first())[2 * (k - 1)]);
        assert(all_turns(xs)[2 * k + 1] == all_turns(xs.drop_first())[2 * (k - 1) + 1]);
    }
}

/// Concatenation of fragments peels from the front as well.
pub proof fn lemma_concat_cons(frags: Seq<Seq<char>>)
    requires
        frags.len() > 0,
    ensures
        concat_frags(frags) == frags[0] + concat_frags(frags.drop_first()),
    decreases frags.len(),
{
    if frags.len() == 1 {
        assert(frags.drop_last() =~= Seq::<Seq<char>>::empty());
        assert(frags.drop_first() =~= Seq::<Seq<char>>::empty());
        assert(Seq::<char>::empty() + frags.last() =~= frags[0] + Seq::<char>::empty());
    } else {
        lemma_concat_cons(frags.drop_last());
        assert(frags.drop_last()[0] == frags[0]);
        assert(frags.drop_last().drop_first() =~= frags.drop_first().drop_last());
        assert(frags.drop_first().last() == frags.last());
        assert((frags[0] + concat_frags(frags.drop_first().drop_last())) + frags.last()
            =~= frags[0] + (concat_frags(frags.drop_first().drop_last()) + frags.last()));
    }
}

/// Feeding the fragments of one turn, in order, into a generating session
/// grows the assistant turn in flight by their concatenation and queues
/// them outbound in the same order, contiguously.
pub proof fn lemma_fragment_run(v: SessionView, frags: Seq<Seq<char>>)
    requires
        wf(v),
        v.live,
        v.phase == Phase::Generating,
    ensures
        apply_all(v, frags.map_values(|s: Seq<char>| EventView::Fragment(s)))
            =~~= (SessionView {
            turns: v.turns.update(
                v.turns.len() - 1,
                TurnView {
                    role: Role::Assistant,
                    content: v.turns.last().content + concat_frags(frags),
                },
            ),
            outq: v.outq + frags.map_values(|s: Seq<char>| ItemView::Fragment(s)),
            ..v
        }),
    decreases frags.len(),
{
    let es = frags.map_values(|s: Seq<char>| EventView::Fragment(s));
    if frags.len() == 0 {
        assert(v.turns.last().content + concat_frags(frags) =~= v.turns.last().content);
        assert(v.turns.update(v.turns.len() - 1, v.turns.last()) =~= v.turns);
        assert(v.outq + frags.map_values(|s: Seq<char>| ItemView::Fragment(s)) =~= v.outq);
    } else {
        let v1 = apply(v, EventView::Fragment(frags[0]));
        lemma_wf_apply(v, EventView::Fragment(frags[0]));
        assert(es[0] == EventView::Fragment(frags[0]));
        assert(es.drop_first() =~= frags.drop_first().map_values(
            |s: Seq<char>| EventView::Fragment(s),
        ));
        if v.turns.len() == 1 {
            assert(v.turns.last() == v.turns[0]);
            assert(false);
        }
        lemma_fragment_run(v1, frags.drop_first());
        lemma_concat_cons(frags);
        assert(v1.turns.len() == v.turns.len());
        assert(v1.turns.last() == TurnView {
            role: Role::Assistant,
            content: v.turns.last().content + frags[0],
        });
        assert(apply_all(v, es) == apply_all(v1, es.drop_first()));
        assert(v1.turns.update(
            v1.turns.len() - 1,
            TurnView {
                role: Role::Assistant,
                content: v1.turns.last().content + concat_frags(frags.drop_first()),
            },
        ) =~~= v.turns.update(
            v.turns.len() - 1,
            TurnView {
                role: Role::Assistant,
                content: v.turns.last().content + concat_frags(frags),
            },
        ));
        assert(v1.outq + frags.drop_first().map_values(|s: Seq<char>| ItemView::Fragment(s))
            =~= v.outq + frags.map_values(|s: Seq<char>| ItemView::Fragment(s)));
    }
}

/// One full exchange against an idle session with an empty input queue:
/// the store gains exactly the user turn and its assistant turn, the
/// exchange's emissions are queued outbound contiguously and in order,
/// and the session is idle again with nothing pending.
pub proof fn lemma_one_exchange(v: SessionView, x: Exchange)
    requires
        wf(v),
        v.live,
        v.phase == Phase::Idle,
        v.pending.len() == 0,
    ensures
        apply_all(v, turn_events(x)) =~~= (SessionView {
            turns: v.turns + turn_pair(x),
            outq: v.outq + turn_emissions(x.frags, x.failure),
            ..v
        }),
    decreases x.frags.len(),
{
    let head = seq![EventView::InboundText(x.msg), EventView::BeginTurn];
    let mids = x.frags.map_values(|s: Seq<char>| EventView::Fragment(s));
    let tail = match x.failure {
        Option::Some(e) => seq![EventView::TurnFailed(e)],
        Option::None => seq![EventView::TurnComplete],
    };
    lemma_apply_all_concat(v, head, mids + tail);
    let v1 = apply(v, EventView::InboundText(x.msg));
    assert(head[0] == EventView::InboundText(x.msg));
    assert(head.drop_first() =~= seq![EventView::BeginTurn]);
    assert(seq![EventView::BeginTurn][0] == EventView::BeginTurn);
    assert(seq![EventView::BeginTurn].drop_first() =~= Seq::<EventView>::empty());
    let v2 = apply(v1, EventView::BeginTurn);
    assert(apply_all(v, head) == apply_all(v1, head.drop_first()));
    assert(apply_all(v1, seq![EventView::BeginTurn])
        == apply_all(v2, Seq::<EventView>::empty()));
    assert(apply_all(v2, Seq::<EventView>::empty()) == v2);
    assert(apply_all(v, head) == v2);
    assert(v1 == SessionView { pending: v.pending.push(x.msg), ..v });
    assert(v1.pending[0] == x.msg);
    assert(v2 == SessionView {
        phase: Phase::Generating,
        turns: v.turns.push(user_turn(x.msg)).push(open_assistant_turn()),
        pending: v1.pending.drop_first(),
        ..v
    });
    assert(v2.pending =~= Seq::<Seq<char>>::empty());
    lemma_wf_apply(v, EventView::InboundText(x.msg));
    lemma_wf_apply(v1, EventView::BeginTurn);
    lemma_apply_all_concat(v2, mids, tail);
    lemma_fragment_run(v2, x.frags);
    let v3 = apply_all(v2, mids);
    assert(v2.turns.last() == open_assistant_turn());
    assert(v2.turns.len() == v.turns.len() + 2);
    assert(v3.phase == Phase::Generating);
    assert(v3.live);
    let done = TurnView { role: Role::Assistant, content: concat_frags(x.frags) };
    assert(Seq::<char>::empty() + concat_frags(x.frags) =~= concat_frags(x.frags));
    assert(v3.turns =~~= v.turns + turn_pair(x)) by {
        assert(v2.turns.update(v2.turns.len() - 1, TurnView {
            role: Role::Assistant,
            content: v2.turns.last().content + concat_frags(x.frags),
        }) =~~= v.turns + turn_pair(x));
    }
    let v4 = apply_all(v3, tail);
    assert(tail.len() == 1);
    assert(tail.drop_first() =~= Seq::<EventView>::empty());
    assert(apply_all(v3, tail) == apply_all(apply(v3, tail[0]), tail.drop_first()));
    assert(apply_all(apply(v3, tail[0]), Seq::<EventView>::empty()) == apply(v3, tail[0]));
    match x.failure {
        Option::Some(e) => {
            assert(tail[0] == EventView::TurnFailed(e));
            assert(v4 == apply(v3, EventView::TurnFailed(e)));
            assert(v4.outq =~~= v.outq + turn_emissions(x.frags, x.failure));
        },
        Option::None => {
            assert(tail[0] == EventView::TurnComplete);
            assert(v4 == apply(v3, EventView::TurnComplete));
            assert(v3.outq + Seq::<ItemView>::empty() =~= v3.outq);
            assert(v4.outq =~~= v.outq + turn_emissions(x.frags, x.failure));
        },
    }
    assert(turn_events(x) =~= head + (mids + tail));
    assert(apply_all(v, turn_events(x)) == apply_all(v2, mids + tail));
    assert(apply_all(v2, mids + tail) == apply_all(v3, tail));
    assert(apply_all(v, turn_events(x)) == v4);
}

/// The conversation-order law: driving any number of exchanges in order
/// against a fresh-idle session appends, for each exchange in turn, its
/// user turn and then its assistant turn to the store — so assistant
/// turns appear in the same relative order as the user messages — and
/// queues each exchange's fragments outbound contiguously and in
/// generation order, so the fragments of different turns never
/// interleave on the wire.
pub proof fn lemma_conversation_order(v: SessionView, xs: Seq<Exchange>)
    requires
        wf(v),
        v.live,
        v.phase == Phase::Idle,
        v.pending.len() == 0,
    ensures
        apply_all(v, all_events(xs)) =~~= (SessionView {
            turns: v.turns + all_turns(xs),
            outq: v.outq + all_emissions(xs),
            ..v
        }),
    decreases xs.len(),
{
    if xs.len() == 0 {
        assert(v.turns + all_turns(xs) =~= v.turns);
        assert(v.outq + all_emissions(xs) =~= v.outq);
    } else {
        lemma_apply_all_concat(v, turn_events(xs[0]), all_events(xs.drop_first()));
        lemma_one_exchange(v, xs[0]);
        let v1 = apply_all(v, turn_events(xs[0]));
        assert(wf(v1)) by {
            assert(v1.turns[0] == v.turns[0]);
        }
        lemma_conversation_order(v1, xs.drop_first());
        assert(v1.turns + all_turns(xs.drop_first()) =~~= v.turns + all_turns(xs));
        assert(v1.outq + all_emissions(xs.drop_first()) =~~= v.outq + all_emissions(xs));
        assert(apply_all(v1, all_events(xs.drop_first())) =~~= (SessionView {
            turns: v.turns + all_turns(xs),
            outq: v.outq + all_emissions(xs),
            ..v
        }));
    }
}

/// A whole conversation against a freshly created session: the store ends
/// as the seeded turns followed, exchange after exchange, by each user
/// message and its assistant turn; the outbound stream is exactly the
/// exchanges' emissions, in order; and the first turn is still the system
/// persona, untouched.
pub proof fn lemma_fresh_session_conversation(persona: Seq<char>, xs: Seq<Exchange>)
    ensures
        apply_all(fresh_session(persona), all_events(xs)) =~~= (SessionView {
            turns: seed_turns(persona) + all_turns(xs),
            outq: all_emissions(xs),
            ..fresh_session(persona)
        }),
        apply_all(fresh_session(persona), all_events(xs)).turns[0] == (TurnView {
            role: Role::System,
            content: persona,
        }),
{
    let v = fresh_session(persona);
    assert(wf(v));
    lemma_conversation_order(v, xs);
    assert(Seq::<ItemView>::empty() + all_emissions(xs) =~= all_emissions(xs));
    assert((seed_turns(persona) + all_turns(xs))[0] == seed_turns(persona)[0]);
}

} // verus!
