use chat_relay::conversation::{Conversation, Role, StoreError};
use chat_relay::frames::{InboundFrame, OutboundFrame};
use chat_relay::session::{Disposition, Session};
use chat_relay::worker::{Phase, TurnError, INPUT_CAPACITY};

fn text(s: &str) -> InboundFrame {
    InboundFrame::Text(s.to_string())
}

fn drain(session: &mut Session) -> Vec<OutboundFrame> {
    let mut out = Vec::new();
    while let Some(frame) = session.next_outbound() {
        out.push(frame);
    }
    out
}

fn expect_text(frame: &OutboundFrame, want: &str) {
    match frame {
        OutboundFrame::Text(s) => assert_eq!(s, want),
        OutboundFrame::Pong(_) => panic!("expected a text frame"),
    }
}

#[test]
fn seeding_first_turn_is_persona() {
    let session = Session::new("You are a helpful assistant.".to_string());
    let msgs = &session.worker.store.messages;
    assert_eq!(msgs.len(), 3);
    assert!(matches!(msgs[0].role, Role::System));
    assert_eq!(msgs[0].content, "You are a helpful assistant.");
    assert!(matches!(msgs[1].role, Role::User));
    assert_eq!(msgs[1].content, "Hello there?");
    assert!(matches!(msgs[2].role, Role::Assistant));
    assert_eq!(msgs[2].content, "Hello - How may I help you today?");
    assert!(session.live);
    assert!(matches!(session.worker.phase, Phase::Idle));
}

#[test]
fn seed_turn_survives_a_full_exchange() {
    let mut session = Session::new("persona".to_string());
    session.on_inbound(text("hi"));
    session.begin_turn().unwrap();
    session.on_fragment("reply".to_string());
    session.on_turn_complete();
    session.on_inbound(InboundFrame::Ping(vec![0]));
    let first = &session.worker.store.messages[0];
    assert!(matches!(first.role, Role::System));
    assert_eq!(first.content, "persona");
}

#[test]
fn ping_never_reaches_worker() {
    let mut session = Session::new("p".to_string());
    let d = session.on_inbound(InboundFrame::Ping(vec![1, 2, 3]));
    assert_eq!(d, Disposition::PongQueued);
    assert_eq!(session.worker.pending.len(), 0);
    assert_eq!(session.worker.store.messages.len(), 3);
    let out = drain(&mut session);
    assert_eq!(out.len(), 1);
    match &out[0] {
        OutboundFrame::Pong(p) => assert_eq!(p, &vec![1, 2, 3]),
        OutboundFrame::Text(_) => panic!("expected a pong frame"),
    }
}

#[test]
fn text_never_triggers_a_pong() {
    let mut session = Session::new("p".to_string());
    let d = session.on_inbound(text("hello"));
    assert_eq!(d, Disposition::Queued);
    assert_eq!(session.worker.pending.len(), 1);
    assert_eq!(session.dispatcher.queue.len(), 0);
    assert!(drain(&mut session).is_empty());
}

#[test]
fn malformed_frame_is_ignored() {
    let mut session = Session::new("p".to_string());
    let d = session.on_inbound(InboundFrame::Malformed);
    assert_eq!(d, Disposition::Ignored);
    assert!(session.live);
    assert_eq!(session.worker.pending.len(), 0);
    assert_eq!(session.dispatcher.queue.len(), 0);
}

#[test]
fn close_frame_terminates_the_session() {
    let mut session = Session::new("p".to_string());
    let d = session.on_inbound(InboundFrame::Close);
    assert_eq!(d, Disposition::Terminated);
    assert!(!session.live);
    assert!(matches!(session.worker.phase, Phase::Closed));
    assert!(session.dispatcher.stopped);
}

#[test]
fn unsupported_frame_terminates_the_session() {
    let mut session = Session::new("p".to_string());
    let d = session.on_inbound(InboundFrame::Unsupported);
    assert_eq!(d, Disposition::Terminated);
    assert!(!session.live);
}

#[test]
fn fragments_arrive_in_order_and_concatenate() {
    let mut session = Session::new("p".to_string());
    session.on_inbound(text("question"));
    let history = session.begin_turn().expect("a turn should start");
    assert_eq!(history.len(), 4);
    assert!(matches!(history[3].role, Role::User));
    assert_eq!(history[3].content, "question");
    session.on_fragment("Hel".to_string());
    session.on_fragment("lo".to_string());
    session.on_fragment(" there".to_string());
    session.on_turn_complete();
    assert!(matches!(session.worker.phase, Phase::Idle));
    let msgs = &session.worker.store.messages;
    assert_eq!(msgs.len(), 5);
    assert!(matches!(msgs[4].role, Role::Assistant));
    assert_eq!(msgs[4].content, "Hello there");
    let out = drain(&mut session);
    assert_eq!(out.len(), 3);
    expect_text(&out[0], "Hel");
    expect_text(&out[1], "lo");
    expect_text(&out[2], " there");
}

#[test]
fn run_turn_completes_like_single_fragments() {
    let mut session = Session::new("p".to_string());
    session.on_inbound(text("question"));
    session.begin_turn().unwrap();
    let fragments = vec!["Hel".to_string(), "lo".to_string(), " there".to_string()];
    session.run_turn(&fragments, None);
    assert_eq!(session.worker.store.messages[4].content, "Hello there");
    let out = drain(&mut session);
    assert_eq!(out.len(), 3);
    expect_text(&out[0], "Hel");
    expect_text(&out[1], "lo");
    expect_text(&out[2], " there");
}

#[test]
fn interruption_keeps_partial_output_and_notices() {
    let mut session = Session::new("p".to_string());
    session.on_inbound(text("question"));
    session.begin_turn().unwrap();
    session.on_fragment("Sure, ".to_string());
    session.on_turn_failed(TurnError::StreamInterrupted);
    let msgs = &session.worker.store.messages;
    assert_eq!(msgs[4].content, "Sure, ");
    assert!(matches!(session.worker.phase, Phase::Idle));
    let out = drain(&mut session);
    assert_eq!(out.len(), 2);
    expect_text(&out[0], "Sure, ");
    expect_text(&out[1], "[error: the response was interrupted]");
    // The session stays usable for the next user message.
    assert_eq!(session.on_inbound(text("again")), Disposition::Queued);
    assert!(session.begin_turn().is_some());
}

#[test]
fn backend_unavailable_notices_and_recovers() {
    let mut session = Session::new("p".to_string());
    session.on_inbound(text("question"));
    session.begin_turn().unwrap();
    session.on_turn_failed(TurnError::BackendUnavailable);
    assert!(matches!(session.worker.phase, Phase::Idle));
    let out = drain(&mut session);
    assert_eq!(out.len(), 1);
    expect_text(&out[0], "[error: the assistant backend is unavailable]");
    assert!(session.live);
}

#[test]
fn run_turn_with_failure_appends_notice_after_fragments() {
    let mut session = Session::new("p".to_string());
    session.on_inbound(text("q"));
    session.begin_turn().unwrap();
    let fragments = vec!["Sure, ".to_string()];
    session.run_turn(&fragments, Some(TurnError::StreamInterrupted));
    assert_eq!(session.worker.store.messages[4].content, "Sure, ");
    let out = drain(&mut session);
    assert_eq!(out.len(), 2);
    expect_text(&out[0], "Sure, ");
    expect_text(&out[1], "[error: the response was interrupted]");
}

#[test]
fn second_message_waits_until_idle() {
    let mut session = Session::new("p".to_string());
    session.on_inbound(text("one"));
    session.begin_turn().unwrap();
    assert_eq!(session.on_inbound(text("two")), Disposition::Queued);
    // Still generating: no new turn starts, the store is untouched.
    assert!(session.begin_turn().is_none());
    assert!(matches!(session.worker.phase, Phase::Generating));
    assert_eq!(session.worker.store.messages.len(), 5);
    assert_eq!(session.worker.pending.len(), 1);
    session.on_fragment("answer one".to_string());
    session.on_turn_complete();
    // Only now is the second message taken up, in arrival order.
    let history = session.begin_turn().expect("the queued message is next");
    assert_eq!(history[5].content, "two");
}

#[test]
fn assistant_turns_keep_user_message_order() {
    let mut session = Session::new("p".to_string());
    session.on_inbound(text("first"));
    session.begin_turn().unwrap();
    session.run_turn(&vec!["answer one".to_string()], None);
    session.on_inbound(text("second"));
    session.begin_turn().unwrap();
    session.run_turn(&vec!["answer ".to_string(), "two".to_string()], None);
    let msgs = &session.worker.store.messages;
    assert_eq!(msgs.len(), 7);
    let roles: Vec<&Role> = msgs.iter().map(|m| &m.role).collect();
    assert!(matches!(roles[3], Role::User));
    assert!(matches!(roles[4], Role::Assistant));
    assert!(matches!(roles[5], Role::User));
    assert!(matches!(roles[6], Role::Assistant));
    assert_eq!(msgs[3].content, "first");
    assert_eq!(msgs[4].content, "answer one");
    assert_eq!(msgs[5].content, "second");
    assert_eq!(msgs[6].content, "answer two");
    // The outbound stream holds each turn's fragments contiguously.
    let out = drain(&mut session);
    assert_eq!(out.len(), 3);
    expect_text(&out[0], "answer one");
    expect_text(&out[1], "answer ");
    expect_text(&out[2], "two");
}

#[test]
fn write_failure_stops_every_component() {
    let mut session = Session::new("p".to_string());
    session.on_inbound(InboundFrame::Ping(vec![7]));
    session.on_write_result(false);
    assert!(!session.live);
    assert!(matches!(session.worker.phase, Phase::Closed));
    assert!(session.dispatcher.stopped);
    assert_eq!(session.worker.pending.len(), 0);
    let turns_before = session.worker.store.messages.len();
    // Nothing mutates the session afterwards.
    assert_eq!(session.on_inbound(text("late")), Disposition::Ignored);
    assert!(session.begin_turn().is_none());
    session.on_fragment("late".to_string());
    assert!(session.next_outbound().is_none());
    assert_eq!(session.worker.store.messages.len(), turns_before);
    assert_eq!(session.worker.pending.len(), 0);
}

#[test]
fn successful_write_changes_nothing() {
    let mut session = Session::new("p".to_string());
    session.on_write_result(true);
    assert!(session.live);
    assert!(matches!(session.worker.phase, Phase::Idle));
}

#[test]
fn full_input_queue_applies_backpressure() {
    let mut session = Session::new("p".to_string());
    for i in 0..INPUT_CAPACITY {
        assert_eq!(session.on_inbound(text(&format!("m{i}"))), Disposition::Queued);
    }
    assert_eq!(session.on_inbound(text("overflow")), Disposition::WouldBlock);
    assert_eq!(session.worker.pending.len(), INPUT_CAPACITY);
    // The rejected message was not silently lost into the queue.
    assert_eq!(session.worker.pending[INPUT_CAPACITY - 1], format!("m{}", INPUT_CAPACITY - 1));
}

#[test]
fn seed_builds_persona_and_greeting() {
    let c = Conversation::seed("be brief".to_string());
    assert_eq!(c.messages.len(), 3);
    assert!(matches!(c.messages[0].role, Role::System));
    assert_eq!(c.messages[0].content, "be brief");
    assert!(matches!(c.messages[1].role, Role::User));
    assert_eq!(c.messages[1].content, "Hello there?");
    assert!(matches!(c.messages[2].role, Role::Assistant));
    assert_eq!(c.messages[2].content, "Hello - How may I help you today?");
}

#[test]
fn conversation_new_is_empty_and_named() {
    let c = Conversation::new("Default Conversation".to_string());
    assert_eq!(c.name, "Default Conversation");
    assert!(c.messages.is_empty());
}

#[test]
fn extend_rejects_wrong_target() {
    let mut c = Conversation::new("n".to_string());
    let uid = c.append(Role::User, "hi".to_string());
    // The newest turn is not an assistant turn.
    assert_eq!(c.extend(uid, "x"), Err(StoreError::InvalidTarget));
    let aid = c.append(Role::Assistant, "".to_string());
    // A stale identifier no longer names the newest turn.
    assert_eq!(c.extend(uid, "x"), Err(StoreError::InvalidTarget));
    assert_eq!(c.extend(aid, "ok"), Ok(()));
    assert_eq!(c.messages[1].content, "ok");
    assert_eq!(c.messages[0].content, "hi");
}

#[test]
fn extend_rejects_empty_store() {
    let mut c = Conversation::new("n".to_string());
    assert_eq!(c.extend(0, "x"), Err(StoreError::InvalidTarget));
    assert!(c.messages.is_empty());
}

#[test]
fn snapshot_is_a_faithful_copy() {
    let mut session = Session::new("p".to_string());
    session.on_inbound(text("q"));
    let history = session.begin_turn().unwrap();
    session.run_turn(&vec!["a".to_string()], None);
    // The snapshot taken at generation time is unaffected by later growth.
    assert_eq!(history.len(), 4);
    assert_eq!(session.worker.store.messages.len(), 5);
    for (h, m) in history.iter().zip(session.worker.store.messages.iter()) {
        assert_eq!(h.id, m.id);
        assert_eq!(h.content, m.content);
        assert_eq!(h.timestamp, m.timestamp);
    }
}

#[test]
fn empty_generation_completes_with_empty_turn() {
    let mut session = Session::new("p".to_string());
    session.on_inbound(text("q"));
    session.begin_turn().unwrap();
    session.run_turn(&Vec::new(), None);
    assert_eq!(session.worker.store.messages[4].content, "");
    assert!(drain(&mut session).is_empty());
    assert!(matches!(session.worker.phase, Phase::Idle));
}
