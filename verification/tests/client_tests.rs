use claude_agent_sdk_rs::client::{
    collect_messages, ExecuteAction, ExecuteEvent, ExecutePhase, InternalClient, MessageCollector,
};
use claude_agent_sdk_rs::errors::{ClaudeError, MessageParseError};
use claude_agent_sdk_rs::json::Json;

fn unknown(name: &str) -> ClaudeError {
    ClaudeError::UnknownMessageType {
        message_type: name.to_string(),
        data: Json::Null,
    }
}

fn bad(reason: &str) -> ClaudeError {
    ClaudeError::MessageParse(MessageParseError::new(reason.to_string(), None))
}

fn transport(reason: &str) -> ClaudeError {
    ClaudeError::Transport(reason.to_string())
}

#[test]
fn new_keeps_the_transport() {
    let client = InternalClient::new(Ok::<u32, ClaudeError>(7)).unwrap();
    assert_eq!(*client.transport(), 7);
    assert_eq!(client.into_transport(), 7);
}

#[test]
fn new_fails_with_the_transport_error() {
    match InternalClient::<u32>::new(Err(transport("cli not found"))) {
        Err(ClaudeError::Transport(reason)) => assert_eq!(reason, "cli not found"),
        _ => panic!("expected the transport error"),
    }
}

#[test]
fn is_unknown_message_type_only_for_unknown_types() {
    assert!(unknown("x").is_unknown_message_type());
    assert!(!bad("x").is_unknown_message_type());
    assert!(!transport("x").is_unknown_message_type());
}

#[test]
fn a_run_connects_reads_closes_and_finishes() {
    let mut c: MessageCollector<u32> = MessageCollector::new();
    assert_eq!(c.phase(), ExecutePhase::Connecting);
    assert!(matches!(c.step(ExecuteEvent::Connected(Ok(()))), ExecuteAction::ReadNext));
    assert_eq!(c.phase(), ExecutePhase::Reading);
    assert!(matches!(c.step(ExecuteEvent::Received(Ok(1))), ExecuteAction::ReadNext));
    match c.step(ExecuteEvent::Received(Err(unknown("future")))) {
        ExecuteAction::Skip(e) => assert!(e.is_unknown_message_type()),
        _ => panic!("expected a skip"),
    }
    assert!(matches!(c.step(ExecuteEvent::Received(Ok(2))), ExecuteAction::ReadNext));
    assert!(matches!(c.step(ExecuteEvent::StreamEnded), ExecuteAction::Close));
    assert_eq!(c.phase(), ExecutePhase::Closing);
    match c.step(ExecuteEvent::Closed(Ok(()))) {
        ExecuteAction::Finish(messages) => assert_eq!(messages, vec![1, 2]),
        _ => panic!("expected the messages"),
    }
    assert_eq!(c.phase(), ExecutePhase::Done);
}

#[test]
fn a_failed_connection_ends_the_run() {
    let mut c: MessageCollector<u32> = MessageCollector::new();
    match c.step(ExecuteEvent::Connected(Err(transport("refused")))) {
        ExecuteAction::Fail(ClaudeError::Transport(r)) => assert_eq!(r, "refused"),
        _ => panic!("expected a failure"),
    }
    assert_eq!(c.phase(), ExecutePhase::Done);
}

#[test]
fn a_stream_error_or_a_bad_message_ends_the_run() {
    let mut c: MessageCollector<u32> = MessageCollector::new();
    c.step(ExecuteEvent::Connected(Ok(())));
    match c.step(ExecuteEvent::ReadFailed(transport("broken pipe"))) {
        ExecuteAction::Fail(ClaudeError::Transport(r)) => assert_eq!(r, "broken pipe"),
        _ => panic!("expected a failure"),
    }

    let mut c: MessageCollector<u32> = MessageCollector::new();
    c.step(ExecuteEvent::Connected(Ok(())));
    match c.step(ExecuteEvent::Received(Err(bad("bad fields")))) {
        ExecuteAction::Fail(ClaudeError::MessageParse(e)) => assert_eq!(e.message, "bad fields"),
        _ => panic!("expected a failure"),
    }
    assert_eq!(c.phase(), ExecutePhase::Done);
}

#[test]
fn a_failed_close_ends_the_run_with_its_error() {
    let mut c: MessageCollector<u32> = MessageCollector::new();
    c.step(ExecuteEvent::Connected(Ok(())));
    c.step(ExecuteEvent::Received(Ok(5)));
    c.step(ExecuteEvent::StreamEnded);
    match c.step(ExecuteEvent::Closed(Err(transport("kill failed")))) {
        ExecuteAction::Fail(ClaudeError::Transport(r)) => assert_eq!(r, "kill failed"),
        _ => panic!("expected a failure"),
    }
}

#[test]
fn accepts_follows_the_phase() {
    let mut c: MessageCollector<u32> = MessageCollector::new();
    assert!(c.accepts(&ExecuteEvent::Connected(Ok(()))));
    assert!(!c.accepts(&ExecuteEvent::StreamEnded));
    c.step(ExecuteEvent::Connected(Ok(())));
    assert!(c.accepts(&ExecuteEvent::Received(Ok(1))));
    assert!(c.accepts(&ExecuteEvent::StreamEnded));
    assert!(!c.accepts(&ExecuteEvent::Closed(Ok(()))));
}

#[test]
fn collect_messages_keeps_order_and_skips_unknown_types() {
    let outcomes = vec![Ok(1u32), Err(unknown("totally_unknown_future_type")), Ok(2), Ok(3)];
    assert_eq!(collect_messages(Ok(()), outcomes, None, Ok(())).unwrap(), vec![1, 2, 3]);
}

#[test]
fn collect_messages_stops_at_the_first_failure() {
    let outcomes = vec![Ok(1u32), Err(bad("first")), Ok(2), Err(bad("second"))];
    match collect_messages(Ok(()), outcomes, None, Ok(())) {
        Err(ClaudeError::MessageParse(e)) => assert_eq!(e.message, "first"),
        _ => panic!("expected the first failure"),
    }
}

#[test]
fn unknown_types_change_nothing() {
    let with_unknown = vec![Err(unknown("a")), Ok(4u32), Err(unknown("b")), Ok(9)];
    let without = vec![Ok(4u32), Ok(9)];
    assert_eq!(
        collect_messages(Ok(()), with_unknown, None, Ok(())).unwrap(),
        collect_messages(Ok(()), without, None, Ok(())).unwrap()
    );
    assert_eq!(collect_messages::<u32>(Ok(()), vec![], None, Ok(())).unwrap(), Vec::<u32>::new());
}

#[test]
fn unknown_types_change_no_failed_run() {
    let with_unknown = vec![Err(unknown("a")), Ok(4u32), Err(unknown("b"))];
    let without = vec![Ok(4u32)];
    for (r1, r2) in [
        (
            collect_messages(Err(transport("refused")), with_unknown, None, Ok(())),
            collect_messages(Err(transport("refused")), without, None, Ok(())),
        ),
        (
            collect_messages(Ok(()), vec![Err(unknown("a")), Ok(4u32)], Some(transport("eof")), Ok(())),
            collect_messages(Ok(()), vec![Ok(4u32)], Some(transport("eof")), Ok(())),
        ),
        (
            collect_messages(Ok(()), vec![Ok(4u32), Err(unknown("b"))], None, Err(transport("kill"))),
            collect_messages(Ok(()), vec![Ok(4u32)], None, Err(transport("kill"))),
        ),
    ] {
        match (r1, r2) {
            (Err(ClaudeError::Transport(a)), Err(ClaudeError::Transport(b))) => assert_eq!(a, b),
            _ => panic!("expected the same transport error"),
        }
    }
}

#[test]
fn collect_messages_reports_each_transport_failure() {
    match collect_messages::<u32>(Err(transport("refused")), vec![Ok(1)], None, Ok(())) {
        Err(ClaudeError::Transport(r)) => assert_eq!(r, "refused"),
        _ => panic!("expected the connect failure"),
    }
    match collect_messages::<u32>(Ok(()), vec![Ok(1)], Some(transport("broken pipe")), Ok(())) {
        Err(ClaudeError::Transport(r)) => assert_eq!(r, "broken pipe"),
        _ => panic!("expected the read failure"),
    }
    match collect_messages::<u32>(Ok(()), vec![Ok(1)], None, Err(transport("kill failed"))) {
        Err(ClaudeError::Transport(r)) => assert_eq!(r, "kill failed"),
        _ => panic!("expected the close failure"),
    }
    match collect_messages::<u32>(Ok(()), vec![Err(bad("bad")), Ok(1)], Some(transport("eof")), Ok(())) {
        Err(ClaudeError::MessageParse(e)) => assert_eq!(e.message, "bad"),
        _ => panic!("expected the parse failure first"),
    }
}

#[test]
fn describe_gives_the_text_of_each_error() {
    assert_eq!(unknown("future").describe(), "Unknown message type: future");
    assert_eq!(transport("broken pipe").describe(), "Transport error: broken pipe");
    assert_eq!(
        bad("Failed to parse message: missing field").describe(),
        "Failed to parse message: missing field"
    );
}
