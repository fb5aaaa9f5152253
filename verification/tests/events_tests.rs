use openpad::events::{parse_sse_event, StreamEvent};
use openpad::types::{PermissionReply, SessionStatus};

#[test]
fn idle_event_reads_its_session() {
    let e = parse_sse_event(r#"{"type":"session.idle","properties":{"sessionID":"ses_1"}}"#);
    assert!(matches!(e, Some(StreamEvent::SessionIdle { session_id }) if session_id == "ses_1"));
}

#[test]
fn payload_envelope_is_unwrapped() {
    let e = parse_sse_event(r#"{"directory":"/w","payload":{"type":"file.edited","properties":{"file":"a.rs"}}}"#);
    assert!(matches!(e, Some(StreamEvent::FileEdited { file }) if file == "a.rs"));
}

#[test]
fn malformed_events_give_nothing() {
    assert!(parse_sse_event("not json").is_none());
    assert!(parse_sse_event(r#"{"type":"session.idle"}"#).is_none());
    assert!(parse_sse_event(r#"{"type":7,"properties":{}}"#).is_none());
    assert!(parse_sse_event(r#"{"type":"session.idle","properties":{"sessionID":3}}"#).is_none());
    assert!(parse_sse_event(r#"{"payload":5,"type":"session.idle","properties":{"sessionID":"s"}}"#).is_none());
}

#[test]
fn unknown_types_are_kept() {
    let e = parse_sse_event(r#"{"type":"brand.new","properties":null}"#);
    assert!(matches!(e, Some(StreamEvent::Unknown(t)) if t == "brand.new"));
    assert!(matches!(parse_sse_event(r#"{"type":"server.connected","properties":{}}"#), Some(StreamEvent::ServerConnected)));
}

#[test]
fn part_delta_needs_all_its_fields() {
    let e = parse_sse_event(
        r#"{"type":"message.part.delta","properties":{"sessionID":"s","messageID":"m","partID":"p","field":"text","delta":"hi"}}"#,
    );
    match e {
        Some(StreamEvent::PartDelta { session_id, message_id, part_id, field, delta }) => {
            assert_eq!((session_id.as_str(), message_id.as_str(), part_id.as_str(), field.as_str(), delta.as_str()), ("s", "m", "p", "text", "hi"));
        }
        _ => panic!("expected a part delta"),
    }
    assert!(parse_sse_event(r#"{"type":"message.part.delta","properties":{"sessionID":"s","messageID":"m","partID":"p","field":"text"}}"#).is_none());
}

#[test]
fn session_status_reads_its_tag() {
    let e = parse_sse_event(r#"{"type":"session.status","properties":{"sessionID":"s","status":{"type":"busy"}}}"#);
    assert!(matches!(e, Some(StreamEvent::SessionStatus { status: SessionStatus::Busy, .. })));
    let e = parse_sse_event(
        r#"{"type":"session.status","properties":{"sessionID":"s","status":{"type":"retry","attempt":2,"message":"later","next":1.5}}}"#,
    );
    match e {
        Some(StreamEvent::SessionStatus { status: SessionStatus::Retry { attempt, message, next }, .. }) => {
            assert_eq!(attempt, 2.0f64.to_bits());
            assert_eq!(message, "later");
            assert_eq!(next, 1.5f64.to_bits());
        }
        _ => panic!("expected a retry status"),
    }
    assert!(parse_sse_event(r#"{"type":"session.status","properties":{"sessionID":"s","status":{"type":"retry","attempt":2}}}"#).is_none());
    assert!(parse_sse_event(r#"{"type":"session.status","properties":{"sessionID":"s","status":{"type":"sleeping"}}}"#).is_none());
}

#[test]
fn permission_reply_is_one_of_three_names() {
    let e = parse_sse_event(r#"{"type":"permission.replied","properties":{"sessionID":"s","requestID":"r","reply":"always"}}"#);
    assert!(matches!(e, Some(StreamEvent::PermissionReplied { reply: PermissionReply::Always, .. })));
    let e = parse_sse_event(r#"{"type":"permission.replied","properties":{"sessionID":"s","requestID":"r","reply":{"once":null}}}"#);
    assert!(matches!(e, Some(StreamEvent::PermissionReplied { reply: PermissionReply::Once, .. })));
    assert!(parse_sse_event(r#"{"type":"permission.replied","properties":{"sessionID":"s","requestID":"r","reply":"sometimes"}}"#).is_none());
}

#[test]
fn question_answers_are_lists_of_strings() {
    let e = parse_sse_event(r#"{"type":"question.replied","properties":{"sessionID":"s","requestID":"q","answers":[["a","b"],[]]}}"#);
    match e {
        Some(StreamEvent::QuestionReplied { answers, .. }) => {
            assert_eq!(answers, vec![vec!["a".to_string(), "b".to_string()], vec![]]);
        }
        _ => panic!("expected answers"),
    }
    assert!(parse_sse_event(r#"{"type":"question.replied","properties":{"sessionID":"s","requestID":"q","answers":[["a",1]]}}"#).is_none());
}

#[test]
fn pty_exit_code_must_be_an_integer() {
    let e = parse_sse_event(r#"{"type":"pty.exited","properties":{"id":"t","exitCode":-1}}"#);
    assert!(matches!(e, Some(StreamEvent::PtyExited { exit_code: -1, .. })));
    assert!(parse_sse_event(r#"{"type":"pty.exited","properties":{"id":"t","exitCode":1.5}}"#).is_none());
}

#[test]
fn toast_title_and_duration_are_optional() {
    let e = parse_sse_event(r#"{"type":"tui.toast.show","properties":{"message":"m","variant":"info"}}"#);
    assert!(matches!(e, Some(StreamEvent::TuiToastShow { title: None, duration: None, .. })));
    let e = parse_sse_event(r#"{"type":"tui.toast.show","properties":{"title":"T","message":"m","variant":"info","duration":3000}}"#);
    match e {
        Some(StreamEvent::TuiToastShow { title, duration, .. }) => {
            assert_eq!(title.as_deref(), Some("T"));
            assert_eq!(duration, Some(3000.0f64.to_bits()));
        }
        _ => panic!("expected a toast"),
    }
}

#[test]
fn records_are_kept_as_json_text() {
    let e = parse_sse_event(r#"{"type":"session.created","properties":{"info":{"id":"ses_9","title":"x"}}}"#);
    let text = match e {
        Some(StreamEvent::SessionCreated(t)) => t,
        _ => panic!("expected a session"),
    };
    assert_eq!(text, r#"{"id":"ses_9","title":"x"}"#);
    assert!(parse_sse_event(r#"{"type":"session.created","properties":{}}"#).is_none());
    let e = parse_sse_event(r#"{"type":"permission.asked","properties":{"id":"per_1"}}"#);
    assert!(matches!(e, Some(StreamEvent::PermissionAsked(t)) if t == r#"{"id":"per_1"}"#));
}

#[test]
fn records_are_written_compactly() {
    let e = parse_sse_event(r#"{"type":"session.diff","properties":{"sessionID":"s","diff":[ {"additions" : 2, "file": "a.rs"} ]}}"#);
    assert!(matches!(e, Some(StreamEvent::SessionDiff { diff, .. }) if diff == r#"[{"additions":2,"file":"a.rs"}]"#));
}
