use openpad::actions::AppAction;
use openpad::formatters::{format_assistant_error, format_timestamp_at, format_token_usage};
use openpad::handlers::{action_for_event, handle_opencode_event};
use openpad::state::AppState;
use openpad::text::truncate_display;
use openpad::types::{AssistantError, CacheUsage, Event, TokenUsage};

#[test]
fn timestamps_relative_to_now() {
    let now = 10_000_000_000i64;
    assert_eq!(format_timestamp_at(now - 30_000, now, true), "just now");
    assert_eq!(format_timestamp_at(now - 5 * 60_000, now, true), "5 min ago");
    assert_eq!(format_timestamp_at(now - 59 * 60_000, now, true), "59 min ago");
    // 10_000_000_000 ms is 17:46:40 UTC: earlier messages of that day show their clock time.
    assert_eq!(format_timestamp_at(now - 60 * 60_000, now, true), "16:46");
    assert_eq!(format_timestamp_at(now - 3 * 3_600_000, now, true), "14:46");
    // Just after midnight, messages of the evening before show how long ago they were.
    let after_midnight = 115 * 86_400_000i64 + 3_600_000;
    assert_eq!(format_timestamp_at(after_midnight - 3_600_000, after_midnight, true), "00:00");
    assert_eq!(format_timestamp_at(after_midnight - 2 * 3_600_000, after_midnight, true), "2 hours ago");
    assert_eq!(format_timestamp_at(after_midnight - 90 * 60_000, after_midnight, true), "1 hour ago");
    let ts = now - 26 * 3_600_000;
    let secs = ts / 1000;
    let clock = format!("{:02}:{:02}", (secs % 86400) / 3600, (secs % 3600) / 60);
    assert_eq!(format_timestamp_at(ts, now, true), format!("{} (1 day ago)", clock));
    assert_eq!(format_timestamp_at(ts, now, false), format!("{} (1 days ago)", clock));
}

#[test]
fn token_usage_line() {
    let t = TokenUsage { total: None, input: 100, output: 50, reasoning: 10, cache: CacheUsage { read: 20, write: 5 } };
    assert_eq!(format_token_usage(&t), "Tokens: in 100 / out 50 / r 10 / cache 20r 5w");
}

#[test]
fn assistant_error_texts() {
    let e = AssistantError::ProviderAuthError { provider_id: "anthropic".to_string(), message: "Auth failed".to_string() };
    assert_eq!(
        format_assistant_error(&e),
        "Authentication error for anthropic: Auth failed\nAction: check your API key or re-authenticate this provider."
    );
    let e2 = AssistantError::UnknownError { message: "Something went wrong".to_string() };
    assert_eq!(format_assistant_error(&e2), "Unexpected error: Something went wrong\nAction: try again or check provider status.");
    let e3 = AssistantError::MessageAbortedError { message: "Aborted by user".to_string() };
    assert_eq!(format_assistant_error(&e3), "Message aborted: Aborted by user\nAction: resend if this was unintended.");
}

#[test]
fn display_truncation() {
    assert_eq!(truncate_display("  short  ", 10), "short");
    assert_eq!(truncate_display("abcdefghijkl", 5), "abcde…");
}

#[test]
fn events_become_actions() {
    assert!(action_for_event(Event::LspUpdated).is_none());
    match action_for_event(Event::SessionIdle { session_id: "s".to_string() }) {
        None => {}
        Some(_) => panic!("idle stands for no action"),
    }
    match action_for_event(Event::PermissionReplied {
        session_id: "s".to_string(),
        request_id: "r".to_string(),
        reply: openpad::types::PermissionReply::Once,
    }) {
        Some(AppAction::PermissionDismissed { session_id, request_id }) => {
            assert_eq!(session_id, "s");
            assert_eq!(request_id, "r");
        }
        _ => panic!("expected a dismissal"),
    }
    let mut state = AppState::default();
    state.connected = true;
    let effects = handle_opencode_event(&mut state, Event::ServerConnected);
    assert!(effects.is_empty());
    assert!(state.connected);
}
