use openpad::actions::AppAction;
use openpad::reducer::{reduce_app_state, reduce_app_state_at, resolve_pending_center_intent, upsert_file_tab, upsert_session_tab};
use openpad::secret::ExtraMaskedMap;
use openpad::state::{AppState, AttachedFile, CenterTabKind, LiveId, OpenFileState, PendingCenterIntent, StateEffect, UnsavedDecision};
use openpad::tabs::CenterDecision;
use openpad::strmap::StrMap;
use openpad::types::{
    AssistantError, AssistantMessage, HealthResponse, Message, MessageTime, MessageWithParts, PermissionReply,
    PermissionRequest, Session, SessionTime, UserMessage,
};

fn user_message(session_id: &str, id: &str) -> MessageWithParts {
    MessageWithParts {
        info: Message::User(UserMessage {
            id: id.to_string(),
            session_id: session_id.to_string(),
            time: MessageTime { created: 1, completed: Some(1) },
            summary: None,
            format: None,
            agent: String::new(),
            model: None,
            system: None,
            tools: None,
            variant: None,
        }),
        parts: vec![],
    }
}

fn assistant_message(session_id: &str, id: &str, completed: Option<i64>) -> Message {
    Message::Assistant(AssistantMessage {
        id: id.to_string(),
        session_id: session_id.to_string(),
        time: MessageTime { created: 1, completed },
        error: None,
        parent_id: String::new(),
        model_id: String::new(),
        provider_id: String::new(),
        mode: String::new(),
        agent: String::new(),
        path: None,
        summary: None,
        cost: 0.0f64.to_bits(),
        tokens: None,
        structured: None,
        variant: None,
        finish: None,
    })
}

fn session(id: &str) -> Session {
    Session {
        id: id.to_string(),
        slug: String::new(),
        project_id: "p".to_string(),
        directory: "/tmp".to_string(),
        parent_id: None,
        title: String::new(),
        version: String::new(),
        time: SessionTime { created: 1, updated: 1, compacting: None, archived: None },
        summary: None,
        share: None,
        permission: None,
        revert: None,
    }
}

fn request(id: &str, permission: &str) -> PermissionRequest {
    PermissionRequest {
        id: id.to_string(),
        session_id: "s1".to_string(),
        permission: permission.to_string(),
        patterns: vec!["*".to_string()],
        metadata: ExtraMaskedMap::new(),
        always: vec![],
        tool: None,
    }
}

#[test]
fn messages_loaded_routes_to_target_session_cache() {
    let mut state = AppState::default();
    state.current_session_id = Some("s1".to_string());
    state.messages_by_session.insert("s1".to_string(), vec![user_message("s1", "m1")]);

    let action = AppAction::MessagesLoaded {
        session_id: "s2".to_string(),
        messages: vec![user_message("s2", "m2")],
    };

    let effects = reduce_app_state(&mut state, action);

    assert_eq!(state.messages_for_session("s1").len(), 1);
    assert_eq!(state.messages_for_session("s2").len(), 1);
    assert_eq!(effects.len(), 1);
}

#[test]
fn message_received_updates_working_for_target_session() {
    let mut state = AppState::default();
    state.current_session_id = Some("s1".to_string());

    reduce_app_state(&mut state, AppAction::MessageReceived(assistant_message("s1", "a1", None)));

    assert_eq!(state.working_by_session.get("s1").copied(), Some(true));
    assert!(state.is_working);
    assert_eq!(state.messages_for_session("s1").len(), 1);
}

#[test]
fn pending_permission_received_dedupes_by_id() {
    let mut state = AppState::default();

    reduce_app_state(&mut state, AppAction::PendingPermissionReceived(request("perm-1", "read")));
    reduce_app_state(&mut state, AppAction::PendingPermissionReceived(request("perm-1", "read")));

    assert_eq!(state.pending_permissions.len(), 1);
}

#[test]
fn permission_responded_removes_pending_request() {
    let mut state = AppState::default();
    state.pending_permissions.push(request("perm-2", "edit"));

    reduce_app_state(
        &mut state,
        AppAction::PermissionResponded {
            session_id: "s1".to_string(),
            request_id: "perm-2".to_string(),
            reply: PermissionReply::Once,
        },
    );

    assert!(state.pending_permissions.is_empty());
}

#[test]
fn session_loaded_preserves_active_when_already_set() {
    let mut state = AppState::default();
    state.current_session_id = Some("active".to_string());
    let loaded = session("loaded");

    reduce_app_state(&mut state, AppAction::SessionLoaded(loaded.clone()));

    assert_eq!(state.current_session_id.as_deref(), Some("active"));
    assert!(state.sessions.iter().any(|s| s.id == loaded.id));
}

#[test]
fn upsert_session_tab_dedupes_existing() {
    let mut map = StrMap::new();
    let existing = LiveId(11);
    map.insert("s1".to_string(), existing);

    let (tab, created) = upsert_session_tab(&mut map, "s1".to_string(), LiveId(12));

    assert_eq!(tab, existing);
    assert!(!created);
    assert_eq!(map.len(), 1);
}

#[test]
fn upsert_file_tab_creates_when_missing() {
    let mut map = StrMap::new();

    let (tab, created) = upsert_file_tab(&mut map, "/tmp/a.rs".to_string(), LiveId(77));

    assert_eq!(tab, LiveId(77));
    assert!(created);
    assert_eq!(map.get("/tmp/a.rs").copied(), Some(LiveId(77)));
}

#[test]
fn upsert_session_tab_creates_when_missing() {
    let mut map = StrMap::new();

    let (tab, created) = upsert_session_tab(&mut map, "s2".to_string(), LiveId(31));

    assert_eq!(tab, LiveId(31));
    assert!(created);
    assert_eq!(map.get("s2").copied(), Some(LiveId(31)));
}

#[test]
fn upsert_file_tab_dedupes_existing() {
    let mut map = StrMap::new();
    let existing = LiveId(90);
    map.insert("/tmp/a.rs".to_string(), existing);

    let (tab, created) = upsert_file_tab(&mut map, "/tmp/a.rs".to_string(), LiveId(91));

    assert_eq!(tab, existing);
    assert!(!created);
    assert_eq!(map.len(), 1);
}

#[test]
fn pending_intent_resolution_respects_cancel() {
    let intent = Some(PendingCenterIntent::CloseTab { tab_id: LiveId(9) });
    assert!(resolve_pending_center_intent(intent.clone(), UnsavedDecision::Cancel).is_none());
    assert!(matches!(
        resolve_pending_center_intent(intent, UnsavedDecision::Save),
        Some(PendingCenterIntent::CloseTab { tab_id: LiveId(9) })
    ));
}

#[test]
fn session_deleted_cleans_session_maps() {
    let mut state = AppState::default();
    state.current_session_id = Some("s1".to_string());
    state.selected_session_id = Some("s1".to_string());
    state.messages_by_session.insert("s1".to_string(), vec![user_message("s1", "m1")]);
    state.working_by_session.insert("s1".to_string(), true);
    state.tab_by_session.insert("s1".to_string(), LiveId(2));
    state.sessions.push(session("s1"));
    state.center_tabs_by_id.insert(
        LiveId(100),
        CenterTabKind::File {
            open_file: OpenFileState {
                project_id: "p".to_string(),
                absolute_path: "/tmp/a.rs".to_string(),
                display_name: "a.rs".to_string(),
                text_cache: "".to_string(),
                last_saved_revision: 0,
            },
        },
    );

    reduce_app_state(&mut state, AppAction::SessionDeleted("s1".to_string()));

    assert_eq!(state.current_session_id, None);
    assert_eq!(state.selected_session_id, None);
    assert!(!state.messages_by_session.contains_key("s1"));
    assert!(!state.working_by_session.contains_key("s1"));
    assert!(!state.tab_by_session.contains_key("s1"));
    assert!(state.sessions.is_empty());
}

#[test]
fn health_update_unhealthy_clears_connected_and_working() {
    let mut state = AppState::default();
    state.connected = true;
    state.is_working = true;

    reduce_app_state(
        &mut state,
        AppAction::HealthUpdated(HealthResponse { healthy: false, version: String::new() }),
    );

    assert_eq!(state.health_ok, Some(false));
    assert!(!state.connected);
    assert!(!state.is_working);
}

#[test]
fn messages_loaded_asks_for_the_diff_of_the_last_user_message() {
    let mut state = AppState::default();
    let effects = reduce_app_state(
        &mut state,
        AppAction::MessagesLoaded {
            session_id: "s9".to_string(),
            messages: vec![user_message("s9", "u1"), user_message("s9", "u2")],
        },
    );
    assert_eq!(effects.len(), 1);
    match &effects[0] {
        StateEffect::RequestSessionDiff { session_id, message_id } => {
            assert_eq!(session_id, "s9");
            assert_eq!(message_id.as_deref(), Some("u2"));
        }
    }
}

#[test]
fn session_error_for_the_current_session_adds_an_error_reply() {
    let mut state = AppState::default();
    state.current_session_id = Some("s1".to_string());
    state.is_working = true;
    reduce_app_state_at(
        &mut state,
        AppAction::SessionErrorReceived {
            session_id: "s1".to_string(),
            error: AssistantError::UnknownError { message: "boom".to_string() },
        },
        1234,
    );
    assert!(!state.is_working);
    let msgs = state.messages_for_session("s1");
    assert_eq!(msgs.len(), 1);
    match &msgs[0].info {
        Message::Assistant(a) => {
            assert_eq!(a.time.created, 1234);
            assert!(a.error.is_some());
        }
        Message::User(_) => panic!("expected an assistant message"),
    }
}

#[test]
fn assistant_message_for_another_session_leaves_the_indicator() {
    let mut state = AppState::default();
    state.current_session_id = Some("s1".to_string());
    reduce_app_state(&mut state, AppAction::MessageReceived(assistant_message("s2", "a1", None)));
    assert_eq!(state.working_by_session.get("s2").copied(), Some(true));
    assert!(!state.is_working);
    reduce_app_state(&mut state, AppAction::MessageReceived(assistant_message("s2", "a1", Some(5))));
    assert_eq!(state.working_by_session.get("s2").copied(), Some(false));
    assert_eq!(state.messages_for_session("s2").len(), 1);
}

#[test]
fn permission_dismissed_keeps_other_requests() {
    let mut state = AppState::default();
    state.pending_permissions.push(request("a", "read"));
    state.pending_permissions.push(request("b", "edit"));
    reduce_app_state(
        &mut state,
        AppAction::PermissionDismissed { session_id: "s1".to_string(), request_id: "a".to_string() },
    );
    assert_eq!(state.pending_permissions.len(), 1);
    assert_eq!(state.pending_permissions[0].id, "b");
}

#[test]
fn center_tabs_open_and_close() {
    let mut state = AppState::default();
    let home = LiveId(1);
    state.active_center_tab = Some(home);
    state.add_chat_tab(LiveId(7), "s1".to_string());
    assert_eq!(state.active_center_tab, Some(LiveId(7)));
    assert_eq!(state.tab_by_session.get("s1").copied(), Some(LiveId(7)));
    assert!(matches!(state.center_tabs_by_id.get(&LiveId(7)), Some(CenterTabKind::Chat { .. })));
    let file = OpenFileState {
        project_id: "p".to_string(),
        absolute_path: "/w/a.rs".to_string(),
        display_name: "a.rs".to_string(),
        text_cache: String::new(),
        last_saved_revision: 0,
    };
    state.add_file_tab(LiveId(9), file);
    assert_eq!(state.tab_by_file.get("/w/a.rs").copied(), Some(LiveId(9)));
    assert_eq!(state.active_center_tab, Some(LiveId(7)));
    state.forget_center_tab(LiveId(9), home);
    assert!(state.tab_by_file.get("/w/a.rs").is_none());
    assert_eq!(state.active_center_tab, Some(LiveId(7)));
    state.forget_center_tab(LiveId(7), home);
    assert!(state.tab_by_session.get("s1").is_none());
    assert_eq!(state.center_tabs_by_id.len(), 0);
    assert_eq!(state.active_center_tab, Some(home));
    state.forget_center_tab(LiveId(42), LiveId(3));
    assert_eq!(state.active_center_tab, Some(home));
}

#[test]
fn chat_tab_shows_the_sessions_messages_and_requests() {
    let mut state = AppState::default();
    state.sessions.push(session("s1"));
    state.messages_by_session.insert("s1".to_string(), vec![user_message("s1", "m1")]);
    state.working_by_session.insert("s1".to_string(), true);
    state.pending_permissions = vec![request("r1", "bash"), request("r2", "edit")];
    state.pending_permissions[1].session_id = "s2".to_string();
    let list = state.chat_tab_list("s1");
    assert!(list.is_working);
    assert!(list.revert_message_id.is_none());
    assert_eq!(list.pending_permissions.len(), 1);
    assert_eq!(list.pending_permissions[0].request_id, "r1");
    assert_eq!(list.pending_permissions[0].permission, "bash");
    assert_eq!(list.pending_permissions[0].patterns, vec!["*".to_string()]);
    let other = state.chat_tab_list("nobody");
    assert!(other.messages.is_empty());
    assert!(!other.is_working);
    assert!(other.pending_permissions.is_empty());
}

#[test]
fn active_tab_picks_the_current_session() {
    let mut state = AppState::default();
    state.add_chat_tab(LiveId(5), "s9".to_string());
    state.sync_active_center();
    assert_eq!(state.current_session_id.as_deref(), Some("s9"));
    assert_eq!(state.selected_session_id.as_deref(), Some("s9"));
    state.active_center_tab = Some(LiveId(6));
    state.sync_active_center();
    assert_eq!(state.current_session_id, None);
    assert_eq!(state.selected_session_id.as_deref(), Some("s9"));
}

fn open_file(path: &str, text: &str) -> OpenFileState {
    OpenFileState {
        project_id: "p".to_string(),
        absolute_path: path.to_string(),
        display_name: "f".to_string(),
        text_cache: text.to_string(),
        last_saved_revision: 0,
    }
}

#[test]
fn file_tabs_track_unsaved_edits() {
    let mut state = AppState::default();
    state.add_file_tab(LiveId(3), open_file("/w/a.rs", "one"));
    assert_eq!(state.current_active_file_tab_id(), None);
    state.active_center_tab = Some(LiveId(3));
    assert_eq!(state.current_active_file_tab_id(), Some(LiveId(3)));
    assert!(!state.file_tab_is_dirty(LiveId(3), "one"));
    assert!(state.file_tab_is_dirty(LiveId(3), "two"));
    assert!(!state.file_tab_is_dirty(LiveId(8), "two"));
    state.record_file_saved(LiveId(3), "two".to_string());
    assert!(!state.file_tab_is_dirty(LiveId(3), "two"));
    match state.center_tabs_by_id.get(&LiveId(3)) {
        Some(CenterTabKind::File { open_file }) => {
            assert_eq!(open_file.last_saved_revision, 1);
            assert_eq!(open_file.absolute_path, "/w/a.rs");
        }
        _ => panic!("expected a file tab"),
    }
    state.record_save_failure("/w/a.rs", "denied");
    assert_eq!(state.error_message.as_deref(), Some("Failed to save /w/a.rs: denied"));
}

#[test]
fn center_changes_wait_for_unsaved_edits() {
    let home = LiveId(1);
    let mut state = AppState::default();
    state.add_file_tab(LiveId(3), open_file("/w/a.rs", "one"));
    state.active_center_tab = Some(LiveId(3));
    let open = PendingCenterIntent::OpenSession { session_id: "s".to_string() };
    assert!(matches!(state.decide_center_intent(open.clone(), home, false, false), CenterDecision::RunNow(_)));
    assert!(matches!(state.decide_center_intent(open, home, true, false), CenterDecision::Queued));
    assert!(matches!(state.pending_center_intent, Some(PendingCenterIntent::OpenSession { .. })));
    assert!(matches!(state.take_pending_center_intent(), Some(PendingCenterIntent::OpenSession { .. })));
    assert!(state.pending_center_intent.is_none());
    let same = PendingCenterIntent::SwitchTab { tab_id: LiveId(3) };
    assert!(matches!(state.decide_center_intent(same, home, true, false), CenterDecision::RunNow(_)));
    let close_home = PendingCenterIntent::CloseTab { tab_id: home };
    assert!(matches!(state.decide_center_intent(close_home, home, true, true), CenterDecision::Ignored));
    let close_file = PendingCenterIntent::CloseTab { tab_id: LiveId(3) };
    assert!(matches!(state.decide_center_intent(close_file.clone(), home, false, true), CenterDecision::Queued));
    let mut fresh = AppState::default();
    assert!(matches!(fresh.decide_center_intent(close_file, home, true, true), CenterDecision::RunNow(_)));
}

#[test]
fn attachment_names_are_listed() {
    let mut state = AppState::default();
    assert!(state.attachments_label().is_none());
    for name in ["a.png", "b.txt"] {
        state.attached_files.push(AttachedFile {
            filename: name.to_string(),
            mime_type: String::new(),
            data_url: String::new(),
            raw_text: None,
        });
    }
    assert_eq!(state.attachments_label().as_deref(), Some("a.png, b.txt"));
}

#[test]
fn sessions_keep_one_entry_per_id() {
    let mut state = AppState::default();
    reduce_app_state(&mut state, AppAction::SessionLoaded(session("a")));
    reduce_app_state(&mut state, AppAction::SessionCreated(session("b")));
    let mut again = session("a");
    again.title = "renamed".to_string();
    reduce_app_state(&mut state, AppAction::SessionLoaded(again));
    reduce_app_state(&mut state, AppAction::SessionCreated(session("b")));
    reduce_app_state(&mut state, AppAction::SessionUpdated(session("b")));

    let ids: Vec<&str> = state.sessions.iter().map(|s| s.id.as_str()).collect();
    assert_eq!(ids, vec!["a", "b"]);
    assert_eq!(state.sessions[0].title, "renamed");
}
