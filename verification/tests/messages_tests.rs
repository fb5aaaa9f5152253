use openpad::working::{format_step_row_header, message_shows_stats, text_needs_markdown, working_activity, working_timer_text};
use openpad::messages::{rebuild_from_parts, DisplayMessage, DisplayStep, MessageList, MessageListRef, PendingPermissionDisplay, StepDetail};
use openpad::secret::ExtraMaskedMap;
use openpad::steps::{
    extract_path, format_path, format_step_body, format_steps_aggregated, format_steps_detailed, format_tool_input,
    format_tool_name, get_step_description, get_tool_icon, steps_button_label, steps_summary_text, thinking_icon,
};
use openpad::types::{
    AssistantError, AssistantMessage, FileDiff, Message, MessageSummary, MessageTime, MessageWithParts, Part, ToolState,
    ToolStateTime, UserMessage,
};

fn text_part(text: &str) -> Part {
    Part::Text {
        id: "p".to_string(),
        session_id: "s".to_string(),
        message_id: "m".to_string(),
        text: text.to_string(),
        synthetic: None,
        ignored: None,
        time: None,
        metadata: None,
    }
}

fn step_start() -> Part {
    Part::StepStart { id: "ss".to_string(), session_id: "s".to_string(), message_id: "m".to_string(), snapshot: None }
}

fn step_finish(reason: &str) -> Part {
    Part::StepFinish {
        id: "sf".to_string(),
        session_id: "s".to_string(),
        message_id: "m".to_string(),
        reason: reason.to_string(),
        snapshot: None,
        cost: 0,
        tokens: None,
    }
}

fn tool_part(tool: &str, state: ToolState) -> Part {
    Part::Tool {
        id: "t".to_string(),
        session_id: "s".to_string(),
        message_id: "m".to_string(),
        call_id: "c".to_string(),
        tool: tool.to_string(),
        state,
        metadata: None,
    }
}

fn completed(output: &str) -> ToolState {
    ToolState::Completed {
        input: ExtraMaskedMap::new(),
        output: output.to_string(),
        title: String::new(),
        metadata: ExtraMaskedMap::new(),
        time: ToolStateTime { start: None, end: None, compacted: None },
        attachments: vec![],
    }
}

fn user(id: &str, parts: Vec<Part>, diffs: Vec<FileDiff>) -> MessageWithParts {
    MessageWithParts {
        info: Message::User(UserMessage {
            id: id.to_string(),
            session_id: "s".to_string(),
            time: MessageTime { created: 10, completed: None },
            summary: if diffs.is_empty() {
                None
            } else {
                Some(MessageSummary { title: String::new(), body: String::new(), diffs })
            },
            format: None,
            agent: String::new(),
            model: None,
            system: None,
            tools: None,
            variant: None,
        }),
        parts,
    }
}

fn assistant(id: &str, parts: Vec<Part>, completed: Option<i64>, error: Option<AssistantError>) -> MessageWithParts {
    MessageWithParts {
        info: Message::Assistant(AssistantMessage {
            id: id.to_string(),
            session_id: "s".to_string(),
            time: MessageTime { created: 100, completed },
            error,
            parent_id: String::new(),
            model_id: "gpt".to_string(),
            provider_id: String::new(),
            mode: String::new(),
            agent: String::new(),
            path: None,
            summary: None,
            cost: 0,
            tokens: None,
            structured: None,
            variant: None,
            finish: None,
        }),
        parts,
    }
}

fn detail(tool: &str, input: &str, result: &str, running: bool) -> StepDetail {
    StepDetail { tool: tool.to_string(), input_summary: input.to_string(), result: result.to_string(), is_running: running }
}

fn step(reason: &str, details: Vec<StepDetail>, running: bool) -> DisplayStep {
    DisplayStep { reason: reason.to_string(), cost: 0, tokens: None, details, expanded: false, has_error: false, has_running: running }
}

fn message_with(steps: Vec<DisplayStep>, show: bool) -> DisplayMessage {
    DisplayMessage {
        role: "assistant".to_string(),
        text: String::new(),
        message_id: None,
        timestamp: None,
        model_id: None,
        tokens: None,
        cost: None,
        error_text: None,
        is_error: false,
        diffs: vec![],
        show_diffs: false,
        steps,
        show_steps: show,
        duration_ms: None,
    }
}

#[test]
fn messages_show_text_and_skip_empty_ones() {
    let ms = vec![user("u1", vec![text_part("hello"), text_part("world")], vec![]), user("u2", vec![], vec![])];
    let shown = rebuild_from_parts(&ms);
    assert_eq!(shown.len(), 1);
    assert_eq!(shown[0].role, "user");
    assert_eq!(shown[0].text, "hello\nworld");
    assert_eq!(shown[0].message_id.as_deref(), Some("u1"));
    assert_eq!(shown[0].timestamp, Some(10));
}

#[test]
fn steps_only_replies_merge_into_the_next_reply() {
    let d = FileDiff { file: "f".to_string(), before: String::new(), after: "x".to_string(), additions: 1, deletions: 0, status: None };
    let ms = vec![
        user("u1", vec![text_part("do it")], vec![d]),
        assistant("a1", vec![step_start(), tool_part("read", completed("ok")), step_finish("tool-calls")], Some(160), None),
        assistant("a2", vec![step_start(), step_finish("stop"), text_part("done")], Some(130), None),
    ];
    let shown = rebuild_from_parts(&ms);
    assert_eq!(shown.len(), 2);
    assert_eq!(shown[1].text, "done");
    assert_eq!(shown[1].steps.len(), 2);
    assert_eq!(shown[1].steps[0].reason, "tool-calls");
    assert_eq!(shown[1].steps[0].details.len(), 1);
    assert_eq!(shown[1].steps[0].details[0].result, "ok");
    assert_eq!(shown[1].steps[1].reason, "stop");
    assert_eq!(shown[1].duration_ms, Some(30));
    assert_eq!(shown[1].model_id.as_deref(), Some("gpt"));
    assert!(shown[1].diffs.is_empty());
    assert!(!shown[1].show_steps);
}

#[test]
fn reply_shows_diffs_of_the_user_message_before_it() {
    let d = FileDiff { file: "f".to_string(), before: String::new(), after: "x".to_string(), additions: 1, deletions: 0, status: None };
    let ms = vec![user("u1", vec![text_part("go")], vec![d]), assistant("a1", vec![text_part("ok")], None, None)];
    let shown = rebuild_from_parts(&ms);
    assert_eq!(shown.len(), 2);
    assert!(shown[0].diffs.is_empty());
    assert_eq!(shown[1].diffs.len(), 1);
    assert_eq!(shown[1].diffs[0].file, "f");
}

#[test]
fn erroring_reply_without_text_says_so() {
    let ms = vec![assistant("a1", vec![], None, Some(AssistantError::MessageOutputLengthError))];
    let shown = rebuild_from_parts(&ms);
    assert_eq!(shown.len(), 1);
    assert_eq!(shown[0].text, "Assistant error");
    assert!(shown[0].is_error);
    assert!(shown[0].error_text.as_deref().unwrap().starts_with("Message exceeded output length."));
}

#[test]
fn trailing_steps_only_reply_is_shown_unfolded_later() {
    let ms = vec![assistant("a1", vec![step_start(), tool_part("bash", ToolState::Pending { input: ExtraMaskedMap::new(), raw: String::new() })], None, None)];
    let shown = rebuild_from_parts(&ms);
    assert_eq!(shown.len(), 1);
    assert_eq!(shown[0].text, "");
    assert_eq!(shown[0].steps.len(), 1);
    assert!(shown[0].steps[0].has_running);
    assert_eq!(shown[0].steps[0].details[0].result, "(pending)");
    assert!(!shown[0].show_steps);
}

#[test]
fn tool_names_and_icons() {
    assert_eq!(format_tool_name("apply_patch"), "Applying changes");
    assert_eq!(format_tool_name("cat"), "Viewing file");
    assert_eq!(format_tool_name("custom"), "custom");
    assert_eq!(get_tool_icon("ls"), "📁");
    assert_eq!(get_tool_icon("cat"), "📄");
    assert_eq!(get_tool_icon("other"), "•");
}

#[test]
fn paths_and_inputs() {
    assert_eq!(extract_path("path=src/lib.rs offset=3").as_deref(), Some("src/lib.rs"));
    assert_eq!(extract_path("path= x"), None);
    assert_eq!(extract_path("nothing"), None);
    assert_eq!(format_path("short/path.rs"), "short/path.rs");
    assert_eq!(format_path("/a/very/long/path/that/goes/on/and/on/forever/file.rs"), ".../file.rs");
    assert_eq!(format_tool_input(""), "");
    assert_eq!(format_tool_input("path=a.rs offset=10 limit=50"), "a.rs @ 10");
    assert_eq!(format_tool_input("limit=20 command=ls"), "limit 20 cmd: ls");
    let long = "x".repeat(60);
    assert_eq!(format_tool_input(&long), format!("{}...", "x".repeat(47)));
}

#[test]
fn step_descriptions() {
    assert_eq!(get_step_description(&step("", vec![], false)), "Working...");
    assert_eq!(get_step_description(&step("stop", vec![], true)), "⏳ stop");
    assert_eq!(get_step_description(&step("", vec![detail("read", "path=a.rs", "ok", false)], false)), "Reading a.rs");
    assert_eq!(
        get_step_description(&step("", vec![detail("read", "", "ok", false), detail("grep", "", "ok", false)], false)),
        "Reading 2 files"
    );
    assert_eq!(
        get_step_description(&step("", vec![detail("read", "", "ok", false), detail("write", "", "ok", false)], false)),
        "Reading and modifying files"
    );
    assert_eq!(get_step_description(&step("", vec![detail("bash_run", "", "ok", false)], false)), "Running commands");
    assert_eq!(get_step_description(&step("", vec![detail("ls", "", "ok", false)], false)), "Listing directory");
    assert_eq!(
        get_step_description(&step("", vec![detail("a", "", "", false), detail("b", "", "", false)], false)),
        "2 operations"
    );
}

#[test]
fn step_bodies_and_lists() {
    let s = step("stop", vec![detail("read", "path=a.rs", "ok", false), detail("bash", "", "", true)], false);
    assert_eq!(format_step_body(&s, &vec![]), "📄 Reading file a.rs → ok\n⏳ bash ...");
    assert_eq!(format_step_body(&s, &vec!["Cost: $0.0100".to_string(), "t".to_string()]), "📄 Reading file a.rs → ok\n⏳ bash ...\nCost: $0.0100 · t");
    assert_eq!(format_step_body(&step("", vec![], false), &vec![]), "—");
    assert_eq!(format_step_body(&step("why", vec![], false), &vec![]), "why");
    let steps = vec![step("a", vec![detail("read", "p", "r", false)], false), step("", vec![], false)];
    assert_eq!(format_steps_detailed(&steps), "Step 1: a\n  • read p → r\nStep 2");
    let many: Vec<DisplayStep> = (0..12).map(|_| step("x", vec![], false)).collect();
    assert!(format_steps_detailed(&many).ends_with("Step 10: x\n… 2 more steps"));
    assert_eq!(format_steps_aggregated(&vec![]), "");
    let agg = vec![step("stop", vec![], false), step("", vec![], false), step("stop", vec![], false)];
    assert_eq!(format_steps_aggregated(&agg), "3 steps: 2× stop, step");
    assert_eq!(format_steps_aggregated(&vec![step("", vec![], false)]), "1 step: step");
}

#[test]
fn step_summary_line() {
    let m = message_with(vec![step("", vec![detail("ls", "", "", false)], false), step("stop", vec![], true)], true);
    assert_eq!(steps_summary_text(&m, None), "Running: 2 • Listing directory, ⏳ stop");
    assert_eq!(steps_summary_text(&m, Some("3s")), "Running: 2 • Listing directory, ⏳ stop • 3s");
    assert_eq!(steps_summary_text(&message_with(vec![], false), None), "");
    assert_eq!(steps_button_label(&m), "▾ Details");
    assert_eq!(steps_button_label(&message_with(vec![], false)), "▸ Details");
    assert_eq!(thinking_icon(0), "◐");
    assert_eq!(thinking_icon(9), "◕");
}

fn permission(id: &str) -> PendingPermissionDisplay {
    PendingPermissionDisplay {
        session_id: "s".to_string(),
        request_id: id.to_string(),
        permission: "bash".to_string(),
        patterns: vec!["*".to_string()],
    }
}

#[test]
fn message_list_unfolds_a_working_last_reply() {
    let mut list = MessageList::new();
    let ms = vec![assistant("a1", vec![step_start(), tool_part("bash", ToolState::Pending { input: ExtraMaskedMap::new(), raw: String::new() })], None, None)];
    list.set_messages(&ms, Some("r1".to_string()));
    assert_eq!(list.messages.len(), 1);
    assert!(list.messages[0].show_steps);
    assert_eq!(list.revert_message_id.as_deref(), Some("r1"));
}

#[test]
fn message_list_keeps_steps_unfolded_while_streaming() {
    let mut list = MessageListRef::new();
    list.messages.push(message_with(vec![step("", vec![], true)], true));
    let ms = vec![assistant("a1", vec![step_start(), tool_part("read", completed("ok"))], None, None)];
    list.set_messages(&ms, None);
    assert_eq!(list.messages.len(), 1);
    assert!(!list.messages[0].steps[0].has_running);
    assert!(list.messages[0].show_steps);
    let mut fresh = MessageList::new();
    fresh.set_messages(&ms, None);
    assert!(!fresh.messages[0].show_steps);
}

#[test]
fn message_list_appends_streamed_text() {
    let mut list = MessageList::new();
    list.messages.push(message_with(vec![step("", vec![], false)], true));
    list.append_text_for_message("assistant", "a1", "Hel");
    assert_eq!(list.messages.len(), 1);
    assert_eq!(list.messages[0].text, "Hel");
    assert!(!list.messages[0].show_steps);
    list.append_text_for_message("assistant", "a1", "lo");
    assert_eq!(list.messages[0].text, "Hello");
    list.append_text_for_message("user", "u9", "next");
    assert_eq!(list.messages.len(), 2);
    assert_eq!(list.messages[1].role, "user");
    assert_eq!(list.messages[1].message_id.as_deref(), Some("u9"));
    assert_eq!(list.messages[1].timestamp, None);
}

#[test]
fn message_list_user_messages_and_clear() {
    let mut list = MessageList::new();
    list.add_user_message_at("hi", 1234);
    assert_eq!(list.messages.len(), 1);
    assert_eq!(list.messages[0].role, "user");
    assert_eq!(list.messages[0].text, "hi");
    assert_eq!(list.messages[0].timestamp, Some(1234));
    assert_eq!(list.messages[0].message_id, None);
    list.add_user_message("again");
    assert_eq!(list.messages.len(), 2);
    assert!(list.messages[1].timestamp.unwrap() > 1234);
    list.set_working(true);
    assert!(list.is_working);
    list.clear();
    assert!(list.messages.is_empty());
    assert!(list.is_working);
}

#[test]
fn message_list_permissions() {
    let mut list = MessageList::new();
    list.set_pending_permissions(vec![permission("p1"), permission("p2"), permission("p1"), permission("p3")]);
    assert_eq!(list.pending_permissions.len(), 4);
    list.remove_permission("p1");
    let ids: Vec<&str> = list.pending_permissions.iter().map(|p| p.request_id.as_str()).collect();
    assert_eq!(ids, vec!["p2", "p3"]);
    list.remove_permission("zz");
    assert_eq!(list.pending_permissions.len(), 2);
}

#[test]
fn message_list_session_diffs_go_to_the_last_reply() {
    let d = FileDiff { file: "f".to_string(), before: String::new(), after: "x".to_string(), additions: 1, deletions: 0, status: None };
    let mut list = MessageList::new();
    let mut reply = message_with(vec![], false);
    reply.text = "r".to_string();
    reply.show_diffs = true;
    list.messages.push(reply);
    list.add_user_message_at("more", 5);
    list.set_session_diffs(&vec![d]);
    assert_eq!(list.messages[0].diffs.len(), 1);
    assert_eq!(list.messages[0].diffs[0].file, "f");
    assert!(list.messages[0].show_diffs);
    assert!(list.messages[1].diffs.is_empty());
    list.set_session_diffs(&vec![]);
    assert!(list.messages[0].diffs.is_empty());
    assert!(!list.messages[0].show_diffs);
    let mut users_only = MessageList::new();
    users_only.add_user_message_at("x", 1);
    users_only.set_session_diffs(&vec![]);
    assert_eq!(users_only.messages.len(), 1);
}

#[test]
fn working_card_activity() {
    let (text, rows) = working_activity(None);
    assert_eq!(text, "Working...");
    assert!(rows.is_empty());
    let running = message_with(
        vec![step(
            "",
            vec![
                detail("read", "filePath=/a/b/c.rs", "", true),
                detail("grep", "", "done", false),
                detail("bash", "command=ls", "", true),
                detail("write", "", "", true),
                detail("ls", "", "", true),
            ],
            true,
        )],
        true,
    );
    let (text, rows) = working_activity(Some(&running));
    assert_eq!(text, "Running: Reading file, bash, Writing file");
    assert_eq!(rows.len(), 4);
    assert_eq!(rows[0].0, "📄");
    assert_eq!(rows[0].1, "Reading file");
    assert_eq!(rows[1].2, "cmd: ls");
    let idle = message_with(vec![step("stop", vec![detail("grep", "", "x", false)], false)], false);
    let (text, rows) = working_activity(Some(&idle));
    assert_eq!(text, "Working on: Reading files");
    assert!(rows.is_empty());
    let no_steps = message_with(vec![], false);
    assert_eq!(working_activity(Some(&no_steps)).0, "Working...");
}

#[test]
fn working_card_timer_and_markdown() {
    assert_eq!(working_timer_text(0), "");
    assert_eq!(working_timer_text(125), "· 2m, 5s");
    assert_eq!(working_timer_text(59), "· 0m, 59s");
    assert!(text_needs_markdown("use `x`"));
    assert!(text_needs_markdown("# Title"));
    assert!(text_needs_markdown("> quoted"));
    assert!(!text_needs_markdown("plain #hash and a>b"));
}

#[test]
fn message_rows_show_stats_reverts_and_working_card() {
    let mut list = MessageList::new();
    let mut reply = message_with(vec![step("stop", vec![], false)], false);
    reply.message_id = Some("a1".to_string());
    reply.cost = Some(5);
    assert!(message_shows_stats(&reply));
    reply.show_steps = true;
    assert!(!message_shows_stats(&reply));
    reply.show_steps = false;
    list.messages.push(reply);
    list.add_user_message_at("next", 1);
    assert_eq!(list.last_reply_index(), Some(0));
    assert!(list.shows_revert(0));
    assert!(!list.shows_revert(1));
    list.revert_message_id = Some("a1".to_string());
    assert!(list.shows_revert(0));
    list.revert_message_id = Some("u0".to_string());
    assert!(!list.shows_revert(0));
    assert!(!list.shows_working_card());
    list.set_working(true);
    assert!(list.shows_working_card());
    assert_eq!(list.item_count(), 3);
    list.messages[0].steps[0].has_running = true;
    assert!(!list.shows_working_card());
    let mut s = step("", vec![detail("read", "", "", false)], false);
    assert_eq!(format_step_row_header(&s), "▸ Reading files");
    s.expanded = true;
    assert_eq!(format_step_row_header(&s), "▾ Reading files");
}

#[test]
fn message_rows_fold_and_unfold() {
    let d = FileDiff { file: "f".to_string(), before: String::new(), after: "x".to_string(), additions: 1, deletions: 0, status: None };
    let mut list = MessageList::new();
    let mut reply = message_with(vec![step("a", vec![], false), step("b", vec![], false)], false);
    reply.diffs = vec![d];
    list.messages.push(reply);
    list.add_user_message_at("plain", 1);
    list.toggle_steps(0);
    assert!(list.messages[0].show_steps);
    list.toggle_steps(0);
    assert!(!list.messages[0].show_steps);
    list.toggle_steps(1);
    assert!(!list.messages[1].show_steps);
    list.toggle_steps(7);
    list.toggle_diffs(0);
    assert!(list.messages[0].show_diffs);
    list.toggle_diffs(1);
    assert!(!list.messages[1].show_diffs);
    list.toggle_step(0, 1);
    assert!(list.messages[0].steps[1].expanded);
    assert!(!list.messages[0].steps[0].expanded);
    list.toggle_step(0, 1);
    assert!(!list.messages[0].steps[1].expanded);
    list.toggle_step(0, 5);
    assert_eq!(list.messages[0].steps.len(), 2);
}

#[test]
fn removed_permissions_stay_removed() {
    let mut list = MessageList::new();
    list.set_pending_permissions(vec![permission("a"), permission("b"), permission("a")]);
    list.remove_permission("a");
    list.remove_permission("a");
    assert_eq!(list.pending_permissions.len(), 1);
    assert_eq!(list.pending_permissions[0].request_id, "b");
}
