use openpad::panels::{session_diff_stats, PanelItemKind, ProjectsPanel, SessionsPanel};
use openpad::session_tree::CachedProject;
use openpad::sse::{error_body, failure_message, feed_sse, SseFeed};
use openpad::strmap::StrMap;
use openpad::types::{FileDiff, Project, ProjectTime, Session, SessionSummary, SessionTime, SessionShare};
use openpad::state::AppState;
use openpad::dialogs::{dialog_command_for, DialogCommand};
use openpad::tabs::format_summary_line;
use openpad::types::Skill;
use openpad::utils::{normalize_base_url, project_context, build_summary_markdown, get_session_directory, project_display_name_and_path, resolve_worktree, Error, RunCommandStore};

fn project(id: &str, worktree: &str, name: Option<&str>) -> Project {
    Project {
        id: id.to_string(),
        worktree: worktree.to_string(),
        vcs: None,
        name: name.map(|n| n.to_string()),
        icon: None,
        commands: None,
        time: ProjectTime { created: 0, updated: 0, initialized: None },
        sandboxes: vec![],
    }
}

fn session(id: &str, project_id: &str, title: &str, summary: Option<SessionSummary>) -> Session {
    Session {
        id: id.to_string(),
        slug: String::new(),
        project_id: project_id.to_string(),
        directory: format!("/dir/{}", id),
        parent_id: None,
        title: title.to_string(),
        version: String::new(),
        time: SessionTime { created: 1, updated: 1, compacting: None, archived: None },
        summary,
        share: None::<SessionShare>,
        permission: None,
        revert: None,
    }
}

fn summary(files: i64, additions: i64, deletions: i64, diffs: Vec<FileDiff>) -> SessionSummary {
    SessionSummary { additions, deletions, files, diffs }
}

fn panel(projects: Vec<Project>, sessions: Vec<Session>) -> ProjectsPanel {
    ProjectsPanel {
        projects,
        sessions,
        selected_session_id: Some("s2".to_string()),
        working_by_session: StrMap::new(),
        items: vec![],
        dirty: true,
        collapsed_projects: StrMap::new(),
        other_collapsed: false,
        open_menu_session_id: None,
        show_sessions: true,
        current_dir_name: "here".to_string(),
    }
}

#[test]
fn project_names() {
    assert_eq!(ProjectsPanel::derive_project_name(&project("p", "/a/b/repo", None), "cwd"), "repo");
    assert_eq!(ProjectsPanel::derive_project_name(&project("p", ".", None), "cwd"), "cwd");
    assert_eq!(ProjectsPanel::derive_project_name(&project("p", "/x", Some("Mine")), "cwd"), "Mine");
    assert_eq!(ProjectsPanel::derive_project_name(&project("p", "/x/y", Some("  ")), "cwd"), "  ");
    assert_eq!(SessionsPanel::derive_project_name(&project("p", "/x/y", Some("  ")), "cwd"), "y");
}

#[test]
fn diff_stats_of_a_summary() {
    assert!(session_diff_stats(&summary(0, 0, 0, vec![])).is_none());
    let s = session_diff_stats(&summary(1, 3, 2, vec![])).unwrap();
    assert_eq!(s, ("1 file".to_string(), "+3".to_string(), "-2".to_string()));
    let d = FileDiff { file: "a".to_string(), before: String::new(), after: String::new(), additions: 4, deletions: 1, status: None };
    let s2 = session_diff_stats(&summary(9, 9, 9, vec![d.clone(), d])).unwrap();
    assert_eq!(s2, ("2 files".to_string(), "+8".to_string(), "-2".to_string()));
}

#[test]
fn projects_panel_groups_sessions() {
    let mut p = panel(
        vec![project("p1", "/w/one", None), project("g", "/", None)],
        vec![session("s1", "p1", "First", None), session("s2", "zz", "", None), session("s3", "p1", "x", Some(summary(1, 1, 0, vec![])))],
    );
    p.working_by_session.insert("s3".to_string(), true);
    p.rebuild_items();
    assert!(!p.dirty);
    assert_eq!(p.items.len(), 6);
    match &p.items[0] {
        PanelItemKind::ProjectHeader { project_id, display_name, chevron, project_working } => {
            assert_eq!(project_id.as_deref(), Some("p1"));
            assert_eq!(display_name, "one");
            assert_eq!(chevron, "v");
            assert!(*project_working);
        }
        _ => panic!("expected a header"),
    }
    match &p.items[2] {
        PanelItemKind::SessionRow { session_id, display_title, working, summary, .. } => {
            assert_eq!(session_id, "s3");
            assert_eq!(display_title, "x");
            assert!(*working);
            assert_eq!(summary.as_ref().unwrap().0, "1 file");
        }
        _ => panic!("expected a row"),
    }
    assert!(matches!(p.items[3], PanelItemKind::Spacer));
    match &p.items[4] {
        PanelItemKind::ProjectHeader { project_id, display_name, .. } => {
            assert!(project_id.is_none());
            assert_eq!(display_name, "Other");
        }
        _ => panic!("expected the other header"),
    }
    match &p.items[5] {
        PanelItemKind::SessionRow { session_id, display_title, selected, .. } => {
            assert_eq!(session_id, "s2");
            assert_eq!(display_title, "s2");
            assert!(*selected);
        }
        _ => panic!("expected a row"),
    }
}

#[test]
fn empty_projects_panel_says_so() {
    let mut p = panel(vec![], vec![]);
    p.rebuild_items();
    assert_eq!(p.items.len(), 1);
    assert!(matches!(p.items[0], PanelItemKind::EmptyState));
}

#[test]
fn long_titles_are_cut() {
    let title = "t".repeat(50);
    let mut p = panel(vec![project("p", "/w/p", None)], vec![session("a", "p", &title, None)]);
    p.collapsed_projects.insert("nothing".to_string(), true);
    p.rebuild_items();
    match &p.items[1] {
        PanelItemKind::SessionRow { display_title, .. } => assert_eq!(display_title, &format!("{}…", "t".repeat(45))),
        _ => panic!("expected a row"),
    }
    let mut sp = SessionsPanel {
        projects: vec![],
        sessions: vec![],
        selected_session_id: Some("a".to_string()),
        working_by_session: StrMap::new(),
        current_dir_name: String::new(),
        dirty: false,
        cached_projects: vec![],
        cached_other_sessions: vec![],
    };
    sp.working_by_session.insert("a".to_string(), true);
    let long = "é".repeat(40);
    let label = sp.session_display_label(&session("a", "p", &long, Some(summary(2, 1, 1, vec![]))));
    assert_eq!(label, format!("{}…   2 files  +1  -1   ●   (selected)", "é".repeat(20)));
    let short = sp.session_display_label(&session("b", "p", "  hi  ", None));
    assert_eq!(short, "hi");
}

#[test]
fn event_stream_frames() {
    match feed_sse("data: {\"a\":1}\n", "\ndata: x\n\nrest") {
        SseFeed::Frames { data, rest } => {
            assert_eq!(data, vec!["{\"a\":1}".to_string(), "x".to_string()]);
            assert_eq!(rest, "rest");
        }
        SseFeed::Overflow => panic!("no overflow expected"),
    }
    match feed_sse("", "event: ping\n\n\n") {
        SseFeed::Frames { data, rest } => {
            assert!(data.is_empty());
            assert_eq!(rest, "\n");
        }
        SseFeed::Overflow => panic!("no overflow expected"),
    }
    let big = "x".repeat(1024 * 1024 + 1);
    assert!(matches!(feed_sse("", &big), SseFeed::Overflow));
}

#[test]
fn failed_request_messages() {
    assert_eq!(error_body(""), "no response body");
    assert_eq!(error_body("oops"), "oops");
    let long = "é".repeat(600);
    assert_eq!(error_body(&long), format!("{}... (truncated)", "é".repeat(512)));
    assert_eq!(failure_message("list sessions", "404 Not Found", "gone"), "Failed to list sessions: 404 Not Found (gone)");
}

#[test]
fn small_utilities() {
    assert_eq!(resolve_worktree(".", Some("/home/me")), "/home/me");
    assert_eq!(resolve_worktree(".", None), ".");
    assert_eq!(resolve_worktree("/w", Some("/home/me")), "/w");
    assert_eq!(project_display_name_and_path(&project("p", "/w/app", Some(" App ")), "/w/app".to_string()), ("App".to_string(), "/w/app".to_string()));
    assert_eq!(project_display_name_and_path(&project("p", "/w/app", None), "/w/app".to_string()), ("app".to_string(), "/w/app".to_string()));
    let ss = vec![session("a", "p", "", None), session("b", "p", "", None)];
    assert_eq!(get_session_directory(&ss, "b").as_deref(), Some("/dir/b"));
    assert!(get_session_directory(&ss, "c").is_none());
    let store = RunCommandStore::default_store();
    assert_eq!(store.version, 1);
    assert_eq!(store.commands.len(), 0);
    assert_eq!(RunCommandStore::default().version, 0);
    assert_eq!(Error.display_string(), "Error");
    assert_eq!(build_summary_markdown(&summary(0, 0, 0, vec![])), "_No diff details available._");
    let d = FileDiff { file: "a.rs".to_string(), before: "x".to_string(), after: "y\n".to_string(), additions: 1, deletions: 1, status: None };
    assert_eq!(
        build_summary_markdown(&summary(1, 1, 1, vec![d])),
        "#### a.rs\n\n**Before**\n```text\nx\n```\n\n**After**\n```text\ny\n```\n\n"
    );
}

fn sessions_panel() -> SessionsPanel {
    SessionsPanel {
        projects: vec![],
        sessions: vec![],
        selected_session_id: None,
        working_by_session: StrMap::new(),
        current_dir_name: "cwd".to_string(),
        dirty: false,
        cached_projects: vec![],
        cached_other_sessions: vec![],
    }
}

fn group_ids(g: &CachedProject) -> Vec<&str> {
    g.sessions.iter().map(|c| c.id.as_str()).collect()
}

#[test]
fn session_tree_groups_sessions_by_project() {
    let mut sp = sessions_panel();
    let mut working = StrMap::new();
    working.insert("s3".to_string(), true);
    sp.set_data(
        vec![project("p1", "/w/one", None), project("g", "/", None), project("p2", ".", Some("Two"))],
        vec![
            session("s1", "p1", "first", None),
            session("s2", "x", "lost", None),
            session("s3", "p2", "third", None),
            session("s4", "g", "global", None),
            session("s5", "x", "lost too", None),
            session("s6", "p1", "   ", None),
        ],
        Some("s1".to_string()),
        working,
    );
    assert!(sp.dirty);
    sp.rebuild_cache();
    assert!(!sp.dirty);
    assert_eq!(sp.cached_projects.len(), 2);
    assert_eq!(sp.cached_projects[0].id.as_deref(), Some("p1"));
    assert_eq!(sp.cached_projects[0].name, "one");
    assert_eq!(group_ids(&sp.cached_projects[0]), vec!["s1", "s6"]);
    assert_eq!(sp.cached_projects[0].sessions[0].label, "first   (selected)");
    assert_eq!(sp.cached_projects[0].sessions[1].label, "Untitled session");
    assert_eq!(sp.cached_projects[1].name, "Two");
    assert_eq!(sp.cached_projects[1].sessions[0].label, "third   ●");
    let others: Vec<&str> = sp.cached_other_sessions.iter().map(|c| c.id.as_str()).collect();
    assert_eq!(others, vec!["s2", "s5", "s4"]);
}

#[test]
fn session_tree_without_unlisted_sessions_has_no_other() {
    let mut sp = sessions_panel();
    sp.set_data(vec![project("p", "/w/p", None)], vec![session("a", "p", "t", None)], None, StrMap::new());
    sp.rebuild_cache();
    assert_eq!(sp.cached_projects.len(), 1);
    assert!(sp.cached_other_sessions.is_empty());
    let mut empty = sessions_panel();
    empty.rebuild_cache();
    assert!(empty.cached_projects.is_empty());
    assert!(empty.cached_other_sessions.is_empty());
}

#[test]
fn context_project_prefers_the_current_sessions_project() {
    let mut st = AppState::default();
    st.projects = vec![project("p", "/w/p", None), project("q", "/w/q", None), project("p", "/w/dup", None)];
    st.sessions = vec![session("s1", "p", "t", None), session("s2", "zz", "t", None)];
    assert!(st.context_project().is_none());
    st.current_project = Some(project("c", "/w/c", None));
    assert_eq!(st.context_project().unwrap().id, "c");
    st.current_session_id = Some("s1".to_string());
    assert_eq!(st.project_for_current_session().unwrap().worktree, "/w/p");
    assert_eq!(st.context_project().unwrap().id, "p");
    st.current_session_id = Some("s2".to_string());
    assert!(st.project_for_current_session().is_none());
    assert_eq!(st.context_project().unwrap().id, "c");
}

#[test]
fn dropdown_labels_lead_with_default_and_skill() {
    let mut st = AppState::default();
    assert_eq!(st.agent_labels(), vec!["Default".to_string()]);
    assert_eq!(st.skill_labels(), vec!["Skill".to_string()]);
    st.skills = vec![
        Skill { name: "lint".to_string(), description: String::new(), location: String::new(), content: String::new() },
        Skill { name: "fmt".to_string(), description: String::new(), location: String::new(), content: String::new() },
    ];
    assert_eq!(st.skill_labels(), vec!["Skill".to_string(), "lint".to_string(), "fmt".to_string()]);
}

#[test]
fn project_context_strip() {
    let c = project_context(Some(&project("p", "/w/repo", None)), "/w/repo".to_string());
    assert_eq!(c.badge, "📁 repo");
    assert_eq!(c.path_label, "↳ /w/repo");
    assert!(c.path_visible);
    let long = "/home/someone/projects/clients/openpad".to_string();
    let c = project_context(Some(&project("p", &long, Some(" Pad "))), long.clone());
    assert_eq!(c.badge, "📁 Pad");
    assert_eq!(c.path_label, format!("↳ ...{}", &long[long.len() - 27..]));
    let none = project_context(None, String::new());
    assert_eq!(none.badge, "◌ No active project");
    assert_eq!(none.path_label, "↳ ");
    assert!(!none.path_visible);
}

#[test]
fn projects_panel_folding_and_visibility() {
    let mut p = panel(vec![project("p", "/w/p", None)], vec![session("a", "p", "t", None), session("b", "zz", "u", None)]);
    p.rebuild_items();
    let full = p.items.len();
    assert_eq!(full, 5);
    p.toggle_project(Some("p"));
    assert!(p.dirty);
    p.rebuild_items();
    assert_eq!(p.items.len(), 4);
    p.toggle_project(Some("p"));
    p.rebuild_items();
    assert_eq!(p.items.len(), full);
    p.toggle_project(None);
    assert!(p.other_collapsed);
    p.rebuild_items();
    assert_eq!(p.items.len(), 4);
    p.toggle_project(None);
    p.set_show_sessions(true);
    assert!(!p.dirty || p.show_sessions);
    p.rebuild_items();
    p.set_show_sessions(true);
    assert!(!p.dirty);
    p.set_show_sessions(false);
    assert!(p.dirty);
    p.rebuild_items();
    assert_eq!(p.items.len(), 3);
    p.open_menu_session_id = Some("a".to_string());
    p.close_menu();
    assert!(p.open_menu_session_id.is_none());
    p.set_data(vec![], vec![], None, StrMap::new());
    assert!(p.dirty);
    p.rebuild_items();
    assert!(matches!(p.items[0], PanelItemKind::EmptyState));
}

#[test]
fn confirmed_dialogs_become_commands() {
    let sessions = vec![session("s1", "p", "t", None)];
    assert!(matches!(dialog_command_for("unsaved_editor", "", &sessions), DialogCommand::SaveUnsaved));
    match dialog_command_for("delete_session:s1", "", &sessions) {
        DialogCommand::DeleteSession { session_id, directory } => {
            assert_eq!(session_id, "s1");
            assert_eq!(directory.as_deref(), Some("/dir/s1"));
        }
        _ => panic!("expected a delete"),
    }
    match dialog_command_for("rename_session:zz", "New title", &sessions) {
        DialogCommand::RenameSession { session_id, title, directory } => {
            assert_eq!(session_id, "zz");
            assert_eq!(title, "New title");
            assert!(directory.is_none());
        }
        _ => panic!("expected a rename"),
    }
    assert!(matches!(dialog_command_for("rename_session:s1", "", &sessions), DialogCommand::Ignore));
    match dialog_command_for("set_auth:openai:x", "sk", &sessions) {
        DialogCommand::SetAuth { provider_id, key } => {
            assert_eq!(provider_id, "openai:x");
            assert_eq!(key, "sk");
        }
        _ => panic!("expected auth"),
    }
    assert!(matches!(dialog_command_for("nothing", "v", &sessions), DialogCommand::Ignore));
    assert!(matches!(dialog_command_for("other:s1", "v", &sessions), DialogCommand::Ignore));
}

#[test]
fn session_summary_line() {
    assert_eq!(format_summary_line(&summary(3, 10, 2, vec![])), "3 files, +10, -2");
    assert_eq!(format_summary_line(&summary(0, 0, 0, vec![])), "0 files, +0, -0");
}

#[test]
fn base_urls_lose_trailing_slashes() {
    assert_eq!(normalize_base_url("http://localhost:4096/"), "http://localhost:4096");
    assert_eq!(normalize_base_url("http://h//"), "http://h");
    assert_eq!(normalize_base_url("http://h"), "http://h");
    assert_eq!(normalize_base_url("///"), "");
}

#[test]
fn session_tree_selection_and_working() {
    let mut sp = sessions_panel();
    let mut working = StrMap::new();
    working.insert("a".to_string(), true);
    sp.set_data(vec![], vec![], None, working);
    sp.rebuild_cache();
    sp.select_session("b".to_string());
    assert!(sp.dirty);
    assert_eq!(sp.selected_session_id.as_deref(), Some("b"));
    assert!(sp.session_working("a"));
    assert!(!sp.session_working("b"));
}
