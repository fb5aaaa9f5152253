//! How each action changes the application state.
use vstd::prelude::*;
use crate::actions::AppAction;
use crate::state::{
    first_session_with_id, find_session_index, AppState, LiveId, PendingCenterIntent,
    StateEffect, UnsavedDecision,
};
use crate::strmap::StrMap;
use crate::models::{models_for, sort_by_label, ModelTriple};
use crate::text::views;
use crate::parts::part_message_id;
use crate::text::{int_decimal, i64_to_string};
use crate::types::{
    project_copy, AssistantError, AssistantMessage, MessageTime, Part, FileDiff, Message, MessageWithParts, PermissionRequest, Project, Session,
    SessionSummary,
};

verus! {

/// The fields of the application state, to say which ones an action may change.
pub enum StateField {
    Messages,
    Projects,
    Sessions,
    CurrentProject,
    SelectedSession,
    CurrentSession,
    Connected,
    HealthOk,
    ErrorMessage,
    IsWorking,
    WorkingBySession,
    PendingPermissions,
    Providers,
    Agents,
    Skills,
    SelectedProvider,
    ProviderLabels,
    ModelLabels,
    ModelEntries,
    SelectedModel,
    SelectedAgent,
    SelectedSkill,
    AttachedFiles,
    ConfigField,
    CenterTabs,
    TabBySession,
    TabByFile,
    ActiveCenterTab,
    PendingIntent,
}

/// `b` equals `a` in every field outside `ch`.
pub open spec fn frame(a: AppState, b: AppState, ch: Set<StateField>) -> bool {
    &&& (!ch.contains(StateField::Messages) ==> b.messages_by_session == a.messages_by_session)
    &&& (!ch.contains(StateField::Projects) ==> b.projects == a.projects)
    &&& (!ch.contains(StateField::Sessions) ==> b.sessions == a.sessions)
    &&& (!ch.contains(StateField::CurrentProject) ==> b.current_project == a.current_project)
    &&& (!ch.contains(StateField::SelectedSession) ==> b.selected_session_id
        == a.selected_session_id)
    &&& (!ch.contains(StateField::CurrentSession) ==> b.current_session_id
        == a.current_session_id)
    &&& (!ch.contains(StateField::Connected) ==> b.connected == a.connected)
    &&& (!ch.contains(StateField::HealthOk) ==> b.health_ok == a.health_ok)
    &&& (!ch.contains(StateField::ErrorMessage) ==> b.error_message == a.error_message)
    &&& (!ch.contains(StateField::IsWorking) ==> b.is_working == a.is_working)
    &&& (!ch.contains(StateField::WorkingBySession) ==> b.working_by_session
        == a.working_by_session)
    &&& (!ch.contains(StateField::PendingPermissions) ==> b.pending_permissions
        == a.pending_permissions)
    &&& (!ch.contains(StateField::Providers) ==> b.providers == a.providers)
    &&& (!ch.contains(StateField::Agents) ==> b.agents == a.agents)
    &&& (!ch.contains(StateField::Skills) ==> b.skills == a.skills)
    &&& (!ch.contains(StateField::SelectedProvider) ==> b.selected_provider_idx
        == a.selected_provider_idx)
    &&& (!ch.contains(StateField::ProviderLabels) ==> b.provider_labels == a.provider_labels)
    &&& (!ch.contains(StateField::ModelLabels) ==> b.model_labels == a.model_labels)
    &&& (!ch.contains(StateField::ModelEntries) ==> b.model_entries == a.model_entries)
    &&& (!ch.contains(StateField::SelectedModel) ==> b.selected_model_idx
        == a.selected_model_idx)
    &&& (!ch.contains(StateField::SelectedAgent) ==> b.selected_agent_idx
        == a.selected_agent_idx)
    &&& (!ch.contains(StateField::SelectedSkill) ==> b.selected_skill_idx
        == a.selected_skill_idx)
    &&& (!ch.contains(StateField::AttachedFiles) ==> b.attached_files == a.attached_files)
    &&& (!ch.contains(StateField::ConfigField) ==> b.config == a.config)
    &&& (!ch.contains(StateField::CenterTabs) ==> b.center_tabs_by_id == a.center_tabs_by_id)
    &&& (!ch.contains(StateField::TabBySession) ==> b.tab_by_session == a.tab_by_session)
    &&& (!ch.contains(StateField::TabByFile) ==> b.tab_by_file == a.tab_by_file)
    &&& (!ch.contains(StateField::ActiveCenterTab) ==> b.active_center_tab
        == a.active_center_tab)
    &&& (!ch.contains(StateField::PendingIntent) ==> b.pending_center_intent
        == a.pending_center_intent)
}

/// `ss` with `s` in place of the first session of the same id, or `s` appended.
pub open spec fn sessions_upsert(ss: Seq<Session>, s: Session) -> Seq<Session> {
    match first_session_with_id(ss, s.id@) {
        Some(i) => ss.update(i, s),
        None => ss.push(s),
    }
}

/// `ss` with `s` in place of the first session of the same id, if there is one.
pub open spec fn sessions_replace(ss: Seq<Session>, s: Session) -> Seq<Session> {
    match first_session_with_id(ss, s.id@) {
        Some(i) => ss.update(i, s),
        None => ss,
    }
}

/// `ss` without the sessions whose id is `id`.
pub open spec fn without_session(ss: Seq<Session>, id: Seq<char>) -> Seq<Session>
    decreases ss.len(),
{
    if ss.len() == 0 {
        ss
    } else if ss.last().id@ == id {
        without_session(ss.drop_last(), id)
    } else {
        without_session(ss.drop_last(), id).push(ss.last())
    }
}

/// `ps` without the permission requests whose id is `id`.
pub open spec fn without_request(ps: Seq<PermissionRequest>, id: Seq<char>) -> Seq<PermissionRequest>
    decreases ps.len(),
{
    if ps.len() == 0 {
        ps
    } else if ps.last().id@ == id {
        without_request(ps.drop_last(), id)
    } else {
        without_request(ps.drop_last(), id).push(ps.last())
    }
}

/// The position of the first project in `ps` whose id is `id`, if any.
pub open spec fn first_project_with_id(ps: Seq<Project>, id: Seq<char>) -> Option<int> {
    if exists|i: int| 0 <= i < ps.len() && ps[i].id@ == id {
        Some(choose|i: int| 0 <= i < ps.len() && ps[i].id@ == id && forall|j: int| 0 <= j < i ==> ps[j].id@ != id)
    } else {
        None
    }
}

/// The id of the last user message in `ms`, if there is one.
pub open spec fn last_user_message_id(ms: Seq<MessageWithParts>) -> Option<String>
    decreases ms.len(),
{
    if ms.len() == 0 {
        None
    } else {
        match ms.last().info {
            Message::User(u) => Some(u.id),
            _ => last_user_message_id(ms.drop_last()),
        }
    }
}

fn find_project_index(projects: &Vec<Project>, id: &str) -> (r: Option<usize>)
    ensures
        match r {
            Some(i) => i < projects@.len() && first_project_with_id(projects@, id@) == Some(i as int),
            None => first_project_with_id(projects@, id@) is None,
        },
{
    let mut i: usize = 0;
    while i < projects.len()
        invariant
            i <= projects.len(),
            forall|j: int| 0 <= j < i ==> projects@[j].id@ != id@,
        decreases projects.len() - i,
    {
        if crate::text::str_eq(projects[i].id.as_str(), id) {
            proof {
                let ps = projects@;
                let w = choose|k: int| 0 <= k < ps.len() && ps[k].id@ == id@ && forall|j: int| 0 <= j < k ==> ps[j].id@ != id@;
                assert(0 <= i < ps.len() && ps[i as int].id@ == id@ && forall|j: int| 0 <= j < i ==> ps[j].id@ != id@);
                if w > i {
                    assert(ps[i as int].id@ != id@);
                }
            }
            return Some(i);
        }
        i += 1;
    }
    None
}

fn reduce_session_loaded(state: &mut AppState, session: Session)
    ensures
        frame(*old(state), *final(state), set![StateField::CurrentSession, StateField::Sessions]),
        final(state).sessions@ == sessions_upsert(old(state).sessions@, session),
        old(state).current_session_id is None ==> final(state).current_session_id == Some(session.id),
        old(state).current_session_id is Some ==> final(state).current_session_id == old(state).current_session_id,
{
    if state.current_session_id.is_none() {
        state.current_session_id = Some(session.id.clone());
    }
    match find_session_index(&state.sessions, session.id.as_str()) {
        Some(i) => {
            state.sessions.set(i, session);
        },
        None => {
            state.sessions.push(session);
        },
    }
}

fn reduce_session_updated(state: &mut AppState, session: Session)
    ensures
        frame(*old(state), *final(state), set![StateField::Sessions]),
        final(state).sessions@ == sessions_replace(old(state).sessions@, session),
{
    match find_session_index(&state.sessions, session.id.as_str()) {
        Some(i) => {
            state.sessions.set(i, session);
        },
        None => {},
    }
}

fn reduce_session_created(state: &mut AppState, session: Session)
    ensures
        frame(
            *old(state),
            *final(state),
            set![StateField::CurrentSession, StateField::Messages, StateField::Sessions, StateField::CurrentProject],
        ),
        final(state).current_session_id == Some(session.id),
        final(state).messages_by_session@.contains_key(session.id@),
        final(state).messages_by_session@ == old(state).messages_by_session@.insert(
            session.id@,
            final(state).messages_by_session@[session.id@],
        ),
        old(state).messages_by_session@.contains_key(session.id@) ==> final(state).messages_by_session@[session.id@] == old(state).messages_by_session@[session.id@],
        !old(state).messages_by_session@.contains_key(session.id@) ==> final(state).messages_by_session@[session.id@]@.len() == 0,
        final(state).sessions@ == (if first_session_with_id(old(state).sessions@, session.id@) is Some {
            old(state).sessions@
        } else {
            old(state).sessions@.push(session)
        }),
        match first_project_with_id(old(state).projects@, session.project_id@) {
            Some(j) => (final(state).current_project matches Some(p) && project_copy(
                p,
                old(state).projects@[j],
            )),
            None => final(state).current_project == old(state).current_project,
        },
{
    state.current_session_id = Some(session.id.clone());
    if !state.messages_by_session.contains_key(session.id.as_str()) {
        state.messages_by_session.insert(session.id.clone(), Vec::new());
    }
    match find_project_index(&state.projects, session.project_id.as_str()) {
        Some(j) => {
            state.current_project = Some(state.projects[j].clone());
        },
        None => {},
    }
    if find_session_index(&state.sessions, session.id.as_str()).is_none() {
        state.sessions.push(session);
    }
}

/// Drops every session whose id is `id`, keeping the order of the others.
fn retain_other_sessions(sessions: &mut Vec<Session>, id: &str)
    ensures
        final(sessions)@ == without_session(old(sessions)@, id@),
{
    let mut rest: Vec<Session> = Vec::new();
    std::mem::swap(&mut rest, sessions);
    let ghost orig = rest@;
    let mut k: usize = 0;
    assert(orig.len() == rest.len());
    assert(orig.take(0) =~= Seq::<Session>::empty());
    while rest.len() > 0
        invariant
            k + rest@.len() == orig.len(),
            orig.len() <= usize::MAX,
            rest@ == orig.skip(k as int),
            sessions@ == without_session(orig.take(k as int), id@),
        decreases rest@.len(),
    {
        let s = rest.remove(0);
        proof {
            assert(orig.take(k + 1).drop_last() =~= orig.take(k as int));
            assert(orig.take(k + 1).last() == s);
        }
        if !crate::text::str_eq(s.id.as_str(), id) {
            sessions.push(s);
        }
        k += 1;
        proof {
            assert(rest@ =~= orig.skip(k as int));
        }
    }
    assert(orig.take(k as int) =~= orig);
}

/// Drops every permission request whose id is `id`, keeping the order of the others.
fn retain_other_requests(requests: &mut Vec<PermissionRequest>, id: &str)
    ensures
        final(requests)@ == without_request(old(requests)@, id@),
{
    let mut rest: Vec<PermissionRequest> = Vec::new();
    std::mem::swap(&mut rest, requests);
    let ghost orig = rest@;
    let mut k: usize = 0;
    assert(orig.len() == rest.len());
    assert(orig.take(0) =~= Seq::<PermissionRequest>::empty());
    while rest.len() > 0
        invariant
            k + rest@.len() == orig.len(),
            orig.len() <= usize::MAX,
            rest@ == orig.skip(k as int),
            requests@ == without_request(orig.take(k as int), id@),
        decreases rest@.len(),
    {
        let p = rest.remove(0);
        proof {
            assert(orig.take(k + 1).drop_last() =~= orig.take(k as int));
            assert(orig.take(k + 1).last() == p);
        }
        if !crate::text::str_eq(p.id.as_str(), id) {
            requests.push(p);
        }
        k += 1;
        proof {
            assert(rest@ =~= orig.skip(k as int));
        }
    }
    assert(orig.take(k as int) =~= orig);
}

fn reduce_session_deleted(state: &mut AppState, session_id: String)
    ensures
        frame(
            *old(state),
            *final(state),
            set![StateField::CurrentSession, StateField::SelectedSession, StateField::IsWorking, StateField::Messages, StateField::WorkingBySession, StateField::TabBySession, StateField::Sessions],
        ),
        (old(state).current_session_id matches Some(c) && c@ == session_id@) ==> (final(state).current_session_id is None && final(state).selected_session_id is None && !final(state).is_working),
        !(old(state).current_session_id matches Some(c) && c@ == session_id@) ==> (final(state).current_session_id == old(state).current_session_id && final(state).is_working == old(state).is_working && if (old(state).selected_session_id matches Some(c) && c@ == session_id@) {
            final(state).selected_session_id is None
        } else {
            final(state).selected_session_id == old(state).selected_session_id
        }),
        final(state).messages_by_session@ == old(state).messages_by_session@.remove(session_id@),
        final(state).working_by_session@ == old(state).working_by_session@.remove(session_id@),
        final(state).tab_by_session@ == old(state).tab_by_session@.remove(session_id@),
        final(state).sessions@ == without_session(old(state).sessions@, session_id@),
{
    let is_current = match &state.current_session_id {
        Some(c) => crate::text::str_eq(c.as_str(), session_id.as_str()),
        None => false,
    };
    let is_selected = match &state.selected_session_id {
        Some(c) => crate::text::str_eq(c.as_str(), session_id.as_str()),
        None => false,
    };
    if is_current {
        state.current_session_id = None;
        state.selected_session_id = None;
        state.is_working = false;
    } else if is_selected {
        state.selected_session_id = None;
    }
    state.messages_by_session.remove(session_id.as_str());
    state.working_by_session.remove(session_id.as_str());
    state.tab_by_session.remove(session_id.as_str());
    retain_other_sessions(&mut state.sessions, session_id.as_str());
}

/// The summary of a session once its diffs have been loaded: the old summary
/// with the new diffs, or a fresh one that counts the files.
pub open spec fn summary_with_diffs(old_summary: Option<SessionSummary>, diffs: Vec<FileDiff>) -> SessionSummary {
    match old_summary {
        Some(s) => SessionSummary { diffs, ..s },
        None => SessionSummary { additions: 0, deletions: 0, files: diffs@.len() as i64, diffs },
    }
}

fn reduce_session_diff_loaded(state: &mut AppState, session_id: String, diffs: Vec<FileDiff>)
    requires
        diffs@.len() <= i64::MAX,
    ensures
        frame(*old(state), *final(state), set![StateField::Sessions]),
        match first_session_with_id(old(state).sessions@, session_id@) {
            Some(i) => final(state).sessions@ == old(state).sessions@.update(
                i,
                Session {
                    summary: Some(summary_with_diffs(old(state).sessions@[i].summary, diffs)),
                    ..old(state).sessions@[i]
                },
            ),
            None => final(state).sessions == old(state).sessions,
        },
{
    match find_session_index(&state.sessions, session_id.as_str()) {
        Some(i) => {
            let n = diffs.len() as i64;
            let mut session = state.sessions.remove(i);
            let summary = match session.summary {
                Some(s) => SessionSummary { diffs, ..s },
                None => SessionSummary { additions: 0, deletions: 0, files: n, diffs },
            };
            session.summary = Some(summary);
            state.sessions.insert(i, session);
            proof {
                assert(state.sessions@ =~= old(state).sessions@.update(
                    i as int,
                    Session {
                        summary: Some(summary_with_diffs(old(state).sessions@[i as int].summary, diffs)),
                        ..old(state).sessions@[i as int]
                    },
                ));
            }
        },
        None => {},
    }
}

pub(crate) fn last_user_message(messages: &Vec<MessageWithParts>) -> (r: Option<String>)
    ensures
        r == last_user_message_id(messages@),
{
    let mut i = messages.len();
    assert(messages@.take(i as int) =~= messages@);
    while i > 0
        invariant
            i <= messages.len(),
            last_user_message_id(messages@) == last_user_message_id(messages@.take(i as int)),
        decreases i,
    {
        assert(messages@.take(i as int).drop_last() =~= messages@.take(i - 1));
        match &messages[i - 1].info {
            Message::User(u) => {
                return Some(u.id.clone());
            },
            _ => {},
        }
        i -= 1;
    }
    None
}

fn enqueue_pending_permission(state: &mut AppState, request: PermissionRequest)
    ensures
        frame(*old(state), *final(state), set![StateField::PendingPermissions]),
        final(state).pending_permissions@ == (if exists|k: int|
            0 <= k < old(state).pending_permissions@.len()
                && old(state).pending_permissions@[k].id@ == request.id@ {
            old(state).pending_permissions@
        } else {
            old(state).pending_permissions@.push(request)
        }),
{
    let mut k: usize = 0;
    while k < state.pending_permissions.len()
        invariant
            k <= state.pending_permissions.len(),
            forall|j: int| 0 <= j < k ==> state.pending_permissions@[j].id@ != request.id@,
        decreases state.pending_permissions.len() - k,
    {
        if crate::text::str_eq(state.pending_permissions[k].id.as_str(), request.id.as_str()) {
            return;
        }
        k += 1;
    }
    state.pending_permissions.push(request);
}

fn remove_pending_permission(state: &mut AppState, request_id: &str)
    ensures
        frame(*old(state), *final(state), set![StateField::PendingPermissions]),
        final(state).pending_permissions@ == without_request(
            old(state).pending_permissions@,
            request_id@,
        ),
{
    retain_other_requests(&mut state.pending_permissions, request_id);
}

/// `after` and `r` are what asking for a tab for `key` in `before` leaves and
/// gives: the tab already recorded for `key`, or `new_id`, recorded now.
pub open spec fn tab_upserted(
    before: Map<Seq<char>, LiveId>,
    key: Seq<char>,
    new_id: LiveId,
    after: Map<Seq<char>, LiveId>,
    r: (LiveId, bool),
) -> bool {
    if before.contains_key(key) {
        r == (before[key], false) && after == before
    } else {
        r == (new_id, true) && after == before.insert(key, new_id)
    }
}

/// Records a new tab for a session unless it has one: gives back the session's
/// tab and whether it was created now.
pub fn upsert_session_tab(tab_by_session: &mut StrMap<LiveId>, session_id: String, new_tab_id: LiveId) -> (r: (LiveId, bool))
    ensures
        tab_upserted(old(tab_by_session)@, session_id@, new_tab_id, final(tab_by_session)@, r),
{
    match tab_by_session.get(session_id.as_str()) {
        Some(existing) => (*existing, false),
        None => {
            tab_by_session.insert(session_id, new_tab_id);
            (new_tab_id, true)
        },
    }
}

/// Records a new tab for a file unless it has one: gives back the file's tab and
/// whether it was created now.
pub fn upsert_file_tab(tab_by_file: &mut StrMap<LiveId>, absolute_path: String, new_tab_id: LiveId) -> (r: (LiveId, bool))
    ensures
        tab_upserted(old(tab_by_file)@, absolute_path@, new_tab_id, final(tab_by_file)@, r),
{
    match tab_by_file.get(absolute_path.as_str()) {
        Some(existing) => (*existing, false),
        None => {
            tab_by_file.insert(absolute_path, new_tab_id);
            (new_tab_id, true)
        },
    }
}

/// What becomes of a pending change of the center dock once the user has decided
/// about unsaved edits: it goes ahead after Save or Discard and is dropped on Cancel.
pub fn resolve_pending_center_intent(pending_intent: Option<PendingCenterIntent>, decision: UnsavedDecision) -> (r: Option<PendingCenterIntent>)
    ensures
        decision == UnsavedDecision::Cancel ==> r is None,
        decision != UnsavedDecision::Cancel ==> r == pending_intent,
{
    match decision {
        UnsavedDecision::Save | UnsavedDecision::Discard => pending_intent,
        UnsavedDecision::Cancel => None,
    }
}

/// The position of the first message in `ms` whose id is `id`, if any.
pub open spec fn first_message_with_id(ms: Seq<MessageWithParts>, id: Seq<char>) -> Option<int> {
    if exists|j: int| 0 <= j < ms.len() && ms[j].info.spec_id() == id {
        Some(choose|j: int| 0 <= j < ms.len() && ms[j].info.spec_id() == id && forall|k: int| 0 <= k < j ==> ms[k].info.spec_id() != id)
    } else {
        None
    }
}

/// Whether a message is an assistant reply still being written: not completed and
/// without error.
pub open spec fn assistant_working(m: Message) -> bool {
    m matches Message::Assistant(a) && a.time.completed is None && a.error is None
}

/// The messages cached for `sid`, none when nothing is cached.
pub open spec fn cached_messages(m: Map<Seq<char>, Vec<MessageWithParts>>, sid: Seq<char>) -> Seq<MessageWithParts> {
    if m.contains_key(sid) {
        m[sid]@
    } else {
        Seq::empty()
    }
}

/// `after` is `before` with `m` in place of the message of the same id (keeping
/// that message's parts), or with `m` appended without parts.
pub open spec fn message_upserted(before: Seq<MessageWithParts>, m: Message, after: Seq<MessageWithParts>) -> bool {
    match first_message_with_id(before, m.spec_id()) {
        Some(j) => after == before.update(j, MessageWithParts { info: m, parts: before[j].parts }),
        None => {
            &&& after.len() == before.len() + 1
            &&& after.take(before.len() as int) == before
            &&& after.last().info == m
            &&& after.last().parts@.len() == 0
        },
    }
}

fn find_message_index(list: &Vec<MessageWithParts>, id: &str) -> (r: Option<usize>)
    ensures
        match r {
            Some(j) => j < list@.len() && first_message_with_id(list@, id@) == Some(j as int),
            None => first_message_with_id(list@, id@) is None,
        },
{
    let mut j: usize = 0;
    while j < list.len()
        invariant
            j <= list.len(),
            forall|k: int| 0 <= k < j ==> list@[k].info.spec_id() != id@,
        decreases list.len() - j,
    {
        if crate::text::str_eq(list[j].info.id(), id) {
            proof {
                let ms = list@;
                let w = choose|x: int| 0 <= x < ms.len() && ms[x].info.spec_id() == id@ && forall|k: int| 0 <= k < x ==> ms[k].info.spec_id() != id@;
                assert(0 <= j < ms.len() && ms[j as int].info.spec_id() == id@ && forall|k: int| 0 <= k < j ==> ms[k].info.spec_id() != id@);
                if w > j {
                    assert(ms[j as int].info.spec_id() != id@);
                }
            }
            return Some(j);
        }
        j += 1;
    }
    None
}

fn upsert_message(list: &mut Vec<MessageWithParts>, message: Message)
    ensures
        message_upserted(old(list)@, message, final(list)@),
{
    let found = find_message_index(list, message.id());
    match found {
        Some(j) => {
            let existing = list.remove(j);
            list.insert(j, MessageWithParts { info: message, parts: existing.parts });
            proof {
                assert(list@ =~= old(list)@.update(j as int, MessageWithParts { info: message, parts: old(list)@[j as int].parts }));
            }
        },
        None => {
            list.push(MessageWithParts { info: message, parts: Vec::new() });
            proof {
                assert(list@.take(old(list)@.len() as int) =~= old(list)@);
            }
        },
    }
}

fn reduce_message_received(state: &mut AppState, message: Message)
    ensures
        frame(
            *old(state),
            *final(state),
            set![StateField::WorkingBySession, StateField::CurrentSession, StateField::Messages, StateField::IsWorking],
        ),
        final(state).working_by_session@ == (if message is Assistant {
            old(state).working_by_session@.insert(message.spec_session_id(), assistant_working(message))
        } else {
            old(state).working_by_session@
        }),
        old(state).current_session_id is None ==> (final(state).current_session_id matches Some(c)
            && c@ == message.spec_session_id()),
        old(state).current_session_id is Some ==> final(state).current_session_id == old(state).current_session_id,
        final(state).messages_by_session@ == old(state).messages_by_session@.insert(
            message.spec_session_id(),
            final(state).messages_by_session@[message.spec_session_id()],
        ),
        message_upserted(
            cached_messages(old(state).messages_by_session@, message.spec_session_id()),
            message,
            final(state).messages_by_session@[message.spec_session_id()]@,
        ),
        final(state).is_working == (if message is Assistant && (final(state).current_session_id matches Some(c)
            && c@ == message.spec_session_id()) {
            assistant_working(message)
        } else {
            old(state).is_working
        }),
{
    let ghost m0 = message;
    let sid = String::from_str(message.session_id());
    let (is_assistant, working) = match &message {
        Message::Assistant(msg) => (true, msg.time.completed.is_none() && msg.error.is_none()),
        _ => (false, false),
    };
    assert(working == assistant_working(m0));
    if is_assistant {
        state.working_by_session.insert(sid.clone(), working);
    }
    if state.current_session_id.is_none() {
        state.current_session_id = Some(sid.clone());
    }
    match state.messages_by_session.index_of(sid.as_str()) {
        Some(i) => {
            let mut list = state.messages_by_session.replace_at(i, Vec::new());
            upsert_message(&mut list, message);
            state.messages_by_session.replace_at(i, list);
        },
        None => {
            let mut list: Vec<MessageWithParts> = Vec::new();
            upsert_message(&mut list, message);
            state.messages_by_session.insert(sid.clone(), list);
        },
    }
    let is_current = match &state.current_session_id {
        Some(c) => crate::text::str_eq(c.as_str(), sid.as_str()),
        None => false,
    };
    if is_current && is_assistant {
        state.is_working = working;
    }
}

/// The position of the first message list in `vals` that holds a message of id `mid`.
pub open spec fn first_list_holding(vals: Seq<Vec<MessageWithParts>>, mid: Seq<char>) -> Option<int> {
    if exists|i: int| 0 <= i < vals.len() && first_message_with_id(vals[i]@, mid) is Some {
        Some(choose|i: int| 0 <= i < vals.len() && first_message_with_id(vals[i]@, mid) is Some
            && forall|k: int| 0 <= k < i ==> first_message_with_id(vals[k]@, mid) is None)
    } else {
        None
    }
}

/// Whether `p` is a text part whose id is `id`.
pub open spec fn is_text_with_id(p: Part, id: Seq<char>) -> bool {
    p matches Part::Text { id: x, .. } && x@ == id
}

/// The position of the first text part in `parts` whose id is `id`, if any.
pub open spec fn first_text_part_with_id(parts: Seq<Part>, id: Seq<char>) -> Option<int> {
    if exists|k: int| 0 <= k < parts.len() && is_text_with_id(parts[k], id) {
        Some(choose|k: int| 0 <= k < parts.len() && is_text_with_id(parts[k], id)
            && forall|l: int| 0 <= l < k ==> !is_text_with_id(parts[l], id))
    } else {
        None
    }
}

/// The parts of a message after `p` arrives: a text part with an id replaces the
/// text part of the same id, anything else is appended.
pub open spec fn part_upserted(parts: Seq<Part>, p: Part) -> Seq<Part> {
    match p {
        Part::Text { id, .. } => if id@.len() != 0 {
            match first_text_part_with_id(parts, id@) {
                Some(k) => parts.update(k, p),
                None => parts.push(p),
            }
        } else {
            parts.push(p)
        },
        _ => parts.push(p),
    }
}

fn upsert_part(parts: &mut Vec<Part>, part: Part)
    ensures
        final(parts)@ == part_upserted(old(parts)@, part),
{
    let text_id: Option<String> = match &part {
        Part::Text { id, .. } => if !id.as_str().is_empty() {
            Some(id.clone())
        } else {
            None
        },
        _ => None,
    };
    match text_id {
        Some(id) => {
            assert(part matches Part::Text { id: x, .. } && x@ == id@ && id@.len() != 0);
            let mut k: usize = 0;
            while k < parts.len()
                invariant
                    k <= parts.len(),
                    parts@ == old(parts)@,
                    part matches Part::Text { id: x, .. } && x@ == id@ && id@.len() != 0,
                    forall|l: int| 0 <= l < k ==> !is_text_with_id(parts@[l], id@),
                decreases parts.len() - k,
            {
                let same = match &parts[k] {
                    Part::Text { id: existing_id, .. } => crate::text::str_eq(existing_id.as_str(), id.as_str()),
                    _ => false,
                };
                if same {
                    proof {
                        let ps = parts@;
                        let w = choose|x: int| 0 <= x < ps.len() && is_text_with_id(ps[x], id@)
                            && forall|l: int| 0 <= l < x ==> !is_text_with_id(ps[l], id@);
                        assert(is_text_with_id(ps[k as int], id@));
                        if w > k {
                            assert(!is_text_with_id(ps[k as int], id@));
                        }
                        assert(w == k);
                        assert(first_text_part_with_id(old(parts)@, id@) == Some(k as int));
                    }
                    parts.set(k, part);
                    return;
                }
                k += 1;
            }
            parts.push(part);
        },
        None => {
            parts.push(part);
        },
    }
}

/// What `reduce_part_received` does once the message has been found: entry `i` of
/// the message cache, message `j` of its list.
#[verifier::opaque]
pub open spec fn part_applied(o: AppState, n: AppState, part: Part, i: int, j: int) -> bool {
    let list = o.messages_by_session.val_seq()[i]@;
    let e = list[j];
    let new_list = n.messages_by_session.val_seq()[i]@;
    &&& frame(o, n, set![StateField::Messages, StateField::IsWorking, StateField::WorkingBySession])
    &&& n.messages_by_session.key_seq() == o.messages_by_session.key_seq()
    &&& n.messages_by_session.val_seq() == o.messages_by_session.val_seq().update(i, n.messages_by_session.val_seq()[i])
    &&& n.messages_by_session@ == o.messages_by_session@.insert(
        o.messages_by_session.key_seq()[i],
        n.messages_by_session.val_seq()[i],
    )
    &&& new_list.len() == list.len()
    &&& forall|k: int| 0 <= k < list.len() && k != j ==> new_list[k] == list[k]
    &&& new_list[j].info == e.info
    &&& new_list[j].parts@ == part_upserted(e.parts@, part)
    &&& if e.info is Assistant {
        &&& n.is_working
        &&& n.working_by_session@ == o.working_by_session@.insert(e.info.spec_session_id(), true)
    } else {
        &&& n.is_working == o.is_working
        &&& n.working_by_session == o.working_by_session
    }
}

fn apply_part(state: &mut AppState, i: usize, j: usize, part: Part)
    requires
        i < old(state).messages_by_session.key_seq().len(),
        i < old(state).messages_by_session.val_seq().len(),
        j < old(state).messages_by_session.val_seq()[i as int]@.len(),
    ensures
        part_applied(*old(state), *final(state), part, i as int, j as int),
{
    reveal(part_applied);
    let ghost o = *state;
    let mut list = state.messages_by_session.replace_at(i, Vec::new());
    let ghost list0 = list@;
    let mut e = list.remove(j);
    let is_assistant = match &e.info {
        Message::Assistant(_) => true,
        _ => false,
    };
    let wsid = String::from_str(e.info.session_id());
    upsert_part(&mut e.parts, part);
    list.insert(j, e);
    proof {
        assert(list@.len() == list0.len());
        assert forall|k: int| 0 <= k < list0.len() && k != j implies list@[k] == list0[k] by {}
    }
    let ghost lv = list;
    state.messages_by_session.replace_at(i, list);
    proof {
        assert(state.messages_by_session.val_seq() =~= o.messages_by_session.val_seq().update(i as int, lv));
        assert(state.messages_by_session@ =~= o.messages_by_session@.insert(o.messages_by_session.key_seq()[i as int], lv));
        assert(state.messages_by_session.val_seq()[i as int] == lv);
    }
    if is_assistant {
        state.is_working = true;
        state.working_by_session.insert(wsid, true);
    }
}

fn reduce_part_received(state: &mut AppState, part: Part)
    ensures
        match part_message_id(part) {
            None => frame(*old(state), *final(state), Set::empty()),
            Some(mid) => match first_list_holding(old(state).messages_by_session.val_seq(), mid) {
                None => frame(*old(state), *final(state), Set::empty()),
                Some(i) => part_applied(*old(state), *final(state), part, i,
                    first_message_with_id(old(state).messages_by_session.val_seq()[i]@, mid).unwrap()),
            },
        },
{
    let mid = match part.message_id() {
        Some(m) => String::from_str(m),
        None => {
            return;
        },
    };
    let n = state.messages_by_session.len();
    let mut i: usize = 0;
    while i < n
        invariant
            i <= n == state.messages_by_session.val_seq().len(),
            n == state.messages_by_session.key_seq().len(),
            *state == *old(state),
            part_message_id(part) == Some(mid@),
            forall|k: int| 0 <= k < i ==> first_message_with_id(state.messages_by_session.val_seq()[k]@, mid@) is None,
        decreases n - i,
    {
        let found = find_message_index(state.messages_by_session.value_at(i), mid.as_str());
        match found {
            Some(j) => {
                proof {
                    let vals = state.messages_by_session.val_seq();
                    let w = choose|x: int| 0 <= x < vals.len() && first_message_with_id(vals[x]@, mid@) is Some
                        && forall|k: int| 0 <= k < x ==> first_message_with_id(vals[k]@, mid@) is None;
                    assert(first_message_with_id(vals[i as int]@, mid@) is Some);
                    if w > i {
                        assert(first_message_with_id(vals[i as int]@, mid@) is None);
                    }
                    assert(first_list_holding(vals, mid@) == Some(i as int));
                }
                apply_part(state, i, j, part);
                return;
            },
            None => {},
        }
        i += 1;
    }
}

/// Whether `e` is the message that records a session error: an assistant message
/// `err_SID_NOW` created and completed at `now`, carrying the error, with one text
/// part `part_err_SID_NOW` that says "Session error".
pub open spec fn is_session_error_message(e: MessageWithParts, sid: Seq<char>, error: AssistantError, now: i64) -> bool {
    let mid = "err_"@ + sid + "_"@ + int_decimal(now as int);
    &&& e.info matches Message::Assistant(a) && {
        &&& a.id@ == mid
        &&& a.session_id@ == sid
        &&& a.time == MessageTime { created: now, completed: Some(now) }
        &&& a.error == Some(error)
        &&& a.parent_id@.len() == 0
        &&& a.model_id@.len() == 0
        &&& a.provider_id@.len() == 0
        &&& a.mode@.len() == 0
        &&& a.agent@.len() == 0
        &&& a.path is None
        &&& a.summary is None
        &&& a.cost == 0
        &&& a.tokens is None
        &&& a.structured is None
        &&& a.variant is None
        &&& a.finish is None
    }
    &&& e.parts@.len() == 1
    &&& e.parts@[0] matches Part::Text { id, session_id, message_id, text, synthetic, ignored, time, metadata } && {
        &&& id@ == "part_"@ + mid
        &&& session_id@ == sid
        &&& message_id@ == mid
        &&& text@ == "Session error"@
        &&& synthetic is None
        &&& ignored is None
        &&& time is None
        &&& metadata is None
    }
}

fn reduce_session_error_at(state: &mut AppState, session_id: String, error: AssistantError, now: i64)
    ensures
        (old(state).current_session_id matches Some(c) && c@ == session_id@) ==> {
            &&& frame(*old(state), *final(state), set![StateField::IsWorking, StateField::Messages])
            &&& !final(state).is_working
            &&& final(state).messages_by_session@ == old(state).messages_by_session@.insert(
                session_id@,
                final(state).messages_by_session@[session_id@],
            )
            &&& final(state).messages_by_session@[session_id@]@.len() == cached_messages(old(state).messages_by_session@, session_id@).len() + 1
            &&& final(state).messages_by_session@[session_id@]@.drop_last() == cached_messages(old(state).messages_by_session@, session_id@)
            &&& is_session_error_message(final(state).messages_by_session@[session_id@]@.last(), session_id@, error, now)
        },
        !(old(state).current_session_id matches Some(c) && c@ == session_id@) ==> {
            &&& frame(*old(state), *final(state), set![StateField::IsWorking])
            &&& !final(state).is_working
        },
{
    state.is_working = false;
    let is_current = match &state.current_session_id {
        Some(c) => crate::text::str_eq(c.as_str(), session_id.as_str()),
        None => false,
    };
    if !is_current {
        return;
    }
    let mut message_id = String::from_str("err_");
    message_id.append(session_id.as_str());
    message_id.append("_");
    message_id.append(i64_to_string(now).as_str());
    let mut part_id = String::from_str("part_");
    part_id.append(message_id.as_str());
    let assistant = AssistantMessage {
        id: message_id.clone(),
        session_id: session_id.clone(),
        time: MessageTime { created: now, completed: Some(now) },
        error: Some(error),
        parent_id: String::new(),
        model_id: String::new(),
        provider_id: String::new(),
        mode: String::new(),
        agent: String::new(),
        path: None,
        summary: None,
        cost: 0,
        tokens: None,
        structured: None,
        variant: None,
        finish: None,
    };
    let part = Part::Text {
        id: part_id,
        session_id: session_id.clone(),
        message_id,
        text: String::from_str("Session error"),
        synthetic: None,
        ignored: None,
        time: None,
        metadata: None,
    };
    let mut parts: Vec<Part> = Vec::new();
    parts.push(part);
    let entry = MessageWithParts { info: Message::Assistant(assistant), parts };
    match state.messages_by_session.index_of(session_id.as_str()) {
        Some(i) => {
            let mut list = state.messages_by_session.replace_at(i, Vec::new());
            list.push(entry);
            state.messages_by_session.replace_at(i, list);
        },
        None => {
            let mut list: Vec<MessageWithParts> = Vec::new();
            list.push(entry);
            state.messages_by_session.insert(session_id, list);
        },
    }
}

/// The labels of the provider picker: "Default", then each provider's name.
pub open spec fn provider_label_views(ps: Seq<crate::types::Provider>) -> Seq<Seq<char>> {
    seq!["Default"@] + ps.map_values(|p: crate::types::Provider| p.name@)
}

fn reduce_providers_loaded(state: &mut AppState, providers: Vec<crate::types::Provider>)
    ensures
        frame(
            *old(state),
            *final(state),
            set![StateField::Providers, StateField::ProviderLabels, StateField::SelectedProvider, StateField::ModelLabels, StateField::ModelEntries, StateField::SelectedModel],
        ),
        final(state).providers == providers,
        views(final(state).provider_labels@) == provider_label_views(providers@),
        final(state).selected_provider_idx == 0,
        views(final(state).model_labels@) == sort_by_label(models_for(providers@, 0)).map_values(|t: ModelTriple| t.2),
        final(state).model_entries@.map_values(|e: (String, String)| (e.0@, e.1@)) == sort_by_label(
            models_for(providers@, 0),
        ).map_values(|t: ModelTriple| (t.0, t.1)),
        final(state).selected_model_idx == 0,
{
    let mut labels: Vec<String> = Vec::new();
    labels.push(String::from_str("Default"));
    let mut i: usize = 0;
    while i < providers.len()
        invariant
            i <= providers.len(),
            views(labels@) == seq!["Default"@] + providers@.take(i as int).map_values(|p: crate::types::Provider| p.name@),
        decreases providers.len() - i,
    {
        let ghost before = views(labels@);
        labels.push(providers[i].name.clone());
        proof {
            assert(views(labels@) =~= before.push(providers@[i as int].name@));
            assert(providers@.take(i + 1).map_values(|p: crate::types::Provider| p.name@) =~= providers@.take(i as int).map_values(|p: crate::types::Provider| p.name@).push(providers@[i as int].name@));
        }
        i += 1;
    }
    assert(providers@.take(providers.len() as int) =~= providers@);
    state.providers = providers;
    state.provider_labels = labels;
    state.selected_provider_idx = 0;
    state.update_model_list_for_provider();
}

/// How the state `n` and the effects follow from the state `o` and an action,
/// with `now` the time at which a session error is recorded.
pub open spec fn reduced(o: AppState, action: AppAction, now: i64, n: AppState, effects: Seq<StateEffect>) -> bool {
    match action {
        AppAction::Connected => {
            &&& frame(o, n, set![StateField::Connected, StateField::ErrorMessage, StateField::IsWorking])
            &&& n.connected && n.error_message is None && !n.is_working
            &&& effects.len() == 0
        },
        AppAction::ConnectionFailed(err) => {
            &&& frame(o, n, set![StateField::ErrorMessage, StateField::IsWorking])
            &&& n.error_message == Some(err) && !n.is_working
            &&& effects.len() == 0
        },
        AppAction::HealthUpdated(h) => {
            &&& frame(o, n, set![StateField::HealthOk, StateField::Connected, StateField::ErrorMessage, StateField::IsWorking])
            &&& n.health_ok == Some(h.healthy)
            &&& if h.healthy {
                n.connected && n.error_message is None && n.is_working == o.is_working
            } else {
                !n.connected && !n.is_working && n.error_message == o.error_message
            }
            &&& effects.len() == 0
        },
        AppAction::ProjectsLoaded(ps) => {
            &&& frame(o, n, set![StateField::Projects])
            &&& n.projects == ps
            &&& effects.len() == 0
        },
        AppAction::CurrentProjectLoaded(p) => {
            &&& frame(o, n, set![StateField::CurrentProject])
            &&& n.current_project == Some(p)
            &&& effects.len() == 0
        },
        AppAction::SessionsLoaded(ss) => {
            &&& frame(o, n, set![StateField::Sessions])
            &&& n.sessions == ss
            &&& effects.len() == 0
        },
        AppAction::SessionLoaded(s) => {
            &&& frame(o, n, set![StateField::CurrentSession, StateField::Sessions])
            &&& n.sessions@ == sessions_upsert(o.sessions@, s)
            &&& (o.current_session_id is None ==> n.current_session_id == Some(s.id))
            &&& (o.current_session_id is Some ==> n.current_session_id == o.current_session_id)
            &&& effects.len() == 0
        },
        AppAction::SessionCreated(s) => {
            &&& frame(o, n, set![StateField::CurrentSession, StateField::Messages, StateField::Sessions, StateField::CurrentProject])
            &&& n.current_session_id == Some(s.id)
            &&& n.messages_by_session@.contains_key(s.id@)
            &&& n.messages_by_session@ == o.messages_by_session@.insert(s.id@, n.messages_by_session@[s.id@])
            &&& (o.messages_by_session@.contains_key(s.id@) ==> n.messages_by_session@[s.id@] == o.messages_by_session@[s.id@])
            &&& (!o.messages_by_session@.contains_key(s.id@) ==> n.messages_by_session@[s.id@]@.len() == 0)
            &&& n.sessions@ == (if first_session_with_id(o.sessions@, s.id@) is Some {
                o.sessions@
            } else {
                o.sessions@.push(s)
            })
            &&& match first_project_with_id(o.projects@, s.project_id@) {
                Some(j) => (n.current_project matches Some(p) && project_copy(p, o.projects@[j])),
                None => n.current_project == o.current_project,
            }
            &&& effects.len() == 0
        },
        AppAction::SessionDeleted(sid) => {
            &&& frame(o, n, set![StateField::CurrentSession, StateField::SelectedSession, StateField::IsWorking, StateField::Messages, StateField::WorkingBySession, StateField::TabBySession, StateField::Sessions])
            &&& ((o.current_session_id matches Some(c) && c@ == sid@) ==> (n.current_session_id is None
                && n.selected_session_id is None && !n.is_working))
            &&& (!(o.current_session_id matches Some(c) && c@ == sid@) ==> (n.current_session_id == o.current_session_id
                && n.is_working == o.is_working && if (o.selected_session_id matches Some(c) && c@ == sid@) {
                n.selected_session_id is None
            } else {
                n.selected_session_id == o.selected_session_id
            }))
            &&& n.messages_by_session@ == o.messages_by_session@.remove(sid@)
            &&& n.working_by_session@ == o.working_by_session@.remove(sid@)
            &&& n.tab_by_session@ == o.tab_by_session@.remove(sid@)
            &&& n.sessions@ == without_session(o.sessions@, sid@)
            &&& effects.len() == 0
        },
        AppAction::SessionUpdated(s) => {
            &&& frame(o, n, set![StateField::Sessions])
            &&& n.sessions@ == sessions_replace(o.sessions@, s)
            &&& effects.len() == 0
        },
        AppAction::SessionDiffLoaded { session_id, diffs } => {
            &&& frame(o, n, set![StateField::Sessions])
            &&& match first_session_with_id(o.sessions@, session_id@) {
                Some(i) => n.sessions@ == o.sessions@.update(
                    i,
                    Session { summary: Some(summary_with_diffs(o.sessions@[i].summary, diffs)), ..o.sessions@[i] },
                ),
                None => n.sessions == o.sessions,
            }
            &&& effects.len() == 0
        },
        AppAction::MessagesLoaded { session_id, messages } => {
            &&& frame(o, n, set![StateField::Messages])
            &&& n.messages_by_session@ == o.messages_by_session@.insert(session_id@, messages)
            &&& effects.len() == 1
            &&& effects[0] == StateEffect::RequestSessionDiff {
                session_id,
                message_id: last_user_message_id(messages@),
            }
        },
        AppAction::MessageReceived(m) => {
            &&& frame(o, n, set![StateField::WorkingBySession, StateField::CurrentSession, StateField::Messages, StateField::IsWorking])
            &&& n.working_by_session@ == (if m is Assistant {
                o.working_by_session@.insert(m.spec_session_id(), assistant_working(m))
            } else {
                o.working_by_session@
            })
            &&& (o.current_session_id is None ==> (n.current_session_id matches Some(c) && c@ == m.spec_session_id()))
            &&& (o.current_session_id is Some ==> n.current_session_id == o.current_session_id)
            &&& n.messages_by_session@ == o.messages_by_session@.insert(m.spec_session_id(), n.messages_by_session@[m.spec_session_id()])
            &&& message_upserted(cached_messages(o.messages_by_session@, m.spec_session_id()), m, n.messages_by_session@[m.spec_session_id()]@)
            &&& n.is_working == (if m is Assistant && (n.current_session_id matches Some(c) && c@ == m.spec_session_id()) {
                assistant_working(m)
            } else {
                o.is_working
            })
            &&& effects.len() == 0
        },
        AppAction::PartReceived { part, .. } => {
            &&& match part_message_id(part) {
                None => frame(o, n, Set::empty()),
                Some(mid) => match first_list_holding(o.messages_by_session.val_seq(), mid) {
                    None => frame(o, n, Set::empty()),
                    Some(i) => part_applied(o, n, part, i, first_message_with_id(o.messages_by_session.val_seq()[i]@, mid).unwrap()),
                },
            }
            &&& effects.len() == 0
        },
        AppAction::PendingPermissionsLoaded(ps) => {
            &&& frame(o, n, set![StateField::PendingPermissions])
            &&& n.pending_permissions == ps
            &&& effects.len() == 0
        },
        AppAction::PendingPermissionReceived(r) => {
            &&& frame(o, n, set![StateField::PendingPermissions])
            &&& n.pending_permissions@ == (if exists|k: int| 0 <= k < o.pending_permissions@.len() && o.pending_permissions@[k].id@ == r.id@ {
                o.pending_permissions@
            } else {
                o.pending_permissions@.push(r)
            })
            &&& effects.len() == 0
        },
        AppAction::PermissionResponded { request_id, .. } => {
            &&& frame(o, n, set![StateField::PendingPermissions])
            &&& n.pending_permissions@ == without_request(o.pending_permissions@, request_id@)
            &&& effects.len() == 0
        },
        AppAction::PermissionDismissed { request_id, .. } => {
            &&& frame(o, n, set![StateField::PendingPermissions])
            &&& n.pending_permissions@ == without_request(o.pending_permissions@, request_id@)
            &&& effects.len() == 0
        },
        AppAction::SessionErrorReceived { session_id, error } => {
            &&& ((o.current_session_id matches Some(c) && c@ == session_id@) ==> {
                &&& frame(o, n, set![StateField::IsWorking, StateField::Messages])
                &&& !n.is_working
                &&& n.messages_by_session@ == o.messages_by_session@.insert(session_id@, n.messages_by_session@[session_id@])
                &&& n.messages_by_session@[session_id@]@.len() == cached_messages(o.messages_by_session@, session_id@).len() + 1
                &&& n.messages_by_session@[session_id@]@.drop_last() == cached_messages(o.messages_by_session@, session_id@)
                &&& is_session_error_message(n.messages_by_session@[session_id@]@.last(), session_id@, error, now)
            })
            &&& (!(o.current_session_id matches Some(c) && c@ == session_id@) ==> {
                &&& frame(o, n, set![StateField::IsWorking])
                &&& !n.is_working
            })
            &&& effects.len() == 0
        },
        AppAction::SendMessageFailed(err) => {
            &&& frame(o, n, set![StateField::ErrorMessage, StateField::IsWorking])
            &&& n.error_message == Some(err) && !n.is_working
            &&& effects.len() == 0
        },
        AppAction::ProvidersLoaded(resp) => {
            &&& frame(o, n, set![StateField::Providers, StateField::ProviderLabels, StateField::SelectedProvider, StateField::ModelLabels, StateField::ModelEntries, StateField::SelectedModel])
            &&& n.providers == resp.providers
            &&& views(n.provider_labels@) == provider_label_views(resp.providers@)
            &&& n.selected_provider_idx == 0
            &&& views(n.model_labels@) == sort_by_label(models_for(resp.providers@, 0)).map_values(|t: ModelTriple| t.2)
            &&& n.model_entries@.map_values(|e: (String, String)| (e.0@, e.1@)) == sort_by_label(models_for(resp.providers@, 0)).map_values(|t: ModelTriple| (t.0, t.1))
            &&& n.selected_model_idx == 0
            &&& effects.len() == 0
        },
        AppAction::AgentsLoaded(agents) => {
            &&& frame(o, n, set![StateField::Agents, StateField::SelectedAgent])
            &&& n.agents == agents && n.selected_agent_idx is None
            &&& effects.len() == 0
        },
        AppAction::SkillsLoaded(skills) => {
            &&& frame(o, n, set![StateField::Skills, StateField::SelectedSkill])
            &&& n.skills == skills && n.selected_skill_idx is None
            &&& effects.len() == 0
        },
        AppAction::ConfigLoaded(c) => {
            &&& frame(o, n, set![StateField::ConfigField])
            &&& n.config == Some(c)
            &&& effects.len() == 0
        },
        _ => {
            &&& frame(o, n, Set::empty())
            &&& effects.len() == 0
        },
    }
}

/// Applies an action to the state, recording a session error as of `now_ms`, and
/// gives back the work it asks for.
pub fn reduce_app_state_at(state: &mut AppState, action: AppAction, now_ms: i64) -> (effects: Vec<StateEffect>)
    requires
        action matches AppAction::SessionDiffLoaded { diffs, .. } ==> diffs@.len() <= i64::MAX,
    ensures
        reduced(*old(state), action, now_ms, *final(state), effects@),
{
    let mut effects: Vec<StateEffect> = Vec::new();
    match action {
        AppAction::Connected => {
            state.connected = true;
            state.error_message = None;
            state.is_working = false;
        },
        AppAction::ConnectionFailed(err) => {
            state.error_message = Some(err);
            state.is_working = false;
        },
        AppAction::HealthUpdated(health) => {
            state.health_ok = Some(health.healthy);
            if health.healthy {
                state.connected = true;
                state.error_message = None;
            } else {
                state.connected = false;
                state.is_working = false;
            }
        },
        AppAction::ProjectsLoaded(projects) => {
            state.projects = projects;
        },
        AppAction::CurrentProjectLoaded(project) => {
            state.current_project = Some(project);
        },
        AppAction::SessionsLoaded(sessions) => {
            state.sessions = sessions;
        },
        AppAction::SessionLoaded(session) => {
            reduce_session_loaded(state, session);
        },
        AppAction::SessionCreated(session) => {
            reduce_session_created(state, session);
        },
        AppAction::SessionDeleted(session_id) => {
            reduce_session_deleted(state, session_id);
        },
        AppAction::SessionUpdated(session) => {
            reduce_session_updated(state, session);
        },
        AppAction::SessionDiffLoaded { session_id, diffs } => {
            reduce_session_diff_loaded(state, session_id, diffs);
        },
        AppAction::MessagesLoaded { session_id, messages } => {
            let message_id = last_user_message(&messages);
            let sid = session_id.clone();
            state.set_messages_for_session(session_id, messages);
            effects.push(StateEffect::RequestSessionDiff { session_id: sid, message_id });
        },
        AppAction::MessageReceived(message) => {
            reduce_message_received(state, message);
        },
        AppAction::PartReceived { part, delta: _ } => {
            reduce_part_received(state, part);
        },
        AppAction::PendingPermissionsLoaded(permissions) => {
            state.pending_permissions = permissions;
        },
        AppAction::PendingPermissionReceived(request) => {
            enqueue_pending_permission(state, request);
        },
        AppAction::PermissionResponded { session_id: _, request_id, reply: _ } => {
            remove_pending_permission(state, request_id.as_str());
        },
        AppAction::PermissionDismissed { session_id: _, request_id } => {
            remove_pending_permission(state, request_id.as_str());
        },
        AppAction::SessionErrorReceived { session_id, error } => {
            reduce_session_error_at(state, session_id, error, now_ms);
        },
        AppAction::SendMessageFailed(err) => {
            state.error_message = Some(err);
            state.is_working = false;
        },
        AppAction::ProvidersLoaded(providers_response) => {
            reduce_providers_loaded(state, providers_response.providers);
        },
        AppAction::AgentsLoaded(agents) => {
            state.agents = agents;
            state.selected_agent_idx = None;
        },
        AppAction::SkillsLoaded(skills) => {
            state.skills = skills;
            state.selected_skill_idx = None;
        },
        AppAction::ConfigLoaded(config) => {
            state.config = Some(config);
        },
        _ => {},
    }
    effects
}

/// Applies an action to the state and gives back the work it asks for. A session
/// error is recorded as of the current time.
pub fn reduce_app_state(state: &mut AppState, action: AppAction) -> (effects: Vec<StateEffect>)
    requires
        action matches AppAction::SessionDiffLoaded { diffs, .. } ==> diffs@.len() <= i64::MAX,
    ensures
        exists|now: i64| reduced(*old(state), action, now, *final(state), effects@),
{
    let now = crate::formatters::now_millis();
    reduce_app_state_at(state, action, now)
}

} // verus!
