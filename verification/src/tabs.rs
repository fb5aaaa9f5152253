//! The tabs of the center dock: which session or file each one shows.
use vstd::prelude::*;
use crate::messages::{
    duration_fits, message_views, rebuilt_messages, unfold_last, with_session_diffs, MessageList, PendingPermissionDisplay,
};
use crate::panels::flag;
use crate::state::{first_session_with_id, AppState, AttachedFile, CenterTabKind, LiveId, OpenFileState, PendingCenterIntent};
use crate::text::{int_decimal, join, join_strings, push_int_decimal, push_str, str_eq, string_of, views};
use crate::types::{FileDiff, MessageWithParts, PermissionRequest, SessionSummary};

verus! {

/// The state after the tab `tab_id` is closed: it is forgotten, and so is the
/// session or file it showed; `fallback` becomes the active tab if it was active.
pub open spec fn tab_closed(a: AppState, b: AppState, tab_id: LiveId, fallback: LiveId) -> bool {
    &&& b.center_tabs_by_id@ == a.center_tabs_by_id@.remove(tab_id)
    &&& (match a.center_tabs_by_id@.get(tab_id) {
        Some(CenterTabKind::Chat { session_id }) => b.tab_by_session@ == a.tab_by_session@.remove(session_id@)
            && b.tab_by_file == a.tab_by_file,
        Some(CenterTabKind::File { open_file }) => b.tab_by_file@ == a.tab_by_file@.remove(open_file.absolute_path@)
            && b.tab_by_session == a.tab_by_session,
        _ => b.tab_by_session == a.tab_by_session && b.tab_by_file == a.tab_by_file,
    })
    &&& b.active_center_tab == (if a.active_center_tab == Some(tab_id) { Some(fallback) } else { a.active_center_tab })
    &&& b == (AppState {
        center_tabs_by_id: b.center_tabs_by_id,
        tab_by_session: b.tab_by_session,
        tab_by_file: b.tab_by_file,
        active_center_tab: b.active_center_tab,
        ..a
    })
}

/// The state after a new tab `tab_id` showing the session `session_id` is
/// recorded and made active.
pub open spec fn chat_tab_added(a: AppState, b: AppState, tab_id: LiveId, session_id: String) -> bool {
    &&& b.center_tabs_by_id@ == a.center_tabs_by_id@.insert(tab_id, CenterTabKind::Chat { session_id })
    &&& b.tab_by_session@ == a.tab_by_session@.insert(session_id@, tab_id)
    &&& b == (AppState {
        center_tabs_by_id: b.center_tabs_by_id,
        tab_by_session: b.tab_by_session,
        active_center_tab: Some(tab_id),
        ..a
    })
}

/// Closing a chat tab right after opening it leaves the dock's records as they
/// were, when neither the tab nor the session had one before; the tab that
/// was active before is then the fallback that becomes active again.
pub proof fn law_closing_a_new_chat_tab_restores(
    a: AppState,
    b: AppState,
    c: AppState,
    tab_id: LiveId,
    session_id: String,
)
    requires
        !a.center_tabs_by_id@.contains_key(tab_id),
        !a.tab_by_session@.contains_key(session_id@),
        a.active_center_tab is Some,
        chat_tab_added(a, b, tab_id, session_id),
        tab_closed(b, c, tab_id, a.active_center_tab.unwrap()),
    ensures
        c.center_tabs_by_id@ == a.center_tabs_by_id@,
        c.tab_by_session@ == a.tab_by_session@,
        c.tab_by_file == a.tab_by_file,
        c.active_center_tab == a.active_center_tab,
{
    assert(b.center_tabs_by_id@.get(tab_id) == Some(CenterTabKind::Chat { session_id }));
    assert(c.center_tabs_by_id@ =~= a.center_tabs_by_id@);
    assert(c.tab_by_session@ =~= a.tab_by_session@);
}

impl AppState {
    /// Forgets the tab `tab_id` of the center dock and what it showed; when it
    /// was the active tab, `fallback` (the tab the dock selects in its place)
    /// becomes active.
    pub fn forget_center_tab(&mut self, tab_id: LiveId, fallback: LiveId)
        ensures
            tab_closed(*old(self), *final(self), tab_id, fallback),
    {
        let kind = self.center_tabs_by_id.remove(&tab_id);
        match kind {
            Some(CenterTabKind::Chat { session_id }) => {
                self.tab_by_session.remove(session_id.as_str());
            },
            Some(CenterTabKind::File { open_file }) => {
                self.tab_by_file.remove(open_file.absolute_path.as_str());
            },
            _ => {},
        }
        if self.active_center_tab == Some(tab_id) {
            self.active_center_tab = Some(fallback);
        }
    }

    /// Records a new tab of the center dock that shows a session, and makes it active.
    pub fn add_chat_tab(&mut self, tab_id: LiveId, session_id: String)
        ensures
            chat_tab_added(*old(self), *final(self), tab_id, session_id),
    {
        let key = session_id.clone();
        self.center_tabs_by_id.insert(tab_id, CenterTabKind::Chat { session_id });
        self.tab_by_session.insert(key, tab_id);
        self.active_center_tab = Some(tab_id);
    }

    /// Records a new tab of the center dock that shows a file.
    pub fn add_file_tab(&mut self, tab_id: LiveId, open_file: OpenFileState)
        ensures
            final(self).center_tabs_by_id@ == old(self).center_tabs_by_id@.insert(
                tab_id,
                CenterTabKind::File { open_file },
            ),
            final(self).tab_by_file@ == old(self).tab_by_file@.insert(open_file.absolute_path@, tab_id),
            *final(self) == (AppState {
                center_tabs_by_id: final(self).center_tabs_by_id,
                tab_by_file: final(self).tab_by_file,
                ..*old(self)
            }),
    {
        let key = open_file.absolute_path.clone();
        self.center_tabs_by_id.insert(tab_id, CenterTabKind::File { open_file });
        self.tab_by_file.insert(key, tab_id);
    }
}

/// The messages cached for a session (none when nothing is cached).
pub open spec fn session_messages(st: AppState, sid: Seq<char>) -> Seq<MessageWithParts> {
    match st.messages_by_session@.get(sid) {
        Some(v) => v@,
        None => Seq::empty(),
    }
}

/// The file changes of a session's summary (none without a summary).
pub open spec fn summary_diffs(st: AppState, sid: Seq<char>) -> Seq<FileDiff> {
    match first_session_with_id(st.sessions@, sid) {
        Some(i) => match st.sessions@[i].summary {
            Some(sm) => sm.diffs@,
            None => Seq::empty(),
        },
        None => Seq::empty(),
    }
}

/// The message a session has been reverted to, if any.
pub open spec fn session_revert(st: AppState, sid: Seq<char>) -> Option<String> {
    match first_session_with_id(st.sessions@, sid) {
        Some(i) => match st.sessions@[i].revert {
            Some(rv) => Some(rv.message_id),
            None => None,
        },
        None => None,
    }
}

/// A permission request as plain values: session, request id, permission, patterns.
pub type DisplayView = (Seq<char>, Seq<char>, Seq<char>, Seq<Seq<char>>);

/// The view of a permission request as the message list shows it.
pub open spec fn display_view(d: PendingPermissionDisplay) -> DisplayView {
    (d.session_id@, d.request_id@, d.permission@, views(d.patterns@))
}

/// The permission requests of a session, in order, as the message list shows them.
pub open spec fn session_displays(ps: Seq<PermissionRequest>, sid: Seq<char>) -> Seq<DisplayView>
    decreases ps.len(),
{
    if ps.len() == 0 {
        Seq::empty()
    } else {
        let rest = session_displays(ps.drop_last(), sid);
        let p = ps.last();
        if p.session_id@ == sid {
            rest.push((p.session_id@, p.id@, p.permission@, views(p.patterns@)))
        } else {
            rest
        }
    }
}

/// Whether every message cached for a session has a duration that can be computed.
pub open spec fn durations_fit(st: AppState, sid: Seq<char>) -> bool {
    forall|k: int| 0 <= k < session_messages(st, sid).len() ==> duration_fits(#[trigger] session_messages(st, sid)[k].info)
}

/// The line under a chat tab summing up a session's changes: "{files} files, +{added}, -{deleted}".
pub open spec fn summary_line(sm: SessionSummary) -> Seq<char> {
    int_decimal(sm.files as int) + " files, +"@ + int_decimal(sm.additions as int) + ", -"@ + int_decimal(sm.deletions as int)
}

/// The line summing up a session's changes.
pub fn format_summary_line(summary: &SessionSummary) -> (r: String)
    ensures
        r@ == summary_line(*summary),
{
    let mut out: Vec<char> = Vec::new();
    push_int_decimal(summary.files, &mut out);
    push_str(&mut out, " files, +");
    push_int_decimal(summary.additions, &mut out);
    push_str(&mut out, ", -");
    push_int_decimal(summary.deletions, &mut out);
    string_of(out.as_slice())
}

fn copy_strings(v: &Vec<String>) -> (r: Vec<String>)
    ensures
        views(r@) == views(v@),
{
    let mut r: Vec<String> = Vec::new();
    let mut k: usize = 0;
    while k < v.len()
        invariant
            k <= v.len(),
            views(r@) == views(v@).take(k as int),
        decreases v.len() - k,
    {
        let ghost r0 = views(r@);
        let c = v[k].clone();
        r.push(c);
        proof {
            assert(views(r@) =~= r0.push(c@));
            assert(views(v@).take(k + 1) =~= views(v@).take(k as int).push(v@[k as int]@));
        }
        k += 1;
    }
    assert(views(v@).take(k as int) =~= views(v@));
    r
}

/// What becomes of a change of the center dock.
pub enum CenterDecision {
    /// Carry it out now.
    RunNow(PendingCenterIntent),
    /// It waits for the user to decide about unsaved edits.
    Queued,
    /// Nothing is done (the home tab is never closed).
    Ignored,
}

/// The active tab, when it shows a file.
pub open spec fn active_file_tab(st: AppState) -> Option<LiveId> {
    match st.active_center_tab {
        Some(t) => match st.center_tabs_by_id@.get(t) {
            Some(CenterTabKind::File { .. }) => Some(t),
            _ => None,
        },
        None => None,
    }
}

/// Whether a change of the center dock would leave unsaved edits: opening a
/// file or a session, or switching to another tab, leaves those of the active
/// file tab; closing a file tab loses its own.
pub open spec fn leaves_unsaved(st: AppState, intent: PendingCenterIntent, active_dirty: bool, target_dirty: bool) -> bool {
    match intent {
        PendingCenterIntent::OpenFile { .. } => active_file_tab(st) is Some && active_dirty,
        PendingCenterIntent::OpenSession { .. } => active_file_tab(st) is Some && active_dirty,
        PendingCenterIntent::SwitchTab { tab_id } => active_file_tab(st) matches Some(a) && a != tab_id && active_dirty,
        PendingCenterIntent::CloseTab { tab_id } => (st.center_tabs_by_id@.get(tab_id) matches Some(
            CenterTabKind::File { .. },
        )) && target_dirty,
    }
}

/// The names of the attached files joined by ", ".
pub open spec fn attachments_text(fs: Seq<AttachedFile>) -> Seq<char> {
    join(fs.map_values(|f: AttachedFile| f.filename@), ", "@)
}

impl AppState {
    /// The permission requests of a session as the message list shows them.
    pub fn permission_displays(&self, session_id: &str) -> (r: Vec<PendingPermissionDisplay>)
        ensures
            r@.map_values(|d: PendingPermissionDisplay| display_view(d)) == session_displays(self.pending_permissions@, session_id@),
    {
        let ghost ps = self.pending_permissions@;
        let mut out: Vec<PendingPermissionDisplay> = Vec::new();
        let mut k: usize = 0;
        assert(ps.take(0) =~= Seq::<PermissionRequest>::empty());
        while k < self.pending_permissions.len()
            invariant
                k <= self.pending_permissions.len(),
                ps == self.pending_permissions@,
                out@.map_values(|d: PendingPermissionDisplay| display_view(d)) == session_displays(ps.take(k as int), session_id@),
            decreases self.pending_permissions.len() - k,
        {
            let p = &self.pending_permissions[k];
            proof {
                assert(ps.take(k + 1).drop_last() =~= ps.take(k as int));
                assert(ps.take(k + 1).last() == *p);
            }
            if crate::text::str_eq(p.session_id.as_str(), session_id) {
                let ghost o0 = out@.map_values(|d: PendingPermissionDisplay| display_view(d));
                let d = PendingPermissionDisplay {
                    session_id: p.session_id.clone(),
                    request_id: p.id.clone(),
                    permission: p.permission.clone(),
                    patterns: copy_strings(&p.patterns),
                };
                out.push(d);
                assert(out@.map_values(|d: PendingPermissionDisplay| display_view(d)) =~= o0.push(display_view(d)));
            }
            k += 1;
        }
        assert(ps.take(k as int) =~= ps);
        out
    }

    /// What the chat tab of a session shows: its cached messages (a working
    /// last reply unfolded), the message it was reverted to, whether it works,
    /// its permission requests, and its changes under the last reply.
    pub fn chat_tab_list(&self, session_id: &str) -> (r: MessageList)
        requires
            durations_fit(*self, session_id@),
        ensures
            message_views(r.messages@) == with_session_diffs(
                unfold_last(false, rebuilt_messages(session_messages(*self, session_id@))),
                summary_diffs(*self, session_id@),
            ),
            r.revert_message_id == session_revert(*self, session_id@),
            r.is_working == flag(self.working_by_session@, session_id@),
            r.pending_permissions@.map_values(|d: PendingPermissionDisplay| display_view(d)) == session_displays(
                self.pending_permissions@,
                session_id@,
            ),
    {
        let mut list = MessageList::new();
        let revert = self.current_revert_message_id_for_session(session_id);
        let empty: Vec<MessageWithParts> = Vec::new();
        let messages: &Vec<MessageWithParts> = match self.messages_by_session.get(session_id) {
            Some(v) => v,
            None => &empty,
        };
        assert(messages@ == session_messages(*self, session_id@));
        proof {
            assert(message_views(list.messages@) =~= Seq::<crate::messages::MessageView>::empty());
        }
        list.set_messages(messages, revert);
        let working = match self.working_by_session.get(session_id) {
            Some(w) => *w,
            None => false,
        };
        list.set_working(working);
        list.set_pending_permissions(self.permission_displays(session_id));
        let no_diffs: Vec<FileDiff> = Vec::new();
        match self.find_session(session_id) {
            Some(session) => match &session.summary {
                Some(summary) => list.set_session_diffs(&summary.diffs),
                None => list.set_session_diffs(&no_diffs),
            },
            None => list.set_session_diffs(&no_diffs),
        }
        list
    }

    /// Follows the active tab of the center dock: a chat tab makes its session
    /// the current and selected one; any other tab, or none, leaves no current session.
    pub fn sync_active_center(&mut self)
        ensures
            match old(self).active_center_tab {
                Some(t) => match old(self).center_tabs_by_id@.get(t) {
                    Some(CenterTabKind::Chat { session_id }) => *final(self) == (AppState {
                        current_session_id: Some(session_id),
                        selected_session_id: Some(session_id),
                        ..*old(self)
                    }),
                    _ => *final(self) == (AppState { current_session_id: None, ..*old(self) }),
                },
                None => *final(self) == (AppState { current_session_id: None, ..*old(self) }),
            },
    {
        let session: Option<String> = match self.active_center_tab {
            Some(t) => match self.center_tabs_by_id.get(&t) {
                Some(CenterTabKind::Chat { session_id }) => Some(session_id.clone()),
                _ => None,
            },
            None => None,
        };
        match session {
            Some(sid) => {
                self.current_session_id = Some(sid.clone());
                self.selected_session_id = Some(sid);
            },
            None => {
                self.current_session_id = None;
            },
        }
    }
    /// The active tab, when it shows a file.
    pub fn current_active_file_tab_id(&self) -> (r: Option<LiveId>)
        ensures
            r == active_file_tab(*self),
    {
        match self.active_center_tab {
            Some(t) => match self.center_tabs_by_id.get(&t) {
                Some(CenterTabKind::File { .. }) => Some(t),
                _ => None,
            },
            None => None,
        }
    }

    /// Whether the file tab `tab_id` has edits not saved: the editor's text
    /// differs from what was last read or saved. A tab that shows no file has none.
    pub fn file_tab_is_dirty(&self, tab_id: LiveId, current_text: &str) -> (b: bool)
        ensures
            b == (self.center_tabs_by_id@.get(tab_id) matches Some(CenterTabKind::File { open_file })
                && open_file.text_cache@ != current_text@),
    {
        match self.center_tabs_by_id.get(&tab_id) {
            Some(CenterTabKind::File { open_file }) => !str_eq(open_file.text_cache.as_str(), current_text),
            _ => false,
        }
    }

    /// Records that the file of tab `tab_id` was saved with `text`: it is what
    /// was last saved, one revision later (the count stops at its maximum).
    pub fn record_file_saved(&mut self, tab_id: LiveId, text: String)
        ensures
            match old(self).center_tabs_by_id@.get(tab_id) {
                Some(CenterTabKind::File { open_file }) => final(self).center_tabs_by_id@ == old(self).center_tabs_by_id@.insert(
                    tab_id,
                    CenterTabKind::File {
                        open_file: OpenFileState {
                            text_cache: text,
                            last_saved_revision: if open_file.last_saved_revision == u64::MAX {
                                u64::MAX
                            } else {
                                (open_file.last_saved_revision + 1) as u64
                            },
                            ..open_file
                        },
                    },
                ),
                _ => final(self).center_tabs_by_id@ == old(self).center_tabs_by_id@,
            },
            *final(self) == (AppState { center_tabs_by_id: final(self).center_tabs_by_id, ..*old(self) }),
    {
        match self.center_tabs_by_id.index_of(&tab_id) {
            Some(i) => {
                let updated = match self.center_tabs_by_id.value_at(i) {
                    CenterTabKind::File { open_file } => Some(OpenFileState {
                        project_id: open_file.project_id.clone(),
                        absolute_path: open_file.absolute_path.clone(),
                        display_name: open_file.display_name.clone(),
                        text_cache: text,
                        last_saved_revision: open_file.last_saved_revision.saturating_add(1),
                    }),
                    _ => None,
                };
                match updated {
                    Some(f) => {
                        self.center_tabs_by_id.replace_at(i, CenterTabKind::File { open_file: f });
                    },
                    None => {},
                }
            },
            None => {},
        }
    }

    /// Records that saving `path` failed with `err`.
    pub fn record_save_failure(&mut self, path: &str, err: &str)
        ensures
            final(self).error_message matches Some(m) && m@ == "Failed to save "@ + path@ + ": "@ + err@,
            *final(self) == (AppState { error_message: final(self).error_message, ..*old(self) }),
    {
        let mut out: Vec<char> = Vec::new();
        push_str(&mut out, "Failed to save ");
        push_str(&mut out, path);
        push_str(&mut out, ": ");
        push_str(&mut out, err);
        self.error_message = Some(string_of(out.as_slice()));
    }

    /// Decides a change of the center dock: it waits for the unsaved-changes
    /// dialog when it would leave unsaved edits (`active_dirty`: the active
    /// file tab has some; `target_dirty`: the tab to close has some), else it
    /// runs now; the home tab is never closed.
    pub fn decide_center_intent(
        &mut self,
        intent: PendingCenterIntent,
        home_tab: LiveId,
        active_dirty: bool,
        target_dirty: bool,
    ) -> (r: CenterDecision)
        ensures
            (intent matches PendingCenterIntent::CloseTab { tab_id } && tab_id == home_tab) ==> (r is Ignored
                && *final(self) == *old(self)),
            !(intent matches PendingCenterIntent::CloseTab { tab_id } && tab_id == home_tab) ==> if leaves_unsaved(
                *old(self),
                intent,
                active_dirty,
                target_dirty,
            ) {
                r is Queued && *final(self) == (AppState { pending_center_intent: Some(intent), ..*old(self) })
            } else {
                r == CenterDecision::RunNow(intent) && *final(self) == *old(self)
            },
    {
        let is_home_close = match &intent {
            PendingCenterIntent::CloseTab { tab_id } => *tab_id == home_tab,
            _ => false,
        };
        if is_home_close {
            return CenterDecision::Ignored;
        }
        let active = self.current_active_file_tab_id();
        let leaves = match &intent {
            PendingCenterIntent::OpenFile { .. } => active.is_some() && active_dirty,
            PendingCenterIntent::OpenSession { .. } => active.is_some() && active_dirty,
            PendingCenterIntent::SwitchTab { tab_id } => match active {
                Some(a) => a != *tab_id && active_dirty,
                None => false,
            },
            PendingCenterIntent::CloseTab { tab_id } => {
                let is_file = match self.center_tabs_by_id.get(tab_id) {
                    Some(CenterTabKind::File { .. }) => true,
                    _ => false,
                };
                is_file && target_dirty
            },
        };
        if leaves {
            self.pending_center_intent = Some(intent);
            CenterDecision::Queued
        } else {
            CenterDecision::RunNow(intent)
        }
    }

    /// Takes the change that waited for the unsaved-changes dialog, if any.
    pub fn take_pending_center_intent(&mut self) -> (r: Option<PendingCenterIntent>)
        ensures
            r == old(self).pending_center_intent,
            *final(self) == (AppState { pending_center_intent: None, ..*old(self) }),
    {
        self.pending_center_intent.take()
    }

    /// The names of the attached files, joined by ", ", when there are any.
    pub fn attachments_label(&self) -> (r: Option<String>)
        ensures
            self.attached_files@.len() == 0 ==> r is None,
            self.attached_files@.len() > 0 ==> (r matches Some(t) && t@ == attachments_text(self.attached_files@)),
    {
        if self.attached_files.len() == 0 {
            return None;
        }
        let mut names: Vec<String> = Vec::new();
        let mut k: usize = 0;
        while k < self.attached_files.len()
            invariant
                k <= self.attached_files.len(),
                views(names@) == self.attached_files@.take(k as int).map_values(|f: AttachedFile| f.filename@),
            decreases self.attached_files.len() - k,
        {
            let ghost n0 = views(names@);
            let c = self.attached_files[k].filename.clone();
            names.push(c);
            proof {
                assert(views(names@) =~= n0.push(c@));
                assert(self.attached_files@.take(k + 1).map_values(|f: AttachedFile| f.filename@) =~= self.attached_files@.take(
                    k as int,
                ).map_values(|f: AttachedFile| f.filename@).push(self.attached_files@[k as int].filename@));
            }
            k += 1;
        }
        assert(self.attached_files@.take(k as int) =~= self.attached_files@);
        Some(join_strings(&names, ", "))
    }
}

} // verus!
