//! Application state: sessions, messages, permissions and the tabs of the
//! center dock, with the queries the user interface asks of it.
use vstd::prelude::*;
use crate::idmap::IdMap;
use crate::strmap::StrMap;
use crate::tasks::{get_session_title, session_title};
use crate::types::{
    Agent, AssistantError, Config, FileDiff, HealthResponse, Message, MessageWithParts,
    ModelSpec, Part, PermissionReply, PermissionRequest, PermissionRule, Project, Provider,
    ProvidersResponse, Session, Skill,
};

verus! {

/// Identifier of a tab in the center dock.
#[derive(Clone, Copy, Debug, PartialEq, Eq, Structural, Hash)]
pub struct LiveId(pub u64);

/// Which panel the left sidebar shows.
#[derive(Clone, Copy, Debug, PartialEq, Eq, Structural)]
pub enum SidebarMode {
    Files,
    Settings,
}

impl Default for SidebarMode {
    fn default() -> (r: Self)
        ensures
            r == SidebarMode::Files,
    {
        SidebarMode::Files
    }
}

/// Work the state asks to be done once an action has been applied.
pub enum StateEffect {
    RequestSessionDiff { session_id: String, message_id: Option<String> },
}

/// What the user chose when closing or leaving a file with unsaved changes.
#[derive(Clone, Copy, Debug, PartialEq, Eq, Structural)]
pub enum UnsavedDecision {
    Save,
    Discard,
    Cancel,
}

/// An entry of the model picker.
#[derive(Clone)]
pub struct ModelDropdownEntry {
    pub label: String,
    pub provider_id: Option<String>,
    pub model_id: Option<String>,
    pub selectable: bool,
}

impl ModelDropdownEntry {
    pub fn default_option() -> (r: Self)
        ensures
            r.label@ == "Default"@,
            r.provider_id is None,
            r.model_id is None,
            r.selectable,
    {
        ModelDropdownEntry {
            label: String::from_str("Default"),
            provider_id: None,
            model_id: None,
            selectable: true,
        }
    }

    pub fn provider_header(label: String) -> (r: Self)
        ensures
            r.label == label,
            r.provider_id is None,
            r.model_id is None,
            !r.selectable,
    {
        ModelDropdownEntry { label, provider_id: None, model_id: None, selectable: false }
    }

    pub fn model_option(provider_id: String, model_id: String, label: String) -> (r: Self)
        ensures
            r.label == label,
            r.provider_id == Some(provider_id),
            r.model_id == Some(model_id),
            r.selectable,
    {
        ModelDropdownEntry {
            label,
            provider_id: Some(provider_id),
            model_id: Some(model_id),
            selectable: true,
        }
    }
}

/// A file opened in a center tab.
#[derive(Clone)]
pub struct OpenFileState {
    pub project_id: String,
    pub absolute_path: String,
    pub display_name: String,
    pub text_cache: String,
    pub last_saved_revision: u64,
}

/// What a center tab shows.
#[derive(Clone)]
pub enum CenterTabKind {
    Home,
    Chat { session_id: String },
    File { open_file: OpenFileState },
}

/// What a center tab is for.
#[derive(Clone)]
pub enum CenterTabTarget {
    Home,
    ChatSession(String),
    FilePath(String),
}

/// A change of the center dock that waits for the user to decide about unsaved edits.
#[derive(Clone)]
pub enum PendingCenterIntent {
    OpenFile { project_id: String, absolute_path: String },
    OpenSession { session_id: String },
    SwitchTab { tab_id: LiveId },
    CloseTab { tab_id: LiveId },
}

/// Information about an attached file ready to be sent
#[derive(Clone)]
pub struct AttachedFile {
    pub filename: String,
    pub mime_type: String,
    pub data_url: String,
    /// For text/plain attachments, the raw text, sent as a text part rather than a file.
    pub raw_text: Option<String>,
}

/// Application state for event handling.
pub struct AppState {
    pub messages_by_session: StrMap<Vec<MessageWithParts>>,
    pub projects: Vec<Project>,
    pub sessions: Vec<Session>,
    pub current_project: Option<Project>,
    pub selected_session_id: Option<String>,
    pub current_session_id: Option<String>,
    pub connected: bool,
    pub health_ok: Option<bool>,
    pub error_message: Option<String>,
    pub is_working: bool,
    pub working_by_session: StrMap<bool>,
    pub pending_permissions: Vec<PermissionRequest>,
    pub providers: Vec<Provider>,
    pub agents: Vec<Agent>,
    pub skills: Vec<Skill>,
    /// Selected provider index (0 = Default/All providers)
    pub selected_provider_idx: usize,
    /// Available provider labels for the provider dropdown
    pub provider_labels: Vec<String>,
    /// Currently filtered model labels based on selected provider
    pub model_labels: Vec<String>,
    /// Maps model dropdown index to (provider_id, model_id)
    pub model_entries: Vec<(String, String)>,
    pub selected_model_idx: usize,
    pub selected_agent_idx: Option<usize>,
    pub selected_skill_idx: Option<usize>,
    pub attached_files: Vec<AttachedFile>,
    pub config: Option<Config>,
    /// What each tab of the center dock shows.
    pub center_tabs_by_id: IdMap<CenterTabKind>,
    pub tab_by_session: StrMap<LiveId>,
    pub tab_by_file: StrMap<LiveId>,
    pub active_center_tab: Option<LiveId>,
    pub pending_center_intent: Option<PendingCenterIntent>,
}

/// The empty collections and unset fields of a fresh state.
pub open spec fn is_initial(s: AppState) -> bool {
    &&& s.messages_by_session@ == Map::<Seq<char>, Vec<MessageWithParts>>::empty()
    &&& s.projects@.len() == 0
    &&& s.sessions@.len() == 0
    &&& s.current_project is None
    &&& s.selected_session_id is None
    &&& s.current_session_id is None
    &&& !s.connected
    &&& s.health_ok is None
    &&& s.error_message is None
    &&& !s.is_working
    &&& s.working_by_session@ == Map::<Seq<char>, bool>::empty()
    &&& s.pending_permissions@.len() == 0
    &&& s.providers@.len() == 0
    &&& s.agents@.len() == 0
    &&& s.skills@.len() == 0
    &&& s.selected_provider_idx == 0
    &&& s.provider_labels@.len() == 0
    &&& s.model_labels@.len() == 0
    &&& s.model_entries@.len() == 0
    &&& s.selected_model_idx == 0
    &&& s.selected_agent_idx is None
    &&& s.selected_skill_idx is None
    &&& s.attached_files@.len() == 0
    &&& s.config is None
    &&& s.center_tabs_by_id@ == Map::<LiveId, CenterTabKind>::empty()
    &&& s.tab_by_session@ == Map::<Seq<char>, LiveId>::empty()
    &&& s.tab_by_file@ == Map::<Seq<char>, LiveId>::empty()
    &&& s.active_center_tab is None
    &&& s.pending_center_intent is None
}

impl Default for AppState {
    fn default() -> (r: Self)
        ensures
            is_initial(r),
    {
        AppState {
            messages_by_session: StrMap::new(),
            projects: Vec::new(),
            sessions: Vec::new(),
            current_project: None,
            selected_session_id: None,
            current_session_id: None,
            connected: false,
            health_ok: None,
            error_message: None,
            is_working: false,
            working_by_session: StrMap::new(),
            pending_permissions: Vec::new(),
            providers: Vec::new(),
            agents: Vec::new(),
            skills: Vec::new(),
            selected_provider_idx: 0,
            provider_labels: Vec::new(),
            model_labels: Vec::new(),
            model_entries: Vec::new(),
            selected_model_idx: 0,
            selected_agent_idx: None,
            selected_skill_idx: None,
            attached_files: Vec::new(),
            config: None,
            center_tabs_by_id: IdMap::new(),
            tab_by_session: StrMap::new(),
            tab_by_file: StrMap::new(),
            active_center_tab: None,
            pending_center_intent: None,
        }
    }
}

/// The position of the first session in `ss` whose id is `id`, if any.
pub open spec fn first_session_with_id(ss: Seq<Session>, id: Seq<char>) -> Option<int> {
    if exists|i: int| 0 <= i < ss.len() && ss[i].id@ == id {
        Some(choose|i: int| 0 <= i < ss.len() && ss[i].id@ == id && forall|j: int| 0 <= j < i ==> ss[j].id@ != id)
    } else {
        None
    }
}

/// Finds the position of the first session in `sessions` whose id is `id`.
pub fn find_session_index(sessions: &Vec<Session>, id: &str) -> (r: Option<usize>)
    ensures
        match r {
            Some(i) => i < sessions@.len() && first_session_with_id(sessions@, id@) == Some(i as int),
            None => first_session_with_id(sessions@, id@) is None,
        },
{
    let mut i: usize = 0;
    while i < sessions.len()
        invariant
            i <= sessions.len(),
            forall|j: int| 0 <= j < i ==> sessions@[j].id@ != id@,
        decreases sessions.len() - i,
    {
        if crate::text::str_eq(sessions[i].id.as_str(), id) {
            proof {
                let ss = sessions@;
                let w = choose|k: int| 0 <= k < ss.len() && ss[k].id@ == id@ && forall|j: int| 0 <= j < k ==> ss[j].id@ != id@;
                assert(0 <= i < ss.len() && ss[i as int].id@ == id@ && forall|j: int| 0 <= j < i ==> ss[j].id@ != id@);
                if w < i {
                } else if w > i {
                    assert(ss[i as int].id@ != id@);
                }
            }
            return Some(i);
        }
        i += 1;
    }
    None
}

/// The position of the first project in `ps` whose id is `id`, if any.
pub open spec fn first_project_with_id(ps: Seq<Project>, id: Seq<char>) -> Option<int> {
    if exists|i: int| 0 <= i < ps.len() && ps[i].id@ == id {
        Some(choose|i: int| 0 <= i < ps.len() && ps[i].id@ == id && forall|j: int| 0 <= j < i ==> ps[j].id@ != id)
    } else {
        None
    }
}

/// Finds the position of the first project in `projects` whose id is `id`.
fn find_project_index(projects: &Vec<Project>, id: &str) -> (r: Option<usize>)
    ensures
        match r {
            Some(i) => i < projects@.len() && first_project_with_id(projects@, id@) == Some(i as int),
            None => first_project_with_id(projects@, id@) is None,
        },
{
    let mut i: usize = 0;
    while i < projects.len()
        invariant
            i <= projects.len(),
            forall|j: int| 0 <= j < i ==> projects@[j].id@ != id@,
        decreases projects.len() - i,
    {
        if crate::text::str_eq(projects[i].id.as_str(), id) {
            proof {
                let ps = projects@;
                let w = choose|k: int| 0 <= k < ps.len() && ps[k].id@ == id@ && forall|j: int| 0 <= j < k ==> ps[j].id@ != id@;
                if w > i {
                    assert(ps[i as int].id@ != id@);
                }
            }
            return Some(i);
        }
        i += 1;
    }
    None
}

/// The project of the current session: the first project with the id of the
/// current session's project, when the session is loaded.
pub open spec fn session_project(st: AppState) -> Option<Project> {
    match st.current_session_id {
        Some(sid) => match first_session_with_id(st.sessions@, sid@) {
            Some(i) => match first_project_with_id(st.projects@, st.sessions@[i].project_id@) {
                Some(j) => Some(st.projects@[j]),
                None => None,
            },
            None => None,
        },
        None => None,
    }
}

/// A first label, then the name of each item.
pub open spec fn labels_after(first: Seq<char>, names: Seq<Seq<char>>) -> Seq<Seq<char>> {
    seq![first] + names
}

impl AppState {
    /// The session with the given id, if there is one.
    pub fn find_session(&self, session_id: &str) -> (r: Option<&Session>)
        ensures
            match first_session_with_id(self.sessions@, session_id@) {
                Some(i) => r == Some(&self.sessions@[i]),
                None => r is None,
            },
    {
        match find_session_index(&self.sessions, session_id) {
            Some(i) => Some(&self.sessions[i]),
            None => None,
        }
    }

    /// The model picked in the model list, if the index points at one.
    pub fn selected_model_spec(&self) -> (r: Option<ModelSpec>)
        ensures
            self.selected_model_idx < self.model_entries@.len() ==> (r matches Some(m) && m.provider_id
                == self.model_entries@[self.selected_model_idx as int].0 && m.model_id
                == self.model_entries@[self.selected_model_idx as int].1),
            self.selected_model_idx >= self.model_entries@.len() ==> r is None,
    {
        if self.selected_model_idx < self.model_entries.len() {
            let e = &self.model_entries[self.selected_model_idx];
            Some(ModelSpec { provider_id: e.0.clone(), model_id: e.1.clone() })
        } else {
            None
        }
    }

    /// The name of the selected agent, if one is selected and exists.
    pub fn selected_agent_name(&self) -> (r: Option<String>)
        ensures
            match self.selected_agent_idx {
                Some(i) if i < self.agents@.len() => r == Some(self.agents@[i as int].name),
                _ => r is None,
            },
    {
        match self.selected_agent_idx {
            Some(i) => if i < self.agents.len() {
                Some(self.agents[i].name.clone())
            } else {
                None
            },
            None => None,
        }
    }

    /// The permission rules of the selected agent, if one is selected and exists.
    pub fn selected_agent_permission(&self) -> (r: Option<Vec<PermissionRule>>)
        ensures
            match self.selected_agent_idx {
                Some(i) if i < self.agents@.len() => (r matches Some(p) && p@
                    == self.agents@[i as int].permission@),
                _ => r is None,
            },
    {
        match self.selected_agent_idx {
            Some(i) => if i < self.agents.len() {
                let src = &self.agents[i].permission;
                let mut out: Vec<PermissionRule> = Vec::new();
                let mut k: usize = 0;
                while k < src.len()
                    invariant
                        k <= src.len(),
                        out@ == src@.take(k as int),
                    decreases src.len() - k,
                {
                    out.push(src[k].clone());
                    assert(out@ =~= src@.take(k + 1));
                    k += 1;
                }
                assert(out@ =~= src@);
                Some(out)
            } else {
                None
            },
            None => None,
        }
    }

    /// The selected skill, if one is selected and exists.
    pub fn selected_skill(&self) -> (r: Option<&Skill>)
        ensures
            match self.selected_skill_idx {
                Some(i) if i < self.skills@.len() => r == Some(&self.skills@[i as int]),
                _ => r is None,
            },
    {
        match self.selected_skill_idx {
            Some(i) => if i < self.skills.len() {
                Some(&self.skills[i])
            } else {
                None
            },
            None => None,
        }
    }

    /// The system prompt that asks for the selected skill: "Use skill: NAME".
    pub fn selected_skill_prompt(&self) -> (r: Option<String>)
        ensures
            match self.selected_skill_idx {
                Some(i) if i < self.skills@.len() => (r matches Some(p) && p@ == "Use skill: "@
                    + self.skills@[i as int].name@),
                _ => r is None,
            },
    {
        match self.selected_skill() {
            Some(skill) => {
                let mut p = String::from_str("Use skill: ");
                p.append(skill.name.as_str());
                Some(p)
            },
            None => None,
        }
    }

    /// The messages cached for a session; none when nothing is cached.
    pub fn messages_for_session(&self, session_id: &str) -> (r: &[MessageWithParts])
        ensures
            self.messages_by_session@.contains_key(session_id@) ==> r@
                == self.messages_by_session@[session_id@]@,
            !self.messages_by_session@.contains_key(session_id@) ==> r@.len() == 0,
    {
        match self.messages_by_session.get(session_id) {
            Some(v) => v.as_slice(),
            None => &[],
        }
    }

    /// Replaces the messages cached for a session.
    pub fn set_messages_for_session(&mut self, session_id: String, messages: Vec<MessageWithParts>)
        ensures
            final(self).messages_by_session@ == old(self).messages_by_session@.insert(
                session_id@,
                messages,
            ),
            *final(self) == (AppState { messages_by_session: final(self).messages_by_session, ..*old(self) }),
    {
        self.messages_by_session.insert(session_id, messages);
    }

    /// The title to display and whether a session is active: the current session's
    /// title, "New session" when the current session is not loaded yet, or a prompt
    /// to pick one when there is no current session.
    pub fn get_session_title(&self) -> (r: (String, bool))
        ensures
            match self.current_session_id {
                Some(sid) => r.1 && match first_session_with_id(self.sessions@, sid@) {
                    Some(i) => r.0@ == session_title(self.sessions@[i]),
                    None => r.0@ == "New session"@,
                },
                None => !r.1 && r.0@ == "Select a session or start a new one"@,
            },
    {
        match &self.current_session_id {
            Some(sid) => {
                let title = match self.find_session(sid.as_str()) {
                    Some(session) => get_session_title(session),
                    None => String::from_str("New session"),
                };
                (title, true)
            },
            None => (String::from_str("Select a session or start a new one"), false),
        }
    }

    /// Whether the current session has been reverted to an earlier message.
    pub fn is_current_session_reverted(&self) -> (b: bool)
        ensures
            b == (self.current_session_id matches Some(sid) && first_session_with_id(
                self.sessions@,
                sid@,
            ) matches Some(i) && self.sessions@[i].revert is Some),
    {
        match &self.current_session_id {
            Some(sid) => match self.find_session(sid.as_str()) {
                Some(session) => session.revert.is_some(),
                None => false,
            },
            None => false,
        }
    }

    /// The message a session has been reverted to, if it has been.
    pub fn current_revert_message_id_for_session(&self, session_id: &str) -> (r: Option<String>)
        ensures
            r == (match first_session_with_id(self.sessions@, session_id@) {
                Some(i) => match self.sessions@[i].revert {
                    Some(rv) => Some(rv.message_id),
                    None => None,
                },
                None => None,
            }),
    {
        match self.find_session(session_id) {
            Some(session) => match &session.revert {
                Some(revert) => Some(revert.message_id.clone()),
                None => None,
            },
            None => None,
        }
    }

    /// The message the current session has been reverted to, if it has been.
    pub fn current_revert_message_id(&self) -> (r: Option<String>)
        ensures
            r == (match self.current_session_id {
                Some(sid) => match first_session_with_id(self.sessions@, sid@) {
                    Some(i) => match self.sessions@[i].revert {
                        Some(rv) => Some(rv.message_id),
                        None => None,
                    },
                    None => None,
                },
                None => None,
            }),
    {
        match &self.current_session_id {
            Some(sid) => self.current_revert_message_id_for_session(sid.as_str()),
            None => None,
        }
    }

    /// The public URL of the current session, if it is shared.
    pub fn current_share_url(&self) -> (r: Option<String>)
        ensures
            r == (match self.current_session_id {
                Some(sid) => match first_session_with_id(self.sessions@, sid@) {
                    Some(i) => match self.sessions@[i].share {
                        Some(sh) => Some(sh.url),
                        None => None,
                    },
                    None => None,
                },
                None => None,
            }),
    {
        match &self.current_session_id {
            Some(sid) => match self.find_session(sid.as_str()) {
                Some(session) => match &session.share {
                    Some(share) => Some(share.url.clone()),
                    None => None,
                },
                None => None,
            },
            None => None,
        }
    }
    /// The project of the current session, if the session is loaded and its
    /// project is known.
    pub fn project_for_current_session(&self) -> (r: Option<&Project>)
        ensures
            match session_project(*self) {
                Some(p) => r matches Some(q) && *q == p,
                None => r is None,
            },
    {
        match &self.current_session_id {
            Some(sid) => match self.find_session(sid.as_str()) {
                Some(session) => match find_project_index(&self.projects, session.project_id.as_str()) {
                    Some(j) => Some(&self.projects[j]),
                    None => None,
                },
                None => None,
            },
            None => None,
        }
    }

    /// The project the header shows: the current session's project, else the
    /// current project.
    pub fn context_project(&self) -> (r: Option<&Project>)
        ensures
            match session_project(*self) {
                Some(p) => r matches Some(q) && *q == p,
                None => match self.current_project {
                    Some(p) => r matches Some(q) && *q == p,
                    None => r is None,
                },
            },
    {
        match self.project_for_current_session() {
            Some(p) => Some(p),
            None => match &self.current_project {
                Some(p) => Some(p),
                None => None,
            },
        }
    }

    /// The labels of the agent list: "Default", then each agent's name.
    pub fn agent_labels(&self) -> (r: Vec<String>)
        ensures
            crate::text::views(r@) == labels_after("Default"@, self.agents@.map_values(|a: Agent| a.name@)),
    {
        let mut out: Vec<String> = Vec::new();
        out.push(String::from_str("Default"));
        let mut k: usize = 0;
        while k < self.agents.len()
            invariant
                k <= self.agents.len(),
                crate::text::views(out@) == labels_after("Default"@, self.agents@.take(k as int).map_values(|a: Agent| a.name@)),
            decreases self.agents.len() - k,
        {
            let ghost o0 = crate::text::views(out@);
            out.push(self.agents[k].name.clone());
            proof {
                assert(crate::text::views(out@) =~= o0.push(self.agents@[k as int].name@));
                assert(self.agents@.take(k + 1).map_values(|a: Agent| a.name@) =~= self.agents@.take(k as int).map_values(
                    |a: Agent| a.name@,
                ).push(self.agents@[k as int].name@));
            }
            k += 1;
        }
        assert(self.agents@.take(k as int) =~= self.agents@);
        out
    }

    /// The labels of the skill list: "Skill", then each skill's name.
    pub fn skill_labels(&self) -> (r: Vec<String>)
        ensures
            crate::text::views(r@) == labels_after("Skill"@, self.skills@.map_values(|s: Skill| s.name@)),
    {
        let mut out: Vec<String> = Vec::new();
        out.push(String::from_str("Skill"));
        let mut k: usize = 0;
        while k < self.skills.len()
            invariant
                k <= self.skills.len(),
                crate::text::views(out@) == labels_after("Skill"@, self.skills@.take(k as int).map_values(|s: Skill| s.name@)),
            decreases self.skills.len() - k,
        {
            let ghost o0 = crate::text::views(out@);
            out.push(self.skills[k].name.clone());
            proof {
                assert(crate::text::views(out@) =~= o0.push(self.skills@[k as int].name@));
                assert(self.skills@.take(k + 1).map_values(|s: Skill| s.name@) =~= self.skills@.take(k as int).map_values(
                    |s: Skill| s.name@,
                ).push(self.skills@[k as int].name@));
            }
            k += 1;
        }
        assert(self.skills@.take(k as int) =~= self.skills@);
        out
    }
}

} // verus!
