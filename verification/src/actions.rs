//! Actions that drive the application state.
use vstd::prelude::*;
use crate::state::SidebarMode;
use crate::types::{
    Agent, AssistantError, Config, Event, FileDiff, HealthResponse, Message, MessageWithParts,
    Part, PermissionReply, PermissionRequest, Project, ProvidersResponse, Session, Skill,
};

verus! {

/// Something that happened: a reply from the server, an event it pushed, or a
/// request from the user interface.
pub enum AppAction {
    NoAction,
    Connected,
    ConnectionFailed(String),
    HealthUpdated(HealthResponse),
    ProjectsLoaded(Vec<Project>),
    CurrentProjectLoaded(Project),
    SessionsLoaded(Vec<Session>),
    SessionCreated(Session),
    SessionLoaded(Session),
    SessionDeleted(String),
    SessionUpdated(Session),
    SessionDiffLoaded { session_id: String, diffs: Vec<FileDiff> },
    RequestSessionDiff { session_id: String, message_id: Option<String> },
    MessagesLoaded { session_id: String, messages: Vec<MessageWithParts> },
    MessageReceived(Message),
    PartReceived { part: Part, delta: Option<String> },
    OpenCodeEvent(Event),
    SendMessageFailed(String),
    PermissionRequested {
        session_id: String,
        permission_id: String,
        permission: String,
        pattern: String,
    },
    PendingPermissionReceived(PermissionRequest),
    PermissionResponded { session_id: String, request_id: String, reply: PermissionReply },
    SessionErrorReceived { session_id: String, error: AssistantError },
    RevertToMessage { session_id: String, message_id: String },
    UnrevertSession(String),
    DialogConfirmed { dialog_type: String, value: String },
    PendingPermissionsLoaded(Vec<PermissionRequest>),
    PermissionDismissed { session_id: String, request_id: String },
    ProvidersLoaded(ProvidersResponse),
    AgentsLoaded(Vec<Agent>),
    SkillsLoaded(Vec<Skill>),
    ConfigLoaded(Config),
    AuthSet { provider_id: String, success: bool },
    SetSidebarMode(SidebarMode),
}

impl Default for AppAction {
    fn default() -> (r: Self)
        ensures
            r is NoAction,
    {
        AppAction::NoAction
    }
}

} // verus!
