//! How the events the server pushes turn into actions on the state.
use vstd::prelude::*;
use crate::actions::AppAction;
use crate::reducer::{reduce_app_state, reduced};
use crate::state::{AppState, StateEffect};
use crate::types::Event;

verus! {

/// The action an event from the server stands for, if any: a created session
/// is loaded, a deleted one removed by id, a replied permission dismissed.
pub open spec fn event_action(e: Event) -> Option<AppAction> {
    match e {
        Event::SessionCreated(s) => Some(AppAction::SessionLoaded(s)),
        Event::SessionUpdated(s) => Some(AppAction::SessionUpdated(s)),
        Event::SessionDeleted(s) => Some(AppAction::SessionDeleted(s.id)),
        Event::MessageUpdated(m) => Some(AppAction::MessageReceived(m)),
        Event::PartUpdated { part, delta } => Some(AppAction::PartReceived { part, delta }),
        Event::PermissionAsked(r) => Some(AppAction::PendingPermissionReceived(r)),
        Event::PermissionReplied { session_id, request_id, .. } => Some(AppAction::PermissionDismissed { session_id, request_id }),
        Event::SessionError { session_id, error } => Some(AppAction::SessionErrorReceived { session_id, error }),
        _ => None,
    }
}

/// The action an event from the server stands for, if any.
pub fn action_for_event(event: Event) -> (r: Option<AppAction>)
    ensures
        r == event_action(event),
{
    match event {
        Event::SessionCreated(s) => Some(AppAction::SessionLoaded(s)),
        Event::SessionUpdated(s) => Some(AppAction::SessionUpdated(s)),
        Event::SessionDeleted(s) => Some(AppAction::SessionDeleted(s.id)),
        Event::MessageUpdated(m) => Some(AppAction::MessageReceived(m)),
        Event::PartUpdated { part, delta } => Some(AppAction::PartReceived { part, delta }),
        Event::PermissionAsked(r) => Some(AppAction::PendingPermissionReceived(r)),
        Event::PermissionReplied { session_id, request_id, .. } => Some(AppAction::PermissionDismissed { session_id, request_id }),
        Event::SessionError { session_id, error } => Some(AppAction::SessionErrorReceived { session_id, error }),
        _ => None,
    }
}

/// Applies an event from the server to the state and gives back the work it
/// asks for; events that stand for no action change nothing.
pub fn handle_opencode_event(state: &mut AppState, event: Event) -> (effects: Vec<StateEffect>)
    ensures
        match event_action(event) {
            Some(a) => exists|now: i64| reduced(*old(state), a, now, *final(state), effects@),
            None => *final(state) == *old(state) && effects@.len() == 0,
        },
{
    match action_for_event(event) {
        Some(action) => reduce_app_state(state, action),
        None => Vec::new(),
    }
}

} // verus!
