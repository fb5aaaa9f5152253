//! Helpers the background tasks use when they talk to the server.
use vstd::prelude::*;
use crate::types::{PermissionAction, PermissionRule, Session};

verus! {

/// The title shown for a session: its title, else its slug, else its id.
pub open spec fn session_title(s: Session) -> Seq<char> {
    if s.title@.len() != 0 {
        s.title@
    } else if s.slug@.len() != 0 {
        s.slug@
    } else {
        s.id@
    }
}

/// Helper to get or create a session title from a session
pub fn get_session_title(session: &Session) -> (r: String)
    ensures
        r@ == session_title(*session),
{
    if !session.title.as_str().is_empty() {
        session.title.clone()
    } else if !session.slug.as_str().is_empty() {
        session.slug.clone()
    } else {
        session.id.clone()
    }
}

/// The permissions new sessions are created with: ask before anything.
pub fn default_permission_ruleset() -> (r: Vec<PermissionRule>)
    ensures
        r@.len() == 1,
        r@[0].permission@ == "*"@,
        r@[0].pattern@ == "*"@,
        r@[0].action == PermissionAction::Ask,
{
    let mut v = Vec::new();
    v.push(PermissionRule {
        permission: String::from_str("*"),
        pattern: String::from_str("*"),
        action: PermissionAction::Ask,
    });
    v
}

} // verus!
