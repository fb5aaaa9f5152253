//! What the reducer promises across actions and calls.
use vstd::prelude::*;
use crate::actions::AppAction;
use crate::reducer::{
    assistant_working, cached_messages, first_message_with_id, frame, message_upserted, reduced,
    part_applied, sessions_upsert, summary_with_diffs, tab_upserted, without_request, without_session, StateField,
};
use crate::state::{first_session_with_id, AppState, LiveId, StateEffect};
use crate::types::{AssistantMessage, HealthResponse, UserMessage, Message, MessageWithParts, PermissionRequest, Session};

verus! {

/// When some session in `ss` has the id `id`, `first_session_with_id` names the
/// first such session.
pub proof fn lemma_first_session_with_id(ss: Seq<Session>, id: Seq<char>)
    ensures
        match first_session_with_id(ss, id) {
            Some(i) => 0 <= i < ss.len() && ss[i].id@ == id && forall|j: int| 0 <= j < i ==> ss[j].id@ != id,
            None => forall|j: int| 0 <= j < ss.len() ==> ss[j].id@ != id,
        },
{
    if exists|i: int| 0 <= i < ss.len() && ss[i].id@ == id {
        let w = choose|i: int| 0 <= i < ss.len() && ss[i].id@ == id;
        lemma_first_session_below(ss, id, w);
    }
}

proof fn lemma_first_session_below(ss: Seq<Session>, id: Seq<char>, w: int)
    requires
        0 <= w < ss.len(),
        ss[w].id@ == id,
    ensures
        exists|i: int| 0 <= i < ss.len() && ss[i].id@ == id && forall|j: int| 0 <= j < i ==> ss[j].id@ != id,
    decreases w,
{
    if exists|j: int| 0 <= j < w && ss[j].id@ == id {
        let j = choose|j: int| 0 <= j < w && ss[j].id@ == id;
        lemma_first_session_below(ss, id, j);
    } else {
        assert(forall|j: int| 0 <= j < w ==> ss[j].id@ != id);
    }
}

/// No request left by `without_request` has the removed id, and every request
/// with another id stays.
pub proof fn lemma_without_request(ps: Seq<PermissionRequest>, id: Seq<char>)
    ensures
        forall|k: int| 0 <= k < without_request(ps, id).len() ==> without_request(ps, id)[k].id@ != id,
        forall|k: int| 0 <= k < ps.len() && ps[k].id@ != id ==> without_request(ps, id).contains(ps[k]),
    decreases ps.len(),
{
    if ps.len() > 0 {
        lemma_without_request(ps.drop_last(), id);
        let rest = without_request(ps.drop_last(), id);
        assert forall|k: int| 0 <= k < ps.len() && ps[k].id@ != id implies without_request(ps, id).contains(ps[k]) by {
            if k < ps.len() - 1 {
                assert(ps.drop_last()[k] == ps[k]);
                let w = choose|w: int| 0 <= w < rest.len() && rest[w] == ps[k];
                if ps.last().id@ != id {
                    assert(without_request(ps, id)[w] == ps[k]);
                }
            } else {
                assert(without_request(ps, id) == rest.push(ps.last()));
                assert(without_request(ps, id)[rest.len() as int] == ps[k]);
            }
        }
    }
}

/// No session left by `without_session` has the removed id, and every session
/// with another id stays.
pub proof fn lemma_without_session(ss: Seq<Session>, id: Seq<char>)
    ensures
        forall|k: int| 0 <= k < without_session(ss, id).len() ==> without_session(ss, id)[k].id@ != id,
        forall|k: int| 0 <= k < ss.len() && ss[k].id@ != id ==> without_session(ss, id).contains(ss[k]),
    decreases ss.len(),
{
    if ss.len() > 0 {
        lemma_without_session(ss.drop_last(), id);
        let rest = without_session(ss.drop_last(), id);
        assert forall|k: int| 0 <= k < ss.len() && ss[k].id@ != id implies without_session(ss, id).contains(ss[k]) by {
            if k < ss.len() - 1 {
                assert(ss.drop_last()[k] == ss[k]);
                let w = choose|w: int| 0 <= w < rest.len() && rest[w] == ss[k];
                if ss.last().id@ != id {
                    assert(without_session(ss, id)[w] == ss[k]);
                }
            } else {
                assert(without_session(ss, id) == rest.push(ss.last()));
                assert(without_session(ss, id)[rest.len() as int] == ss[k]);
            }
        }
    }
}

/// A permission request received twice is queued once: the second reception
/// changes nothing, and after the first the queue holds a request of that id.
pub proof fn law_permission_request_queued_once(
    o: AppState,
    r: PermissionRequest,
    now: i64,
    n1: AppState,
    e1: Seq<StateEffect>,
    n2: AppState,
    e2: Seq<StateEffect>,
)
    requires
        reduced(o, AppAction::PendingPermissionReceived(r), now, n1, e1),
        reduced(n1, AppAction::PendingPermissionReceived(r), now, n2, e2),
    ensures
        exists|k: int| 0 <= k < n1.pending_permissions@.len() && n1.pending_permissions@[k].id@ == r.id@,
        n2.pending_permissions@ == n1.pending_permissions@,
        frame(n1, n2, set![StateField::PendingPermissions]),
        frame(o, n1, set![StateField::PendingPermissions]),
        e1.len() == 0 && e2.len() == 0,
{
    if !(exists|k: int| 0 <= k < o.pending_permissions@.len() && o.pending_permissions@[k].id@ == r.id@) {
        let k = o.pending_permissions@.len() as int;
        assert(n1.pending_permissions@[k] == r);
    }
}

/// The id of the request that an answer or a dismissal is about.
pub open spec fn answered_request_id(action: AppAction) -> Seq<char> {
    match action {
        AppAction::PermissionResponded { request_id, .. } => request_id@,
        AppAction::PermissionDismissed { request_id, .. } => request_id@,
        _ => Seq::empty(),
    }
}

/// Once a permission request is answered or dismissed, no queued request has its
/// id, and every other request stays queued.
pub proof fn law_answered_request_leaves_queue(o: AppState, action: AppAction, now: i64, n: AppState, e: Seq<StateEffect>)
    requires
        action is PermissionResponded || action is PermissionDismissed,
        reduced(o, action, now, n, e),
    ensures
        forall|k: int| 0 <= k < n.pending_permissions@.len()
            ==> #[trigger] n.pending_permissions@[k].id@ != answered_request_id(action),
        forall|k: int| 0 <= k < o.pending_permissions@.len() && #[trigger] o.pending_permissions@[k].id@ != answered_request_id(action)
            ==> n.pending_permissions@.contains(o.pending_permissions@[k]),
        frame(o, n, set![StateField::PendingPermissions]),
{
    lemma_without_request(o.pending_permissions@, answered_request_id(action));
}

/// Deleting a session forgets it everywhere: no cached messages, no working
/// flag, no tab, no session of that id, and it is neither current nor selected.
pub proof fn law_deleted_session_is_forgotten(o: AppState, sid: String, now: i64, n: AppState, e: Seq<StateEffect>)
    requires
        reduced(o, AppAction::SessionDeleted(sid), now, n, e),
    ensures
        !n.messages_by_session@.contains_key(sid@),
        !n.working_by_session@.contains_key(sid@),
        !n.tab_by_session@.contains_key(sid@),
        forall|k: int| 0 <= k < n.sessions@.len() ==> n.sessions@[k].id@ != sid@,
        !(n.current_session_id matches Some(c) && c@ == sid@),
        !(n.selected_session_id matches Some(c) && c@ == sid@),
        forall|k: int| 0 <= k < o.sessions@.len() && o.sessions@[k].id@ != sid@ ==> n.sessions@.contains(o.sessions@[k]),
{
    lemma_without_session(o.sessions@, sid@);
}

/// A loaded session is in the session list afterwards, and it does not take the
/// place of a current session that is already set.
pub proof fn law_loaded_session_is_listed(o: AppState, s: Session, now: i64, n: AppState, e: Seq<StateEffect>)
    requires
        reduced(o, AppAction::SessionLoaded(s), now, n, e),
    ensures
        n.sessions@.contains(s),
        o.current_session_id is Some ==> n.current_session_id == o.current_session_id,
        o.current_session_id is None ==> n.current_session_id == Some(s.id),
{
    lemma_first_session_with_id(o.sessions@, s.id@);
    match first_session_with_id(o.sessions@, s.id@) {
        Some(i) => {
            assert(sessions_upsert(o.sessions@, s)[i] == s);
        },
        None => {
            assert(sessions_upsert(o.sessions@, s)[o.sessions@.len() as int] == s);
        },
    }
}

/// Loaded messages go to their own session's cache and leave every other
/// session's cache as it was.
pub proof fn law_loaded_messages_stay_with_their_session(
    o: AppState,
    action: AppAction,
    now: i64,
    n: AppState,
    e: Seq<StateEffect>,
)
    requires
        action is MessagesLoaded,
        reduced(o, action, now, n, e),
    ensures
        match action {
            AppAction::MessagesLoaded { session_id, messages } => {
                &&& n.messages_by_session@.contains_key(session_id@)
                &&& n.messages_by_session@[session_id@] == messages
                &&& forall|k: Seq<char>| k != session_id@ ==> (n.messages_by_session@.contains_key(k)
                    == o.messages_by_session@.contains_key(k))
                &&& forall|k: Seq<char>| k != session_id@ && o.messages_by_session@.contains_key(k)
                    ==> n.messages_by_session@[k] == o.messages_by_session@[k]
            },
            _ => true,
        },
        e.len() == 1,
{
}

/// An unhealthy report leaves the client disconnected and not working.
pub proof fn law_unhealthy_report_disconnects(o: AppState, h: HealthResponse, now: i64, n: AppState, e: Seq<StateEffect>)
    requires
        !h.healthy,
        reduced(o, AppAction::HealthUpdated(h), now, n, e),
    ensures
        n.health_ok == Some(false),
        !n.connected,
        !n.is_working,
{
}

/// When some message in `ms` has the id `id`, `first_message_with_id` names the
/// first such message.
pub proof fn lemma_first_message_with_id(ms: Seq<MessageWithParts>, id: Seq<char>)
    ensures
        match first_message_with_id(ms, id) {
            Some(i) => 0 <= i < ms.len() && ms[i].info.spec_id() == id && forall|j: int| 0 <= j < i ==> ms[j].info.spec_id() != id,
            None => forall|j: int| 0 <= j < ms.len() ==> ms[j].info.spec_id() != id,
        },
{
    if exists|i: int| 0 <= i < ms.len() && ms[i].info.spec_id() == id {
        let w = choose|i: int| 0 <= i < ms.len() && ms[i].info.spec_id() == id;
        lemma_first_message_below(ms, id, w);
    }
}

proof fn lemma_first_message_below(ms: Seq<MessageWithParts>, id: Seq<char>, w: int)
    requires
        0 <= w < ms.len(),
        ms[w].info.spec_id() == id,
    ensures
        exists|i: int| 0 <= i < ms.len() && ms[i].info.spec_id() == id && forall|j: int| 0 <= j < i ==> ms[j].info.spec_id() != id,
    decreases w,
{
    if exists|j: int| 0 <= j < w && ms[j].info.spec_id() == id {
        let j = choose|j: int| 0 <= j < w && ms[j].info.spec_id() == id;
        lemma_first_message_below(ms, id, j);
    } else {
        assert(forall|j: int| 0 <= j < w ==> ms[j].info.spec_id() != id);
    }
}

/// A message that is upserted into a list is in the list afterwards.
pub proof fn lemma_upserted_message_is_listed(before: Seq<MessageWithParts>, m: Message, after: Seq<MessageWithParts>)
    requires
        message_upserted(before, m, after),
    ensures
        exists|j: int| 0 <= j < after.len() && after[j].info == m,
{
    lemma_first_message_with_id(before, m.spec_id());
    match first_message_with_id(before, m.spec_id()) {
        Some(j) => {
            assert(after[j].info == m);
        },
        None => {
            assert(after[after.len() - 1].info == m);
        },
    }
}

/// An assistant message for the current session (or when none is current) is
/// cached for its session, sets that session's working flag, and sets the
/// working indicator: on while the reply is still being written.
pub proof fn law_assistant_message_sets_working(o: AppState, m: Message, now: i64, n: AppState, e: Seq<StateEffect>)
    requires
        m is Assistant,
        o.current_session_id is None || (o.current_session_id matches Some(c) && c@ == m.spec_session_id()),
        reduced(o, AppAction::MessageReceived(m), now, n, e),
    ensures
        n.working_by_session@.contains_key(m.spec_session_id()),
        n.working_by_session@[m.spec_session_id()] == assistant_working(m),
        n.is_working == assistant_working(m),
        n.messages_by_session@.contains_key(m.spec_session_id()),
        exists|j: int| 0 <= j < n.messages_by_session@[m.spec_session_id()]@.len()
            && n.messages_by_session@[m.spec_session_id()]@[j].info == m,
{
    lemma_upserted_message_is_listed(
        cached_messages(o.messages_by_session@, m.spec_session_id()),
        m,
        n.messages_by_session@[m.spec_session_id()]@,
    );
}

/// Asking twice for a tab for the same key gives the same tab: the second call
/// finds the tab that the first one gave, creates nothing and leaves the map as
/// it was.
pub proof fn law_tab_upsert_is_idempotent(
    m0: Map<Seq<char>, LiveId>,
    key: Seq<char>,
    id1: LiveId,
    m1: Map<Seq<char>, LiveId>,
    r1: (LiveId, bool),
    id2: LiveId,
    m2: Map<Seq<char>, LiveId>,
    r2: (LiveId, bool),
)
    requires
        tab_upserted(m0, key, id1, m1, r1),
        tab_upserted(m1, key, id2, m2, r2),
    ensures
        r2 == (r1.0, false),
        m2 == m1,
        m1.contains_key(key) && m1[key] == r1.0,
        r1.1 <==> !m0.contains_key(key),
{
}

/// No two sessions of `ss` share an id.
pub open spec fn session_ids_distinct(ss: Seq<Session>) -> bool {
    forall|i: int, j: int| 0 <= i < j < ss.len() ==> ss[i].id@ != ss[j].id@
}

/// `without_session` keeps only sessions of `ss`, in their order, so it keeps
/// their ids apart.
proof fn lemma_without_session_distinct(ss: Seq<Session>, id: Seq<char>)
    requires
        session_ids_distinct(ss),
    ensures
        session_ids_distinct(without_session(ss, id)),
        forall|k: int| 0 <= k < without_session(ss, id).len() ==> ss.contains(#[trigger] without_session(ss, id)[k]),
    decreases ss.len(),
{
    if ss.len() > 0 {
        let d = ss.drop_last();
        assert(session_ids_distinct(d));
        lemma_without_session_distinct(d, id);
        let rest = without_session(d, id);
        if ss.last().id@ != id {
            let r = rest.push(ss.last());
            assert(without_session(ss, id) == r);
            assert forall|k: int| 0 <= k < rest.len() implies (#[trigger] rest[k]).id@ != ss.last().id@ by {
                assert(d.contains(rest[k]));
                let w = choose|w: int| 0 <= w < d.len() && d[w] == rest[k];
                assert(ss[w] == rest[k]);
            }
            assert forall|k: int| 0 <= k < r.len() implies ss.contains(#[trigger] r[k]) by {
                if k < rest.len() {
                    assert(d.contains(rest[k]));
                    let w = choose|w: int| 0 <= w < d.len() && d[w] == rest[k];
                    assert(ss[w] == r[k]);
                } else {
                    assert(ss[ss.len() - 1] == r[k]);
                }
            }
        } else {
            assert forall|k: int| 0 <= k < rest.len() implies ss.contains(#[trigger] rest[k]) by {
                assert(d.contains(rest[k]));
                let w = choose|w: int| 0 <= w < d.len() && d[w] == rest[k];
                assert(ss[w] == rest[k]);
            }
        }
    }
}

/// Replacing the session at `i` by one of the same id keeps the ids apart.
proof fn lemma_same_id_update_distinct(ss: Seq<Session>, i: int, s: Session)
    requires
        session_ids_distinct(ss),
        0 <= i < ss.len(),
        s.id@ == ss[i].id@,
    ensures
        session_ids_distinct(ss.update(i, s)),
{
    let u = ss.update(i, s);
    assert forall|a: int, b: int| 0 <= a < b < u.len() implies u[a].id@ != u[b].id@ by {
        assert(u[a].id@ == ss[a].id@);
        assert(u[b].id@ == ss[b].id@);
    }
}

/// Appending a session whose id no session of `ss` has keeps the ids apart.
proof fn lemma_fresh_push_distinct(ss: Seq<Session>, s: Session)
    requires
        session_ids_distinct(ss),
        first_session_with_id(ss, s.id@) is None,
    ensures
        session_ids_distinct(ss.push(s)),
{
    lemma_first_session_with_id(ss, s.id@);
    let u = ss.push(s);
    assert forall|a: int, b: int| 0 <= a < b < u.len() implies u[a].id@ != u[b].id@ by {
        assert(u[a] == ss[a]);
        if b < ss.len() {
            assert(u[b] == ss[b]);
        }
    }
}

/// The session list never holds two sessions with one id: every action keeps
/// the ids apart, provided a list loaded whole has them apart.
pub proof fn law_session_ids_stay_distinct(o: AppState, action: AppAction, now: i64, n: AppState, e: Seq<StateEffect>)
    requires
        reduced(o, action, now, n, e),
        session_ids_distinct(o.sessions@),
        action matches AppAction::SessionsLoaded(ss) ==> session_ids_distinct(ss@),
    ensures
        session_ids_distinct(n.sessions@),
{
    match action {
        AppAction::SessionLoaded(s) => {
            lemma_first_session_with_id(o.sessions@, s.id@);
            match first_session_with_id(o.sessions@, s.id@) {
                Some(i) => lemma_same_id_update_distinct(o.sessions@, i, s),
                None => lemma_fresh_push_distinct(o.sessions@, s),
            }
        },
        AppAction::SessionCreated(s) => {
            if first_session_with_id(o.sessions@, s.id@) is None {
                lemma_fresh_push_distinct(o.sessions@, s);
            }
        },
        AppAction::SessionUpdated(s) => {
            lemma_first_session_with_id(o.sessions@, s.id@);
            if let Some(i) = first_session_with_id(o.sessions@, s.id@) {
                lemma_same_id_update_distinct(o.sessions@, i, s);
            }
        },
        AppAction::SessionDiffLoaded { session_id, diffs } => {
            lemma_first_session_with_id(o.sessions@, session_id@);
            if let Some(i) = first_session_with_id(o.sessions@, session_id@) {
                lemma_same_id_update_distinct(
                    o.sessions@,
                    i,
                    Session { summary: Some(summary_with_diffs(o.sessions@[i].summary, diffs)), ..o.sessions@[i] },
                );
            }
        },
        AppAction::SessionDeleted(sid) => {
            lemma_without_session_distinct(o.sessions@, sid@);
        },
        AppAction::SessionsLoaded(_) => {},
        _ => lemma_sessions_untouched(o, action, now, n, e),
    }
}

/// An action that is about no session leaves the session list as it was.
#[verifier::spinoff_prover]
proof fn lemma_sessions_untouched(o: AppState, action: AppAction, now: i64, n: AppState, e: Seq<StateEffect>)
    requires
        reduced(o, action, now, n, e),
        !(action is SessionsLoaded || action is SessionLoaded || action is SessionCreated || action is SessionDeleted
            || action is SessionUpdated || action is SessionDiffLoaded),
    ensures
        n.sessions == o.sessions,
{
    reveal(part_applied);
}

/// Once an assistant reply is received, its session counts as working exactly
/// while the reply is neither completed nor failed: a reply that carries an
/// error, or has a completion time, leaves the session idle. The same holds of
/// the working indicator when the reply's session is the current one.
pub proof fn law_assistant_reply_working_flag(o: AppState, a: AssistantMessage, now: i64, n: AppState, e: Seq<StateEffect>)
    requires
        reduced(o, AppAction::MessageReceived(Message::Assistant(a)), now, n, e),
    ensures
        n.working_by_session@.contains_key(a.session_id@),
        n.working_by_session@[a.session_id@] <==> (a.time.completed is None && a.error is None),
        a.error is Some ==> !n.working_by_session@[a.session_id@],
        (n.current_session_id matches Some(c) && c@ == a.session_id@)
            ==> (n.is_working <==> (a.time.completed is None && a.error is None)),
{
}

/// A message from the user changes no working flag and leaves the working
/// indicator as it was.
pub proof fn law_user_message_keeps_working_flags(o: AppState, u: UserMessage, now: i64, n: AppState, e: Seq<StateEffect>)
    requires
        reduced(o, AppAction::MessageReceived(Message::User(u)), now, n, e),
    ensures
        n.working_by_session@ == o.working_by_session@,
        n.is_working == o.is_working,
{
}

} // verus!
