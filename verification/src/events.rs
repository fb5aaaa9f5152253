//! Events of the server's stream, read from the JSON of a frame's data: the
//! optional "payload" envelope, the event's "type" and "properties", and the
//! fields that each kind of event needs.
use vstd::prelude::*;
use crate::json::{
    get_member, get_member_node, get_number_member, get_str_member, member, member_node, number_member,
    opt_node_view, opt_str_view, parse_json, str_member, JsonNode, JsonNodeView, JsonNumber,
};
use crate::sse::{classify_sse_event, event_kind, SseEventKind};
use crate::text::str_eq;
use crate::types::{PermissionReply, SessionStatus};

verus! {

/// A session status as plain values.
pub enum StatusView {
    Idle,
    Retry { attempt: u64, message: Seq<char>, next: u64 },
    Busy,
}

/// The view of a session status.
pub open spec fn status_view(s: SessionStatus) -> StatusView {
    match s {
        SessionStatus::Idle => StatusView::Idle,
        SessionStatus::Retry { attempt, message, next } => StatusView::Retry { attempt, message: message@, next },
        SessionStatus::Busy => StatusView::Busy,
    }
}

/// The view of an optional session status.
pub open spec fn opt_status_view(s: Option<SessionStatus>) -> Option<StatusView> {
    match s {
        Some(x) => Some(status_view(x)),
        None => None,
    }
}

/// The views of lists of answers.
pub open spec fn answers_view(a: Seq<Vec<String>>) -> Seq<Seq<Seq<char>>> {
    a.map_values(|v: Vec<String>| v@.map_values(|s: String| s@))
}

/// The views of a list of strings.
pub open spec fn strings_view(a: Seq<String>) -> Seq<Seq<char>> {
    a.map_values(|s: String| s@)
}

/// A node's string, if it is one.
pub open spec fn str_of(n: Option<JsonNodeView>) -> Option<Seq<char>> {
    match n {
        Some(JsonNodeView::Str(s)) => Some(s),
        _ => None,
    }
}

/// A node's value as the bits of a floating-point number, if it is a number.
pub open spec fn float_of(n: Option<JsonNodeView>) -> Option<u64> {
    match n {
        Some(JsonNodeView::Number(x)) => x.float_bits,
        _ => None,
    }
}

/// A session status from its tag and, for a retry, its fields.
pub open spec fn status_from(tag: Option<Seq<char>>, attempt: Option<u64>, message: Option<Seq<char>>, next: Option<u64>) -> Option<StatusView> {
    match tag {
        Some(t) => if t == "idle"@ {
            Some(StatusView::Idle)
        } else if t == "busy"@ {
            Some(StatusView::Busy)
        } else if t == "retry"@ {
            match (attempt, message, next) {
                (Some(a), Some(m), Some(x)) => Some(StatusView::Retry { attempt: a, message: m, next: x }),
                _ => None,
            }
        } else {
            None
        },
        None => None,
    }
}

/// A session status as serde reads it, tagged by "type": an object with a
/// "type" string, and for a retry the number "attempt", the string "message"
/// and the number "next"; or an array whose first element is the tag, followed
/// for a retry by exactly those three fields in order.
pub open spec fn status_of(n: Option<JsonNodeView>) -> Option<StatusView> {
    match n {
        Some(JsonNodeView::Object(ms)) => status_from(
            str_member(JsonNodeView::Object(ms), "type"@),
            float_of(member_node(JsonNodeView::Object(ms), "attempt"@)),
            str_member(JsonNodeView::Object(ms), "message"@),
            float_of(member_node(JsonNodeView::Object(ms), "next"@)),
        ),
        Some(JsonNodeView::Array(es)) => if es.len() == 0 {
            None
        } else if es.len() == 4 {
            status_from(str_of(json_node_of(es[0])), float_of(json_node_of(es[1])), str_of(json_node_of(es[2])), float_of(json_node_of(es[3])))
        } else {
            status_from(str_of(json_node_of(es[0])), None, None, None)
        },
        _ => None,
    }
}

/// What a JSON text reads as.
pub open spec fn json_node_of(t: Seq<char>) -> Option<JsonNodeView> {
    crate::json::json_node(t)
}

/// The permission reply with the given name.
pub open spec fn reply_named(s: Seq<char>) -> Option<PermissionReply> {
    if s == "once"@ {
        Some(PermissionReply::Once)
    } else if s == "always"@ {
        Some(PermissionReply::Always)
    } else if s == "reject"@ {
        Some(PermissionReply::Reject)
    } else {
        None
    }
}

/// A permission reply as serde reads it: its name as a string, or an object
/// whose one member has the name as key and null as value.
pub open spec fn reply_of(n: Option<JsonNodeView>) -> Option<PermissionReply> {
    match n {
        Some(JsonNodeView::Str(s)) => reply_named(s),
        Some(JsonNodeView::Object(ms)) => if ms.len() == 1 && json_node_of(ms[0].1) == Some(JsonNodeView::Null) {
            reply_named(ms[0].0)
        } else {
            None
        },
        _ => None,
    }
}

/// The strings that the JSON texts `es` hold, if each holds a string.
pub open spec fn strings_in(es: Seq<Seq<char>>) -> Option<Seq<Seq<char>>>
    decreases es.len(),
{
    if es.len() == 0 {
        Some(Seq::empty())
    } else {
        match (strings_in(es.drop_last()), str_of(json_node_of(es.last()))) {
            (Some(r), Some(s)) => Some(r.push(s)),
            _ => None,
        }
    }
}

/// The lists of strings that the JSON texts `es` hold, if each holds an array
/// of strings.
pub open spec fn string_lists_in(es: Seq<Seq<char>>) -> Option<Seq<Seq<Seq<char>>>>
    decreases es.len(),
{
    if es.len() == 0 {
        Some(Seq::empty())
    } else {
        match (string_lists_in(es.drop_last()), json_node_of(es.last())) {
            (Some(r), Some(JsonNodeView::Array(xs))) => match strings_in(xs) {
                Some(l) => Some(r.push(l)),
                None => None,
            },
            _ => None,
        }
    }
}

/// The answers of a question as serde reads a list of lists of strings.
pub open spec fn answers_of(n: Option<JsonNodeView>) -> Option<Seq<Seq<Seq<char>>>> {
    match n {
        Some(JsonNodeView::Array(es)) => string_lists_in(es),
        _ => None,
    }
}

/// An exit code: a number that is an `i64`.
pub open spec fn exit_code_of(n: Option<JsonNumber>) -> Option<i64> {
    match n {
        Some(x) => x.int,
        None => None,
    }
}

/// A duration: a number, as the bits of a floating-point value.
pub open spec fn duration_of(n: Option<JsonNumber>) -> Option<u64> {
    match n {
        Some(x) => x.float_bits,
        None => None,
    }
}

/// The view of an optional event.
pub open spec fn opt_event_view(r: Option<StreamEvent>) -> Option<StreamEventView> {
    match r {
        Some(e) => Some(e@),
        None => None,
    }
}

/// The node that carries the event: the "payload" member when there is one,
/// else the whole value.
pub open spec fn payload_of(top: JsonNodeView) -> Option<JsonNodeView> {
    match member(top, "payload"@) {
        Some(t) => json_node_of(t),
        None => Some(top),
    }
}

/// The event that the data of a frame gives: the data must be JSON; the event
/// is its "payload" member, or the whole value without one; it needs a string
/// "type" and a "properties" member, and then the fields of its kind. A type
/// that is not known gives `Unknown` with the type.
pub open spec fn sse_event_of(data: Seq<char>) -> Option<StreamEventView> {
    match json_node_of(data) {
        Some(top) => match payload_of(top) {
            Some(p) => match (str_member(p, "type"@), member(p, "properties"@)) {
                (Some(t), Some(pt)) => match json_node_of(pt) {
                    Some(props) => event_from_props(event_kind(t), t, props, pt),
                    None => None,
                },
                _ => None,
            },
            None => None,
        },
        None => None,
    }
}

/// The text of a node, if it is a string.
fn read_str(n: Option<JsonNode>) -> (r: Option<String>)
    ensures
        opt_str_view(r) == str_of(opt_node_view(n)),
{
    match n {
        Some(JsonNode::Str(s)) => Some(s),
        _ => None,
    }
}

/// The floating-point bits of a node, if it is a number.
fn read_float(n: Option<JsonNode>) -> (r: Option<u64>)
    ensures
        r == float_of(opt_node_view(n)),
{
    match n {
        Some(JsonNode::Number(x)) => x.float_bits,
        _ => None,
    }
}

/// Builds a session status from its tag and fields.
fn status_built(tag: Option<String>, attempt: Option<u64>, message: Option<String>, next: Option<u64>) -> (r: Option<SessionStatus>)
    ensures
        opt_status_view(r) == status_from(opt_str_view(tag), attempt, opt_str_view(message), next),
{
    match tag {
        Some(t) => if str_eq(t.as_str(), "idle") {
            Some(SessionStatus::Idle)
        } else if str_eq(t.as_str(), "busy") {
            Some(SessionStatus::Busy)
        } else if str_eq(t.as_str(), "retry") {
            match (attempt, message, next) {
                (Some(a), Some(m), Some(x)) => Some(SessionStatus::Retry { attempt: a, message: m, next: x }),
                _ => None,
            }
        } else {
            None
        },
        None => None,
    }
}

/// Reads a session status.
pub fn read_status(n: Option<JsonNode>) -> (r: Option<SessionStatus>)
    ensures
        opt_status_view(r) == status_of(opt_node_view(n)),
{
    match n {
        Some(JsonNode::Object(ms)) => {
            let node = JsonNode::Object(ms);
            let tag = get_str_member(&node, "type");
            let attempt = read_float(get_member_node(&node, "attempt"));
            let message = get_str_member(&node, "message");
            let next = read_float(get_member_node(&node, "next"));
            status_built(tag, attempt, message, next)
        },
        Some(JsonNode::Array(es)) => {
            let ghost ev = es@.map_values(|e: String| e@);
            if es.len() == 0 {
                None
            } else if es.len() == 4 {
                let tag = read_str(parse_json(es[0].as_str()));
                let attempt = read_float(parse_json(es[1].as_str()));
                let message = read_str(parse_json(es[2].as_str()));
                let next = read_float(parse_json(es[3].as_str()));
                assert(ev[0] == es@[0]@ && ev[1] == es@[1]@ && ev[2] == es@[2]@ && ev[3] == es@[3]@);
                status_built(tag, attempt, message, next)
            } else {
                let tag = read_str(parse_json(es[0].as_str()));
                assert(ev[0] == es@[0]@);
                status_built(tag, None, None, None)
            }
        },
        _ => None,
    }
}

/// The permission reply with the given name.
fn reply_by_name(s: &str) -> (r: Option<PermissionReply>)
    ensures
        r == reply_named(s@),
{
    if str_eq(s, "once") {
        Some(PermissionReply::Once)
    } else if str_eq(s, "always") {
        Some(PermissionReply::Always)
    } else if str_eq(s, "reject") {
        Some(PermissionReply::Reject)
    } else {
        None
    }
}

/// Reads a permission reply.
pub fn read_reply(n: Option<JsonNode>) -> (r: Option<PermissionReply>)
    ensures
        r == reply_of(opt_node_view(n)),
{
    match n {
        Some(JsonNode::Str(s)) => reply_by_name(s.as_str()),
        Some(JsonNode::Object(ms)) => {
            let ghost mv = ms@.map_values(|m: (String, String)| (m.0@, m.1@));
            if ms.len() == 1 {
                assert(mv[0] == (ms@[0].0@, ms@[0].1@));
                match parse_json(ms[0].1.as_str()) {
                    Some(JsonNode::Null) => reply_by_name(ms[0].0.as_str()),
                    _ => None,
                }
            } else {
                None
            }
        },
        _ => None,
    }
}

/// The strings that the JSON texts `es` hold, if each holds a string.
fn read_strings(es: &Vec<String>) -> (r: Option<Vec<String>>)
    ensures
        match r {
            Some(v) => strings_in(strings_view(es@)) == Some(strings_view(v@)),
            None => strings_in(strings_view(es@)) is None,
        },
{
    let ghost ev = strings_view(es@);
    let mut out: Vec<String> = Vec::new();
    let mut ok = true;
    let mut i: usize = 0;
    assert(ev.take(0) =~= Seq::<Seq<char>>::empty());
    assert(strings_view(out@) =~= Seq::<Seq<char>>::empty());
    while i < es.len()
        invariant
            i <= es.len(),
            ev == strings_view(es@),
            ok ==> strings_in(ev.take(i as int)) == Some(strings_view(out@)),
            !ok ==> strings_in(ev.take(i as int)) is None,
        decreases es.len() - i,
    {
        assert(ev.take(i + 1).drop_last() =~= ev.take(i as int));
        assert(ev.take(i + 1).last() == es@[i as int]@);
        let s = read_str(parse_json(es[i].as_str()));
        if ok {
            match s {
                Some(x) => {
                    let ghost before = strings_view(out@);
                    let ghost xv = x@;
                    out.push(x);
                    assert(strings_view(out@) =~= before.push(xv));
                },
                None => {
                    ok = false;
                },
            }
        }
        i += 1;
    }
    assert(ev.take(es.len() as int) =~= ev);
    if ok { Some(out) } else { None }
}

/// Reads the answers of a question: a list of lists of strings.
pub fn read_answers(n: Option<JsonNode>) -> (r: Option<Vec<Vec<String>>>)
    ensures
        match r {
            Some(v) => answers_of(opt_node_view(n)) == Some(answers_view(v@)),
            None => answers_of(opt_node_view(n)) is None,
        },
{
    match n {
        Some(JsonNode::Array(es)) => {
            let ghost ev = strings_view(es@);
            assert(ev == es@.map_values(|e: String| e@));
            let mut out: Vec<Vec<String>> = Vec::new();
            let mut ok = true;
            let mut i: usize = 0;
            assert(ev.take(0) =~= Seq::<Seq<char>>::empty());
            assert(answers_view(out@) =~= Seq::<Seq<Seq<char>>>::empty());
            while i < es.len()
                invariant
                    i <= es.len(),
                    ev == strings_view(es@),
                    ok ==> string_lists_in(ev.take(i as int)) == Some(answers_view(out@)),
                    !ok ==> string_lists_in(ev.take(i as int)) is None,
                decreases es.len() - i,
            {
                assert(ev.take(i + 1).drop_last() =~= ev.take(i as int));
                assert(ev.take(i + 1).last() == es@[i as int]@);
                let item = match parse_json(es[i].as_str()) {
                    Some(JsonNode::Array(xs)) => {
                        assert(strings_view(xs@) == xs@.map_values(|e: String| e@));
                        read_strings(&xs)
                    },
                    _ => None,
                };
                if ok {
                    match item {
                        Some(x) => {
                            let ghost before = answers_view(out@);
                            let ghost xv = strings_view(x@);
                            out.push(x);
                            assert(answers_view(out@) =~= before.push(xv));
                        },
                        None => {
                            ok = false;
                        },
                    }
                }
                i += 1;
            }
            assert(ev.take(es.len() as int) =~= ev);
            if ok { Some(out) } else { None }
        },
        _ => None,
    }
}

/// Reads an exit code.
pub fn read_exit_code(n: Option<JsonNumber>) -> (r: Option<i64>)
    ensures
        r == exit_code_of(n),
{
    match n {
        Some(x) => x.int,
        None => None,
    }
}

/// Reads a duration.
pub fn read_duration(n: Option<JsonNumber>) -> (r: Option<u64>)
    ensures
        r == duration_of(n),
{
    match n {
        Some(x) => x.float_bits,
        None => None,
    }
}

/// Reads the event that the data of a frame of the stream carries.
pub fn parse_sse_event(data: &str) -> (r: Option<StreamEvent>)
    ensures
        opt_event_view(r) == sse_event_of(data@),
{
    let top = parse_json(data)?;
    let payload = match get_member(&top, "payload") {
        Some(t) => parse_json(t.as_str()),
        None => Some(top),
    };
    let p = payload?;
    let event_type = get_str_member(&p, "type")?;
    let props_text = get_member(&p, "properties")?;
    let props = parse_json(props_text.as_str())?;
    let kind = classify_sse_event(event_type.as_str());
    event_from_props_node(kind, event_type, &props, props_text)
}

/// An event of the stream as the library reads it: every field that the event
/// format gives, with each record it carries (a session, a message, a part, a
/// permission request, ...) kept as its JSON text.
pub enum StreamEvent {
    SessionCreated(String),
    SessionUpdated(String),
    SessionDeleted(String),
    SessionStatus { session_id: String, status: SessionStatus },
    SessionIdle { session_id: String },
    SessionCompacted { session_id: String },
    SessionDiff { session_id: String, diff: String },
    MessageUpdated(String),
    MessageRemoved { session_id: String, message_id: String },
    PartUpdated { part: String, delta: Option<String> },
    PartDelta { session_id: String, message_id: String, part_id: String, field: String, delta: String },
    PartRemoved { session_id: String, message_id: String, part_id: String },
    SessionError { session_id: String, error: String },
    PermissionAsked(String),
    PermissionReplied { session_id: String, request_id: String, reply: PermissionReply },
    QuestionAsked(String),
    QuestionReplied { session_id: String, request_id: String, answers: Vec<Vec<String>> },
    QuestionRejected { session_id: String, request_id: String },
    TodoUpdated { session_id: String, todos: String },
    TuiPromptAppend { text: String },
    TuiCommandExecute { command: String },
    TuiToastShow { title: Option<String>, message: String, variant: String, duration: Option<u64> },
    TuiSessionSelect { session_id: String },
    PtyCreated(String),
    PtyUpdated(String),
    PtyExited { id: String, exit_code: i64 },
    PtyDeleted { id: String },
    ProjectUpdated(String),
    VcsBranchUpdated { branch: String },
    FileEdited { file: String },
    FileWatcherUpdated { file: String, event: String },
    LspUpdated,
    LspDiagnostics { server_id: String, path: String },
    WorktreeReady { name: String, branch: String },
    WorktreeFailed { message: String },
    McpToolsChanged { server: String },
    McpBrowserOpenFailed { mcp_name: String, url: String },
    CommandExecuted { name: String, session_id: String, arguments: String, message_id: String },
    InstallationUpdated { version: String },
    InstallationUpdateAvailable { version: String },
    ServerConnected,
    GlobalDisposed,
    ServerInstanceDisposed { directory: String },
    Unknown(String),
}

/// A `StreamEvent` as plain values.
pub enum StreamEventView {
    SessionCreated(Seq<char>),
    SessionUpdated(Seq<char>),
    SessionDeleted(Seq<char>),
    SessionStatus { session_id: Seq<char>, status: StatusView },
    SessionIdle { session_id: Seq<char> },
    SessionCompacted { session_id: Seq<char> },
    SessionDiff { session_id: Seq<char>, diff: Seq<char> },
    MessageUpdated(Seq<char>),
    MessageRemoved { session_id: Seq<char>, message_id: Seq<char> },
    PartUpdated { part: Seq<char>, delta: Option<Seq<char>> },
    PartDelta { session_id: Seq<char>, message_id: Seq<char>, part_id: Seq<char>, field: Seq<char>, delta: Seq<char> },
    PartRemoved { session_id: Seq<char>, message_id: Seq<char>, part_id: Seq<char> },
    SessionError { session_id: Seq<char>, error: Seq<char> },
    PermissionAsked(Seq<char>),
    PermissionReplied { session_id: Seq<char>, request_id: Seq<char>, reply: PermissionReply },
    QuestionAsked(Seq<char>),
    QuestionReplied { session_id: Seq<char>, request_id: Seq<char>, answers: Seq<Seq<Seq<char>>> },
    QuestionRejected { session_id: Seq<char>, request_id: Seq<char> },
    TodoUpdated { session_id: Seq<char>, todos: Seq<char> },
    TuiPromptAppend { text: Seq<char> },
    TuiCommandExecute { command: Seq<char> },
    TuiToastShow { title: Option<Seq<char>>, message: Seq<char>, variant: Seq<char>, duration: Option<u64> },
    TuiSessionSelect { session_id: Seq<char> },
    PtyCreated(Seq<char>),
    PtyUpdated(Seq<char>),
    PtyExited { id: Seq<char>, exit_code: i64 },
    PtyDeleted { id: Seq<char> },
    ProjectUpdated(Seq<char>),
    VcsBranchUpdated { branch: Seq<char> },
    FileEdited { file: Seq<char> },
    FileWatcherUpdated { file: Seq<char>, event: Seq<char> },
    LspUpdated,
    LspDiagnostics { server_id: Seq<char>, path: Seq<char> },
    WorktreeReady { name: Seq<char>, branch: Seq<char> },
    WorktreeFailed { message: Seq<char> },
    McpToolsChanged { server: Seq<char> },
    McpBrowserOpenFailed { mcp_name: Seq<char>, url: Seq<char> },
    CommandExecuted { name: Seq<char>, session_id: Seq<char>, arguments: Seq<char>, message_id: Seq<char> },
    InstallationUpdated { version: Seq<char> },
    InstallationUpdateAvailable { version: Seq<char> },
    ServerConnected,
    GlobalDisposed,
    ServerInstanceDisposed { directory: Seq<char> },
    Unknown(Seq<char>),
}

impl View for StreamEvent {
    type V = StreamEventView;

    open spec fn view(&self) -> StreamEventView {
        match self {
            StreamEvent::SessionCreated(info) => StreamEventView::SessionCreated(info@),
            StreamEvent::SessionUpdated(info) => StreamEventView::SessionUpdated(info@),
            StreamEvent::SessionDeleted(info) => StreamEventView::SessionDeleted(info@),
            StreamEvent::SessionStatus { session_id, status } => StreamEventView::SessionStatus { session_id: session_id@, status: status_view(*status) },
            StreamEvent::SessionIdle { session_id } => StreamEventView::SessionIdle { session_id: session_id@ },
            StreamEvent::SessionCompacted { session_id } => StreamEventView::SessionCompacted { session_id: session_id@ },
            StreamEvent::SessionDiff { session_id, diff } => StreamEventView::SessionDiff { session_id: session_id@, diff: diff@ },
            StreamEvent::MessageUpdated(info) => StreamEventView::MessageUpdated(info@),
            StreamEvent::MessageRemoved { session_id, message_id } => StreamEventView::MessageRemoved { session_id: session_id@, message_id: message_id@ },
            StreamEvent::PartUpdated { part, delta } => StreamEventView::PartUpdated { part: part@, delta: opt_str_view(*delta) },
            StreamEvent::PartDelta { session_id, message_id, part_id, field, delta } => StreamEventView::PartDelta { session_id: session_id@, message_id: message_id@, part_id: part_id@, field: field@, delta: delta@ },
            StreamEvent::PartRemoved { session_id, message_id, part_id } => StreamEventView::PartRemoved { session_id: session_id@, message_id: message_id@, part_id: part_id@ },
            StreamEvent::SessionError { session_id, error } => StreamEventView::SessionError { session_id: session_id@, error: error@ },
            StreamEvent::PermissionAsked(request) => StreamEventView::PermissionAsked(request@),
            StreamEvent::PermissionReplied { session_id, request_id, reply } => StreamEventView::PermissionReplied { session_id: session_id@, request_id: request_id@, reply: *reply },
            StreamEvent::QuestionAsked(request) => StreamEventView::QuestionAsked(request@),
            StreamEvent::QuestionReplied { session_id, request_id, answers } => StreamEventView::QuestionReplied { session_id: session_id@, request_id: request_id@, answers: answers_view(answers@) },
            StreamEvent::QuestionRejected { session_id, request_id } => StreamEventView::QuestionRejected { session_id: session_id@, request_id: request_id@ },
            StreamEvent::TodoUpdated { session_id, todos } => StreamEventView::TodoUpdated { session_id: session_id@, todos: todos@ },
            StreamEvent::TuiPromptAppend { text } => StreamEventView::TuiPromptAppend { text: text@ },
            StreamEvent::TuiCommandExecute { command } => StreamEventView::TuiCommandExecute { command: command@ },
            StreamEvent::TuiToastShow { title, message, variant, duration } => StreamEventView::TuiToastShow { title: opt_str_view(*title), message: message@, variant: variant@, duration: *duration },
            StreamEvent::TuiSessionSelect { session_id } => StreamEventView::TuiSessionSelect { session_id: session_id@ },
            StreamEvent::PtyCreated(info) => StreamEventView::PtyCreated(info@),
            StreamEvent::PtyUpdated(info) => StreamEventView::PtyUpdated(info@),
            StreamEvent::PtyExited { id, exit_code } => StreamEventView::PtyExited { id: id@, exit_code: *exit_code },
            StreamEvent::PtyDeleted { id } => StreamEventView::PtyDeleted { id: id@ },
            StreamEvent::ProjectUpdated(info) => StreamEventView::ProjectUpdated(info@),
            StreamEvent::VcsBranchUpdated { branch } => StreamEventView::VcsBranchUpdated { branch: branch@ },
            StreamEvent::FileEdited { file } => StreamEventView::FileEdited { file: file@ },
            StreamEvent::FileWatcherUpdated { file, event } => StreamEventView::FileWatcherUpdated { file: file@, event: event@ },
            StreamEvent::LspUpdated => StreamEventView::LspUpdated,
            StreamEvent::LspDiagnostics { server_id, path } => StreamEventView::LspDiagnostics { server_id: server_id@, path: path@ },
            StreamEvent::WorktreeReady { name, branch } => StreamEventView::WorktreeReady { name: name@, branch: branch@ },
            StreamEvent::WorktreeFailed { message } => StreamEventView::WorktreeFailed { message: message@ },
            StreamEvent::McpToolsChanged { server } => StreamEventView::McpToolsChanged { server: server@ },
            StreamEvent::McpBrowserOpenFailed { mcp_name, url } => StreamEventView::McpBrowserOpenFailed { mcp_name: mcp_name@, url: url@ },
            StreamEvent::CommandExecuted { name, session_id, arguments, message_id } => StreamEventView::CommandExecuted { name: name@, session_id: session_id@, arguments: arguments@, message_id: message_id@ },
            StreamEvent::InstallationUpdated { version } => StreamEventView::InstallationUpdated { version: version@ },
            StreamEvent::InstallationUpdateAvailable { version } => StreamEventView::InstallationUpdateAvailable { version: version@ },
            StreamEvent::ServerConnected => StreamEventView::ServerConnected,
            StreamEvent::GlobalDisposed => StreamEventView::GlobalDisposed,
            StreamEvent::ServerInstanceDisposed { directory } => StreamEventView::ServerInstanceDisposed { directory: directory@ },
            StreamEvent::Unknown(event_type) => StreamEventView::Unknown(event_type@),
        }
    }
}

/// The event that the properties `props` (with JSON text `props_text`) of an
/// event of type `t` and kind `kind` give: each kind's required fields must be
/// there, with their types, or there is no event.
pub open spec fn event_from_props(kind: SseEventKind, t: Seq<char>, props: JsonNodeView, props_text: Seq<char>) -> Option<StreamEventView> {
    match kind {
        SseEventKind::SessionCreated => match member(props, "info"@) {
            Some(v_info) => Some(StreamEventView::SessionCreated(v_info)),
            None => None,
        },
        SseEventKind::SessionUpdated => match member(props, "info"@) {
            Some(v_info) => Some(StreamEventView::SessionUpdated(v_info)),
            None => None,
        },
        SseEventKind::SessionDeleted => match member(props, "info"@) {
            Some(v_info) => Some(StreamEventView::SessionDeleted(v_info)),
            None => None,
        },
        SseEventKind::SessionStatus => match (str_member(props, "sessionID"@), status_of(member_node(props, "status"@))) {
            (Some(v_session_id), Some(v_status)) => Some(StreamEventView::SessionStatus { session_id: v_session_id, status: v_status }),
            _ => None,
        },
        SseEventKind::SessionIdle => match str_member(props, "sessionID"@) {
            Some(v_session_id) => Some(StreamEventView::SessionIdle { session_id: v_session_id }),
            None => None,
        },
        SseEventKind::SessionCompacted => match str_member(props, "sessionID"@) {
            Some(v_session_id) => Some(StreamEventView::SessionCompacted { session_id: v_session_id }),
            None => None,
        },
        SseEventKind::SessionDiff => match (str_member(props, "sessionID"@), member(props, "diff"@)) {
            (Some(v_session_id), Some(v_diff)) => Some(StreamEventView::SessionDiff { session_id: v_session_id, diff: v_diff }),
            _ => None,
        },
        SseEventKind::MessageUpdated => match member(props, "info"@) {
            Some(v_info) => Some(StreamEventView::MessageUpdated(v_info)),
            None => None,
        },
        SseEventKind::MessageRemoved => match (str_member(props, "sessionID"@), str_member(props, "messageID"@)) {
            (Some(v_session_id), Some(v_message_id)) => Some(StreamEventView::MessageRemoved { session_id: v_session_id, message_id: v_message_id }),
            _ => None,
        },
        SseEventKind::PartUpdated => match member(props, "part"@) {
            Some(v_part) => Some(StreamEventView::PartUpdated { part: v_part, delta: str_member(props, "delta"@) }),
            None => None,
        },
        SseEventKind::PartDelta => match (str_member(props, "sessionID"@), str_member(props, "messageID"@), str_member(props, "partID"@), str_member(props, "field"@), str_member(props, "delta"@)) {
            (Some(v_session_id), Some(v_message_id), Some(v_part_id), Some(v_field), Some(v_delta)) => Some(StreamEventView::PartDelta { session_id: v_session_id, message_id: v_message_id, part_id: v_part_id, field: v_field, delta: v_delta }),
            _ => None,
        },
        SseEventKind::PartRemoved => match (str_member(props, "sessionID"@), str_member(props, "messageID"@), str_member(props, "partID"@)) {
            (Some(v_session_id), Some(v_message_id), Some(v_part_id)) => Some(StreamEventView::PartRemoved { session_id: v_session_id, message_id: v_message_id, part_id: v_part_id }),
            _ => None,
        },
        SseEventKind::SessionError => match (str_member(props, "sessionID"@), member(props, "error"@)) {
            (Some(v_session_id), Some(v_error)) => Some(StreamEventView::SessionError { session_id: v_session_id, error: v_error }),
            _ => None,
        },
        SseEventKind::PermissionAsked => Some(StreamEventView::PermissionAsked(props_text)),
        SseEventKind::PermissionReplied => match (str_member(props, "sessionID"@), str_member(props, "requestID"@), reply_of(member_node(props, "reply"@))) {
            (Some(v_session_id), Some(v_request_id), Some(v_reply)) => Some(StreamEventView::PermissionReplied { session_id: v_session_id, request_id: v_request_id, reply: v_reply }),
            _ => None,
        },
        SseEventKind::QuestionAsked => Some(StreamEventView::QuestionAsked(props_text)),
        SseEventKind::QuestionReplied => match (str_member(props, "sessionID"@), str_member(props, "requestID"@), answers_of(member_node(props, "answers"@))) {
            (Some(v_session_id), Some(v_request_id), Some(v_answers)) => Some(StreamEventView::QuestionReplied { session_id: v_session_id, request_id: v_request_id, answers: v_answers }),
            _ => None,
        },
        SseEventKind::QuestionRejected => match (str_member(props, "sessionID"@), str_member(props, "requestID"@)) {
            (Some(v_session_id), Some(v_request_id)) => Some(StreamEventView::QuestionRejected { session_id: v_session_id, request_id: v_request_id }),
            _ => None,
        },
        SseEventKind::TodoUpdated => match (str_member(props, "sessionID"@), member(props, "todos"@)) {
            (Some(v_session_id), Some(v_todos)) => Some(StreamEventView::TodoUpdated { session_id: v_session_id, todos: v_todos }),
            _ => None,
        },
        SseEventKind::TuiPromptAppend => match str_member(props, "text"@) {
            Some(v_text) => Some(StreamEventView::TuiPromptAppend { text: v_text }),
            None => None,
        },
        SseEventKind::TuiCommandExecute => match str_member(props, "command"@) {
            Some(v_command) => Some(StreamEventView::TuiCommandExecute { command: v_command }),
            None => None,
        },
        SseEventKind::TuiToastShow => match (str_member(props, "message"@), str_member(props, "variant"@)) {
            (Some(v_message), Some(v_variant)) => Some(StreamEventView::TuiToastShow { title: str_member(props, "title"@), message: v_message, variant: v_variant, duration: duration_of(number_member(props, "duration"@)) }),
            _ => None,
        },
        SseEventKind::TuiSessionSelect => match str_member(props, "sessionID"@) {
            Some(v_session_id) => Some(StreamEventView::TuiSessionSelect { session_id: v_session_id }),
            None => None,
        },
        SseEventKind::PtyCreated => match member(props, "info"@) {
            Some(v_info) => Some(StreamEventView::PtyCreated(v_info)),
            None => None,
        },
        SseEventKind::PtyUpdated => match member(props, "info"@) {
            Some(v_info) => Some(StreamEventView::PtyUpdated(v_info)),
            None => None,
        },
        SseEventKind::PtyExited => match (str_member(props, "id"@), exit_code_of(number_member(props, "exitCode"@))) {
            (Some(v_id), Some(v_exit_code)) => Some(StreamEventView::PtyExited { id: v_id, exit_code: v_exit_code }),
            _ => None,
        },
        SseEventKind::PtyDeleted => match str_member(props, "id"@) {
            Some(v_id) => Some(StreamEventView::PtyDeleted { id: v_id }),
            None => None,
        },
        SseEventKind::ProjectUpdated => Some(StreamEventView::ProjectUpdated(props_text)),
        SseEventKind::VcsBranchUpdated => match str_member(props, "branch"@) {
            Some(v_branch) => Some(StreamEventView::VcsBranchUpdated { branch: v_branch }),
            None => None,
        },
        SseEventKind::FileEdited => match str_member(props, "file"@) {
            Some(v_file) => Some(StreamEventView::FileEdited { file: v_file }),
            None => None,
        },
        SseEventKind::FileWatcherUpdated => match (str_member(props, "file"@), str_member(props, "event"@)) {
            (Some(v_file), Some(v_event)) => Some(StreamEventView::FileWatcherUpdated { file: v_file, event: v_event }),
            _ => None,
        },
        SseEventKind::LspUpdated => Some(StreamEventView::LspUpdated),
        SseEventKind::LspDiagnostics => match (str_member(props, "serverID"@), str_member(props, "path"@)) {
            (Some(v_server_id), Some(v_path)) => Some(StreamEventView::LspDiagnostics { server_id: v_server_id, path: v_path }),
            _ => None,
        },
        SseEventKind::WorktreeReady => match (str_member(props, "name"@), str_member(props, "branch"@)) {
            (Some(v_name), Some(v_branch)) => Some(StreamEventView::WorktreeReady { name: v_name, branch: v_branch }),
            _ => None,
        },
        SseEventKind::WorktreeFailed => match str_member(props, "message"@) {
            Some(v_message) => Some(StreamEventView::WorktreeFailed { message: v_message }),
            None => None,
        },
        SseEventKind::McpToolsChanged => match str_member(props, "server"@) {
            Some(v_server) => Some(StreamEventView::McpToolsChanged { server: v_server }),
            None => None,
        },
        SseEventKind::McpBrowserOpenFailed => match (str_member(props, "mcpName"@), str_member(props, "url"@)) {
            (Some(v_mcp_name), Some(v_url)) => Some(StreamEventView::McpBrowserOpenFailed { mcp_name: v_mcp_name, url: v_url }),
            _ => None,
        },
        SseEventKind::CommandExecuted => match (str_member(props, "name"@), str_member(props, "sessionID"@), str_member(props, "arguments"@), str_member(props, "messageID"@)) {
            (Some(v_name), Some(v_session_id), Some(v_arguments), Some(v_message_id)) => Some(StreamEventView::CommandExecuted { name: v_name, session_id: v_session_id, arguments: v_arguments, message_id: v_message_id }),
            _ => None,
        },
        SseEventKind::InstallationUpdated => match str_member(props, "version"@) {
            Some(v_version) => Some(StreamEventView::InstallationUpdated { version: v_version }),
            None => None,
        },
        SseEventKind::InstallationUpdateAvailable => match str_member(props, "version"@) {
            Some(v_version) => Some(StreamEventView::InstallationUpdateAvailable { version: v_version }),
            None => None,
        },
        SseEventKind::ServerConnected => Some(StreamEventView::ServerConnected),
        SseEventKind::GlobalDisposed => Some(StreamEventView::GlobalDisposed),
        SseEventKind::ServerInstanceDisposed => match str_member(props, "directory"@) {
            Some(v_directory) => Some(StreamEventView::ServerInstanceDisposed { directory: v_directory }),
            None => None,
        },
        SseEventKind::Unknown => Some(StreamEventView::Unknown(t)),
    }
}

/// Reads the event of kind `kind` and type `event_type` from its properties
/// `props`, whose JSON text is `props_text`.
#[verifier::rlimit(50)]
#[verifier::spinoff_prover]
pub fn event_from_props_node(kind: SseEventKind, event_type: String, props: &JsonNode, props_text: String) -> (r: Option<StreamEvent>)
    ensures
        opt_event_view(r) == event_from_props(kind, event_type@, props@, props_text@),
{
    match kind {
        SseEventKind::SessionCreated => {
            let v_info = get_member(props, "info");
            match v_info {
                Some(v_info) => Some(StreamEvent::SessionCreated(v_info)),
                None => None,
            }
        },
        SseEventKind::SessionUpdated => {
            let v_info = get_member(props, "info");
            match v_info {
                Some(v_info) => Some(StreamEvent::SessionUpdated(v_info)),
                None => None,
            }
        },
        SseEventKind::SessionDeleted => {
            let v_info = get_member(props, "info");
            match v_info {
                Some(v_info) => Some(StreamEvent::SessionDeleted(v_info)),
                None => None,
            }
        },
        SseEventKind::SessionStatus => {
            let v_session_id = get_str_member(props, "sessionID");
            let v_status = read_status(get_member_node(props, "status"));
            match (v_session_id, v_status) {
                (Some(v_session_id), Some(v_status)) => Some(StreamEvent::SessionStatus { session_id: v_session_id, status: v_status }),
                _ => None,
            }
        },
        SseEventKind::SessionIdle => {
            let v_session_id = get_str_member(props, "sessionID");
            match v_session_id {
                Some(v_session_id) => Some(StreamEvent::SessionIdle { session_id: v_session_id }),
                None => None,
            }
        },
        SseEventKind::SessionCompacted => {
            let v_session_id = get_str_member(props, "sessionID");
            match v_session_id {
                Some(v_session_id) => Some(StreamEvent::SessionCompacted { session_id: v_session_id }),
                None => None,
            }
        },
        SseEventKind::SessionDiff => {
            let v_session_id = get_str_member(props, "sessionID");
            let v_diff = get_member(props, "diff");
            match (v_session_id, v_diff) {
                (Some(v_session_id), Some(v_diff)) => Some(StreamEvent::SessionDiff { session_id: v_session_id, diff: v_diff }),
                _ => None,
            }
        },
        SseEventKind::MessageUpdated => {
            let v_info = get_member(props, "info");
            match v_info {
                Some(v_info) => Some(StreamEvent::MessageUpdated(v_info)),
                None => None,
            }
        },
        SseEventKind::MessageRemoved => {
            let v_session_id = get_str_member(props, "sessionID");
            let v_message_id = get_str_member(props, "messageID");
            match (v_session_id, v_message_id) {
                (Some(v_session_id), Some(v_message_id)) => Some(StreamEvent::MessageRemoved { session_id: v_session_id, message_id: v_message_id }),
                _ => None,
            }
        },
        SseEventKind::PartUpdated => {
            let v_part = get_member(props, "part");
            let v_delta = get_str_member(props, "delta");
            match v_part {
                Some(v_part) => Some(StreamEvent::PartUpdated { part: v_part, delta: v_delta }),
                None => None,
            }
        },
        SseEventKind::PartDelta => {
            let v_session_id = get_str_member(props, "sessionID");
            let v_message_id = get_str_member(props, "messageID");
            let v_part_id = get_str_member(props, "partID");
            let v_field = get_str_member(props, "field");
            let v_delta = get_str_member(props, "delta");
            match (v_session_id, v_message_id, v_part_id, v_field, v_delta) {
                (Some(v_session_id), Some(v_message_id), Some(v_part_id), Some(v_field), Some(v_delta)) => Some(StreamEvent::PartDelta { session_id: v_session_id, message_id: v_message_id, part_id: v_part_id, field: v_field, delta: v_delta }),
                _ => None,
            }
        },
        SseEventKind::PartRemoved => {
            let v_session_id = get_str_member(props, "sessionID");
            let v_message_id = get_str_member(props, "messageID");
            let v_part_id = get_str_member(props, "partID");
            match (v_session_id, v_message_id, v_part_id) {
                (Some(v_session_id), Some(v_message_id), Some(v_part_id)) => Some(StreamEvent::PartRemoved { session_id: v_session_id, message_id: v_message_id, part_id: v_part_id }),
                _ => None,
            }
        },
        SseEventKind::SessionError => {
            let v_session_id = get_str_member(props, "sessionID");
            let v_error = get_member(props, "error");
            match (v_session_id, v_error) {
                (Some(v_session_id), Some(v_error)) => Some(StreamEvent::SessionError { session_id: v_session_id, error: v_error }),
                _ => None,
            }
        },
        SseEventKind::PermissionAsked => {
            Some(StreamEvent::PermissionAsked(props_text))
        },
        SseEventKind::PermissionReplied => {
            let v_session_id = get_str_member(props, "sessionID");
            let v_request_id = get_str_member(props, "requestID");
            let v_reply = read_reply(get_member_node(props, "reply"));
            match (v_session_id, v_request_id, v_reply) {
                (Some(v_session_id), Some(v_request_id), Some(v_reply)) => Some(StreamEvent::PermissionReplied { session_id: v_session_id, request_id: v_request_id, reply: v_reply }),
                _ => None,
            }
        },
        SseEventKind::QuestionAsked => {
            Some(StreamEvent::QuestionAsked(props_text))
        },
        SseEventKind::QuestionReplied => {
            let v_session_id = get_str_member(props, "sessionID");
            let v_request_id = get_str_member(props, "requestID");
            let v_answers = read_answers(get_member_node(props, "answers"));
            match (v_session_id, v_request_id, v_answers) {
                (Some(v_session_id), Some(v_request_id), Some(v_answers)) => Some(StreamEvent::QuestionReplied { session_id: v_session_id, request_id: v_request_id, answers: v_answers }),
                _ => None,
            }
        },
        SseEventKind::QuestionRejected => {
            let v_session_id = get_str_member(props, "sessionID");
            let v_request_id = get_str_member(props, "requestID");
            match (v_session_id, v_request_id) {
                (Some(v_session_id), Some(v_request_id)) => Some(StreamEvent::QuestionRejected { session_id: v_session_id, request_id: v_request_id }),
                _ => None,
            }
        },
        SseEventKind::TodoUpdated => {
            let v_session_id = get_str_member(props, "sessionID");
            let v_todos = get_member(props, "todos");
            match (v_session_id, v_todos) {
                (Some(v_session_id), Some(v_todos)) => Some(StreamEvent::TodoUpdated { session_id: v_session_id, todos: v_todos }),
                _ => None,
            }
        },
        SseEventKind::TuiPromptAppend => {
            let v_text = get_str_member(props, "text");
            match v_text {
                Some(v_text) => Some(StreamEvent::TuiPromptAppend { text: v_text }),
                None => None,
            }
        },
        SseEventKind::TuiCommandExecute => {
            let v_command = get_str_member(props, "command");
            match v_command {
                Some(v_command) => Some(StreamEvent::TuiCommandExecute { command: v_command }),
                None => None,
            }
        },
        SseEventKind::TuiToastShow => {
            let v_title = get_str_member(props, "title");
            let v_message = get_str_member(props, "message");
            let v_variant = get_str_member(props, "variant");
            let v_duration = read_duration(get_number_member(props, "duration"));
            match (v_message, v_variant) {
                (Some(v_message), Some(v_variant)) => Some(StreamEvent::TuiToastShow { title: v_title, message: v_message, variant: v_variant, duration: v_duration }),
                _ => None,
            }
        },
        SseEventKind::TuiSessionSelect => {
            let v_session_id = get_str_member(props, "sessionID");
            match v_session_id {
                Some(v_session_id) => Some(StreamEvent::TuiSessionSelect { session_id: v_session_id }),
                None => None,
            }
        },
        SseEventKind::PtyCreated => {
            let v_info = get_member(props, "info");
            match v_info {
                Some(v_info) => Some(StreamEvent::PtyCreated(v_info)),
                None => None,
            }
        },
        SseEventKind::PtyUpdated => {
            let v_info = get_member(props, "info");
            match v_info {
                Some(v_info) => Some(StreamEvent::PtyUpdated(v_info)),
                None => None,
            }
        },
        SseEventKind::PtyExited => {
            let v_id = get_str_member(props, "id");
            let v_exit_code = read_exit_code(get_number_member(props, "exitCode"));
            match (v_id, v_exit_code) {
                (Some(v_id), Some(v_exit_code)) => Some(StreamEvent::PtyExited { id: v_id, exit_code: v_exit_code }),
                _ => None,
            }
        },
        SseEventKind::PtyDeleted => {
            let v_id = get_str_member(props, "id");
            match v_id {
                Some(v_id) => Some(StreamEvent::PtyDeleted { id: v_id }),
                None => None,
            }
        },
        SseEventKind::ProjectUpdated => {
            Some(StreamEvent::ProjectUpdated(props_text))
        },
        SseEventKind::VcsBranchUpdated => {
            let v_branch = get_str_member(props, "branch");
            match v_branch {
                Some(v_branch) => Some(StreamEvent::VcsBranchUpdated { branch: v_branch }),
                None => None,
            }
        },
        SseEventKind::FileEdited => {
            let v_file = get_str_member(props, "file");
            match v_file {
                Some(v_file) => Some(StreamEvent::FileEdited { file: v_file }),
                None => None,
            }
        },
        SseEventKind::FileWatcherUpdated => {
            let v_file = get_str_member(props, "file");
            let v_event = get_str_member(props, "event");
            match (v_file, v_event) {
                (Some(v_file), Some(v_event)) => Some(StreamEvent::FileWatcherUpdated { file: v_file, event: v_event }),
                _ => None,
            }
        },
        SseEventKind::LspUpdated => {
            Some(StreamEvent::LspUpdated)
        },
        SseEventKind::LspDiagnostics => {
            let v_server_id = get_str_member(props, "serverID");
            let v_path = get_str_member(props, "path");
            match (v_server_id, v_path) {
                (Some(v_server_id), Some(v_path)) => Some(StreamEvent::LspDiagnostics { server_id: v_server_id, path: v_path }),
                _ => None,
            }
        },
        SseEventKind::WorktreeReady => {
            let v_name = get_str_member(props, "name");
            let v_branch = get_str_member(props, "branch");
            match (v_name, v_branch) {
                (Some(v_name), Some(v_branch)) => Some(StreamEvent::WorktreeReady { name: v_name, branch: v_branch }),
                _ => None,
            }
        },
        SseEventKind::WorktreeFailed => {
            let v_message = get_str_member(props, "message");
            match v_message {
                Some(v_message) => Some(StreamEvent::WorktreeFailed { message: v_message }),
                None => None,
            }
        },
        SseEventKind::McpToolsChanged => {
            let v_server = get_str_member(props, "server");
            match v_server {
                Some(v_server) => Some(StreamEvent::McpToolsChanged { server: v_server }),
                None => None,
            }
        },
        SseEventKind::McpBrowserOpenFailed => {
            let v_mcp_name = get_str_member(props, "mcpName");
            let v_url = get_str_member(props, "url");
            match (v_mcp_name, v_url) {
                (Some(v_mcp_name), Some(v_url)) => Some(StreamEvent::McpBrowserOpenFailed { mcp_name: v_mcp_name, url: v_url }),
                _ => None,
            }
        },
        SseEventKind::CommandExecuted => {
            let v_name = get_str_member(props, "name");
            let v_session_id = get_str_member(props, "sessionID");
            let v_arguments = get_str_member(props, "arguments");
            let v_message_id = get_str_member(props, "messageID");
            match (v_name, v_session_id, v_arguments, v_message_id) {
                (Some(v_name), Some(v_session_id), Some(v_arguments), Some(v_message_id)) => Some(StreamEvent::CommandExecuted { name: v_name, session_id: v_session_id, arguments: v_arguments, message_id: v_message_id }),
                _ => None,
            }
        },
        SseEventKind::InstallationUpdated => {
            let v_version = get_str_member(props, "version");
            match v_version {
                Some(v_version) => Some(StreamEvent::InstallationUpdated { version: v_version }),
                None => None,
            }
        },
        SseEventKind::InstallationUpdateAvailable => {
            let v_version = get_str_member(props, "version");
            match v_version {
                Some(v_version) => Some(StreamEvent::InstallationUpdateAvailable { version: v_version }),
                None => None,
            }
        },
        SseEventKind::ServerConnected => {
            Some(StreamEvent::ServerConnected)
        },
        SseEventKind::GlobalDisposed => {
            Some(StreamEvent::GlobalDisposed)
        },
        SseEventKind::ServerInstanceDisposed => {
            let v_directory = get_str_member(props, "directory");
            match v_directory {
                Some(v_directory) => Some(StreamEvent::ServerInstanceDisposed { directory: v_directory }),
                None => None,
            }
        },
        SseEventKind::Unknown => {
            Some(StreamEvent::Unknown(event_type))
        },
    }
}

/// The name under which each permission reply travels.
pub open spec fn reply_wire_name(r: PermissionReply) -> Seq<char> {
    match r {
        PermissionReply::Once => "once"@,
        PermissionReply::Always => "always"@,
        PermissionReply::Reject => "reject"@,
    }
}

/// Each permission reply is read back from its own name, as a string or as the
/// key of a one-member object, and no other name reads as it.
pub proof fn law_reply_names_read_back(r: PermissionReply, s: Seq<char>)
    ensures
        reply_named(reply_wire_name(r)) == Some(r),
        reply_of(Some(JsonNodeView::Str(reply_wire_name(r)))) == Some(r),
        reply_named(s) == Some(r) ==> s == reply_wire_name(r),
{
    reveal_strlit("once");
    reveal_strlit("always");
    reveal_strlit("reject");
    assert("once"@.len() != "always"@.len());
    assert("once"@.len() != "reject"@.len());
    assert("always"@[0] != "reject"@[0]);
}

} // verus!
