//! The text the client reads from the server: the event stream, split into
//! frames, and the errors it reports for a failed request.
use vstd::prelude::*;
use crate::panels::byte_cut;
use crate::text::{chars_of, push_str, starts_with, str_eq, string_of, utf8_len, utf8_len_exceeds};

verus! {

/// The largest event stream buffer, in bytes.
pub const MAX_SSE_BUFFER_SIZE: usize = 1048576;

/// What a frame of the stream carries: the text after "data: ", if it starts so.
pub open spec fn frame_data(ev: Seq<char>) -> Seq<Seq<char>> {
    if starts_with(ev, "data: "@) { seq![ev.skip(6)] } else { Seq::empty() }
}

/// The data of the frames that end in `rest` (each ends at the first blank line,
/// that is at two line feeds), when `cur` has been read since the last one, and
/// what is left after the last complete frame.
pub open spec fn sse_split(cur: Seq<char>, rest: Seq<char>) -> (Seq<Seq<char>>, Seq<char>)
    decreases rest.len(),
{
    if rest.len() == 0 {
        (Seq::empty(), cur)
    } else if cur.len() > 0 && cur.last() == '\n' && rest[0] == '\n' {
        let next = sse_split(Seq::empty(), rest.drop_first());
        (frame_data(cur.drop_last()) + next.0, next.1)
    } else {
        sse_split(cur.push(rest[0]), rest.drop_first())
    }
}

/// What reading a chunk of the event stream gives.
pub enum SseFeed {
    /// The buffer grew over its limit.
    Overflow,
    /// The data of the frames now complete, and the text kept for the next ones.
    Frames { data: Vec<String>, rest: String },
}

/// The views of a list of strings.
pub open spec fn string_views(v: Seq<String>) -> Seq<Seq<char>> {
    v.map_values(|s: String| s@)
}

/// Adds a chunk of the event stream to what was kept of it: too much text is an
/// overflow; else the data of every complete frame comes out and the rest is
/// kept.
pub fn feed_sse(buffer: &str, chunk: &str) -> (r: SseFeed)
    ensures
        utf8_len(buffer@ + chunk@) > MAX_SSE_BUFFER_SIZE <==> r is Overflow,
        r matches SseFeed::Frames { data, rest } ==> (string_views(data@), rest@) == sse_split(
            Seq::empty(),
            buffer@ + chunk@,
        ),
{
    let mut all = chars_of(buffer);
    let mut more = chars_of(chunk);
    all.append(&mut more);
    if utf8_len_exceeds(&all, MAX_SSE_BUFFER_SIZE) {
        return SseFeed::Overflow;
    }
    let ghost text = all@;
    let mut data: Vec<String> = Vec::new();
    let mut cur: Vec<char> = Vec::new();
    let mut i: usize = 0;
    proof {
        assert(text.skip(0) =~= text);
        assert(string_views(data@) =~= Seq::<Seq<char>>::empty());
        assert(cur@ =~= Seq::<char>::empty());
    }
    while i < all.len()
        invariant
            i <= all.len(),
            text == all@,
            ({
                let s = sse_split(cur@, text.skip(i as int));
                (string_views(data@) + s.0, s.1) == sse_split(Seq::empty(), text)
            }),
        decreases all.len() - i,
    {
        let c = all[i];
        let ghost before = sse_split(cur@, text.skip(i as int));
        let ghost d0 = string_views(data@);
        proof {
            assert(text.skip(i as int).drop_first() =~= text.skip(i + 1));
            assert(text.skip(i as int)[0] == c);
        }
        if cur.len() > 0 && cur[cur.len() - 1] == '\n' && c == '\n' {
            let mut ev = cur;
            ev.pop();
            let ghost evv = ev@;
            let prefix = chars_of("data: ");
            proof {
                reveal_strlit("data: ");
            }
            let mut is_data = ev.len() >= 6;
            let mut k: usize = 0;
            while is_data && k < 6
                invariant
                    k <= 6,
                    prefix@ == "data: "@,
                    prefix@.len() == 6,
                    ev@ == evv,
                    is_data ==> ev@.len() >= 6 && forall|j: int| 0 <= j < k ==> ev@[j] == prefix@[j],
                    !is_data ==> !starts_with(ev@, "data: "@),
                decreases 6 - k,
            {
                if ev[k] != prefix[k] {
                    is_data = false;
                    proof {
                        assert(ev@.take(6)[k as int] != "data: "@[k as int]);
                    }
                }
                k += 1;
            }
            proof {
                if is_data {
                    assert(ev@.take(6) =~= "data: "@);
                }
                assert(is_data == starts_with(ev@, "data: "@));
            }
            if is_data {
                let mut payload: Vec<char> = Vec::new();
                let mut j: usize = 6;
                while j < ev.len()
                    invariant
                        6 <= j <= ev.len(),
                        payload@ == ev@.subrange(6, j as int),
                    decreases ev.len() - j,
                {
                    payload.push(ev[j]);
                    proof {
                        assert(payload@ =~= ev@.subrange(6, j + 1));
                    }
                    j += 1;
                }
                proof {
                    assert(ev@.subrange(6, ev.len() as int) =~= ev@.skip(6));
                }
                data.push(string_of(payload.as_slice()));
                proof {
                    assert(string_views(data@) =~= d0 + frame_data(evv));
                }
            } else {
                proof {
                    assert(string_views(data@) =~= d0 + frame_data(evv));
                }
            }
            cur = Vec::new();
            proof {
                assert(cur@ =~= Seq::<char>::empty());
                let next = sse_split(Seq::empty(), text.skip(i + 1));
                assert(before == (frame_data(evv) + next.0, next.1));
                assert(string_views(data@) + next.0 =~= d0 + (frame_data(evv) + next.0));
            }
        } else {
            cur.push(c);
        }
        i += 1;
    }
    proof {
        assert(text.skip(i as int) =~= Seq::<char>::empty());
        assert(string_views(data@) + Seq::<Seq<char>>::empty() =~= string_views(data@));
    }
    SseFeed::Frames { data, rest: string_of(cur.as_slice()) }
}

/// The body of a failed response as reported: "no response body" when empty,
/// cut to the last character boundary within 1024 bytes and marked as truncated
/// when longer.
pub open spec fn reported_body(body: Seq<char>) -> Seq<char> {
    if body.len() == 0 {
        "no response body"@
    } else if utf8_len(body) > 1024 {
        byte_cut(body, 1024) + "... (truncated)"@
    } else {
        body
    }
}

/// The body of a failed response as reported.
pub fn error_body(body: &str) -> (r: String)
    ensures
        r@ == reported_body(body@),
{
    let chars = chars_of(body);
    if chars.len() == 0 {
        String::from_str("no response body")
    } else if utf8_len_exceeds(&chars, 1024) {
        let mut cut = crate::panels::cut_to_bytes(&chars, 1024);
        push_str(&mut cut, "... (truncated)");
        string_of(cut.as_slice())
    } else {
        String::from_str(body)
    }
}

/// The message of a failed request: "Failed to ACTION: STATUS (BODY)", with the
/// body as reported.
pub fn failure_message(action: &str, status: &str, body: &str) -> (r: String)
    ensures
        r@ == "Failed to "@ + action@ + ": "@ + status@ + " ("@ + reported_body(body@) + ")"@,
{
    let shown = error_body(body);
    let mut out: Vec<char> = Vec::new();
    push_str(&mut out, "Failed to ");
    push_str(&mut out, action);
    push_str(&mut out, ": ");
    push_str(&mut out, status);
    push_str(&mut out, " (");
    push_str(&mut out, shown.as_str());
    push_str(&mut out, ")");
    string_of(out.as_slice())
}

/// Whether `s` has two line feeds in a row.
pub open spec fn has_blank_line(s: Seq<char>) -> bool {
    exists|i: int| 0 <= i < s.len() - 1 && s[i] == '\n' && #[trigger] s[i + 1] == '\n'
}

/// Reading `a` then `b` goes as reading `a + b`.
pub proof fn lemma_sse_split_append(cur: Seq<char>, a: Seq<char>, b: Seq<char>)
    ensures
        sse_split(cur, a + b) == ({
            let (f1, r1) = sse_split(cur, a);
            let (f2, r2) = sse_split(r1, b);
            (f1 + f2, r2)
        }),
    decreases a.len(),
{
    if a.len() == 0 {
        assert(a + b =~= b);
        assert(Seq::<Seq<char>>::empty() + sse_split(cur, b).0 =~= sse_split(cur, b).0);
    } else {
        assert((a + b)[0] == a[0]);
        assert((a + b).drop_first() =~= a.drop_first() + b);
        if cur.len() > 0 && cur.last() == '\n' && a[0] == '\n' {
            lemma_sse_split_append(Seq::empty(), a.drop_first(), b);
            let next = sse_split(Seq::empty(), a.drop_first());
            let tail = sse_split(next.1, b);
            assert(frame_data(cur.drop_last()) + (next.0 + tail.0) =~= (frame_data(cur.drop_last()) + next.0) + tail.0);
        } else {
            lemma_sse_split_append(cur.push(a[0]), a.drop_first(), b);
        }
    }
}

/// What is kept after the last frame has no blank line, provided what was kept
/// before had none.
pub proof fn lemma_sse_rest_clean(cur: Seq<char>, rest: Seq<char>)
    requires
        !has_blank_line(cur),
    ensures
        !has_blank_line(sse_split(cur, rest).1),
    decreases rest.len(),
{
    if rest.len() > 0 {
        if cur.len() > 0 && cur.last() == '\n' && rest[0] == '\n' {
            assert(!has_blank_line(Seq::<char>::empty()));
            lemma_sse_rest_clean(Seq::empty(), rest.drop_first());
        } else {
            let c2 = cur.push(rest[0]);
            assert forall|i: int| 0 <= i < c2.len() - 1 && c2[i] == '\n' implies #[trigger] c2[i + 1] != '\n' by {
                if i + 1 < cur.len() {
                    assert(c2[i] == cur[i]);
                    assert(c2[i + 1] == cur[i + 1]);
                    if cur[i + 1] == '\n' {
                        assert(cur[i] == '\n' && cur[i + 1] == '\n');
                    }
                } else {
                    assert(i + 1 == cur.len());
                    assert(cur.last() == '\n');
                }
            }
            lemma_sse_rest_clean(c2, rest.drop_first());
        }
    }
}

/// Reading a text without a blank line from the start gives no frame and keeps
/// all of it.
pub proof fn lemma_sse_clean_rescan(cur: Seq<char>, r: Seq<char>)
    requires
        !has_blank_line(cur + r),
    ensures
        sse_split(cur, r) == (Seq::<Seq<char>>::empty(), cur + r),
    decreases r.len(),
{
    if r.len() == 0 {
        assert(cur + r =~= cur);
    } else {
        if cur.len() > 0 && cur.last() == '\n' && r[0] == '\n' {
            let i = cur.len() - 1;
            assert((cur + r)[i] == '\n' && (cur + r)[i + 1] == '\n');
        }
        assert(cur.push(r[0]) + r.drop_first() =~= cur + r);
        lemma_sse_clean_rescan(cur.push(r[0]), r.drop_first());
    }
}

/// The stream may come in any chunks: reading `a`, keeping what follows its last
/// frame, then reading that with `b` gives the same frames, and keeps the same
/// text, as reading `a` and `b` at once.
pub proof fn law_sse_chunks_do_not_matter(a: Seq<char>, b: Seq<char>)
    ensures
        ({
            let (f1, r1) = sse_split(Seq::empty(), a);
            let (f2, r2) = sse_split(Seq::empty(), r1 + b);
            sse_split(Seq::empty(), a + b) == (f1 + f2, r2)
        }),
{
    let (f1, r1) = sse_split(Seq::empty(), a);
    lemma_sse_split_append(Seq::empty(), a, b);
    assert(!has_blank_line(Seq::<char>::empty()));
    lemma_sse_rest_clean(Seq::empty(), a);
    lemma_sse_split_append(Seq::empty(), r1, b);
    assert(Seq::<char>::empty() + r1 =~= r1);
    lemma_sse_clean_rescan(Seq::empty(), r1);
    assert(Seq::<Seq<char>>::empty() + sse_split(r1, b).0 =~= sse_split(r1, b).0);
}

/// The kinds of events the server sends, by their "type".
#[derive(Clone, Copy, PartialEq, Eq, Structural)]
pub enum SseEventKind {
    SessionCreated,
    SessionUpdated,
    SessionDeleted,
    SessionStatus,
    SessionIdle,
    SessionCompacted,
    SessionDiff,
    MessageUpdated,
    MessageRemoved,
    PartUpdated,
    PartDelta,
    PartRemoved,
    SessionError,
    PermissionAsked,
    PermissionReplied,
    QuestionAsked,
    QuestionReplied,
    QuestionRejected,
    TodoUpdated,
    TuiPromptAppend,
    TuiCommandExecute,
    TuiToastShow,
    TuiSessionSelect,
    PtyCreated,
    PtyUpdated,
    PtyExited,
    PtyDeleted,
    ProjectUpdated,
    VcsBranchUpdated,
    FileEdited,
    FileWatcherUpdated,
    LspUpdated,
    LspDiagnostics,
    WorktreeReady,
    WorktreeFailed,
    McpToolsChanged,
    McpBrowserOpenFailed,
    CommandExecuted,
    InstallationUpdated,
    InstallationUpdateAvailable,
    ServerConnected,
    GlobalDisposed,
    ServerInstanceDisposed,
    Unknown,
}

/// The kind of an event with the given "type".
pub open spec fn event_kind(t: Seq<char>) -> SseEventKind {
    if t == "session.created"@ {
        SseEventKind::SessionCreated
    } else if t == "session.updated"@ {
        SseEventKind::SessionUpdated
    } else if t == "session.deleted"@ {
        SseEventKind::SessionDeleted
    } else if t == "session.status"@ {
        SseEventKind::SessionStatus
    } else if t == "session.idle"@ {
        SseEventKind::SessionIdle
    } else if t == "session.compacted"@ {
        SseEventKind::SessionCompacted
    } else if t == "session.diff"@ {
        SseEventKind::SessionDiff
    } else if t == "message.updated"@ {
        SseEventKind::MessageUpdated
    } else if t == "message.removed"@ {
        SseEventKind::MessageRemoved
    } else if t == "message.part.updated"@ {
        SseEventKind::PartUpdated
    } else if t == "message.part.delta"@ {
        SseEventKind::PartDelta
    } else if t == "message.part.removed"@ {
        SseEventKind::PartRemoved
    } else if t == "session.error"@ {
        SseEventKind::SessionError
    } else if t == "permission.asked"@ {
        SseEventKind::PermissionAsked
    } else if t == "permission.replied"@ {
        SseEventKind::PermissionReplied
    } else if t == "question.asked"@ {
        SseEventKind::QuestionAsked
    } else if t == "question.replied"@ {
        SseEventKind::QuestionReplied
    } else if t == "question.rejected"@ {
        SseEventKind::QuestionRejected
    } else if t == "todo.updated"@ {
        SseEventKind::TodoUpdated
    } else if t == "tui.prompt.append"@ {
        SseEventKind::TuiPromptAppend
    } else if t == "tui.command.execute"@ {
        SseEventKind::TuiCommandExecute
    } else if t == "tui.toast.show"@ {
        SseEventKind::TuiToastShow
    } else if t == "tui.session.select"@ {
        SseEventKind::TuiSessionSelect
    } else if t == "pty.created"@ {
        SseEventKind::PtyCreated
    } else if t == "pty.updated"@ {
        SseEventKind::PtyUpdated
    } else if t == "pty.exited"@ {
        SseEventKind::PtyExited
    } else if t == "pty.deleted"@ {
        SseEventKind::PtyDeleted
    } else if t == "project.updated"@ {
        SseEventKind::ProjectUpdated
    } else if t == "vcs.branch.updated"@ {
        SseEventKind::VcsBranchUpdated
    } else if t == "file.edited"@ {
        SseEventKind::FileEdited
    } else if t == "file.watcher.updated"@ {
        SseEventKind::FileWatcherUpdated
    } else if t == "lsp.updated"@ {
        SseEventKind::LspUpdated
    } else if t == "lsp.client.diagnostics"@ {
        SseEventKind::LspDiagnostics
    } else if t == "worktree.ready"@ {
        SseEventKind::WorktreeReady
    } else if t == "worktree.failed"@ {
        SseEventKind::WorktreeFailed
    } else if t == "mcp.tools.changed"@ {
        SseEventKind::McpToolsChanged
    } else if t == "mcp.browser.open.failed"@ {
        SseEventKind::McpBrowserOpenFailed
    } else if t == "command.executed"@ {
        SseEventKind::CommandExecuted
    } else if t == "installation.updated"@ {
        SseEventKind::InstallationUpdated
    } else if t == "installation.update-available"@ {
        SseEventKind::InstallationUpdateAvailable
    } else if t == "server.connected"@ {
        SseEventKind::ServerConnected
    } else if t == "global.disposed"@ {
        SseEventKind::GlobalDisposed
    } else if t == "server.instance.disposed"@ {
        SseEventKind::ServerInstanceDisposed
    } else {
        SseEventKind::Unknown
    }
}

/// The kind of an event with the given "type"; one not known is `Unknown`, and
/// the client keeps its type text.
pub fn classify_sse_event(event_type: &str) -> (r: SseEventKind)
    ensures
        r == event_kind(event_type@),
{
    if str_eq(event_type, "session.created") {
        SseEventKind::SessionCreated
    } else if str_eq(event_type, "session.updated") {
        SseEventKind::SessionUpdated
    } else if str_eq(event_type, "session.deleted") {
        SseEventKind::SessionDeleted
    } else if str_eq(event_type, "session.status") {
        SseEventKind::SessionStatus
    } else if str_eq(event_type, "session.idle") {
        SseEventKind::SessionIdle
    } else if str_eq(event_type, "session.compacted") {
        SseEventKind::SessionCompacted
    } else if str_eq(event_type, "session.diff") {
        SseEventKind::SessionDiff
    } else if str_eq(event_type, "message.updated") {
        SseEventKind::MessageUpdated
    } else if str_eq(event_type, "message.removed") {
        SseEventKind::MessageRemoved
    } else if str_eq(event_type, "message.part.updated") {
        SseEventKind::PartUpdated
    } else if str_eq(event_type, "message.part.delta") {
        SseEventKind::PartDelta
    } else if str_eq(event_type, "message.part.removed") {
        SseEventKind::PartRemoved
    } else if str_eq(event_type, "session.error") {
        SseEventKind::SessionError
    } else if str_eq(event_type, "permission.asked") {
        SseEventKind::PermissionAsked
    } else if str_eq(event_type, "permission.replied") {
        SseEventKind::PermissionReplied
    } else if str_eq(event_type, "question.asked") {
        SseEventKind::QuestionAsked
    } else if str_eq(event_type, "question.replied") {
        SseEventKind::QuestionReplied
    } else if str_eq(event_type, "question.rejected") {
        SseEventKind::QuestionRejected
    } else if str_eq(event_type, "todo.updated") {
        SseEventKind::TodoUpdated
    } else if str_eq(event_type, "tui.prompt.append") {
        SseEventKind::TuiPromptAppend
    } else if str_eq(event_type, "tui.command.execute") {
        SseEventKind::TuiCommandExecute
    } else if str_eq(event_type, "tui.toast.show") {
        SseEventKind::TuiToastShow
    } else if str_eq(event_type, "tui.session.select") {
        SseEventKind::TuiSessionSelect
    } else if str_eq(event_type, "pty.created") {
        SseEventKind::PtyCreated
    } else if str_eq(event_type, "pty.updated") {
        SseEventKind::PtyUpdated
    } else if str_eq(event_type, "pty.exited") {
        SseEventKind::PtyExited
    } else if str_eq(event_type, "pty.deleted") {
        SseEventKind::PtyDeleted
    } else if str_eq(event_type, "project.updated") {
        SseEventKind::ProjectUpdated
    } else if str_eq(event_type, "vcs.branch.updated") {
        SseEventKind::VcsBranchUpdated
    } else if str_eq(event_type, "file.edited") {
        SseEventKind::FileEdited
    } else if str_eq(event_type, "file.watcher.updated") {
        SseEventKind::FileWatcherUpdated
    } else if str_eq(event_type, "lsp.updated") {
        SseEventKind::LspUpdated
    } else if str_eq(event_type, "lsp.client.diagnostics") {
        SseEventKind::LspDiagnostics
    } else if str_eq(event_type, "worktree.ready") {
        SseEventKind::WorktreeReady
    } else if str_eq(event_type, "worktree.failed") {
        SseEventKind::WorktreeFailed
    } else if str_eq(event_type, "mcp.tools.changed") {
        SseEventKind::McpToolsChanged
    } else if str_eq(event_type, "mcp.browser.open.failed") {
        SseEventKind::McpBrowserOpenFailed
    } else if str_eq(event_type, "command.executed") {
        SseEventKind::CommandExecuted
    } else if str_eq(event_type, "installation.updated") {
        SseEventKind::InstallationUpdated
    } else if str_eq(event_type, "installation.update-available") {
        SseEventKind::InstallationUpdateAvailable
    } else if str_eq(event_type, "server.connected") {
        SseEventKind::ServerConnected
    } else if str_eq(event_type, "global.disposed") {
        SseEventKind::GlobalDisposed
    } else if str_eq(event_type, "server.instance.disposed") {
        SseEventKind::ServerInstanceDisposed
    } else {
        SseEventKind::Unknown
    }
}

} // verus!
