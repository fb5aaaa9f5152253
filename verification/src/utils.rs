//! Small helpers: the stored run commands, worktree paths, how a project is
//! named in the header, the markdown of a change summary, image types.
use vstd::prelude::*;
use crate::panels::path_file_name;
use crate::strmap::StrMap;
use crate::text::{char_len_utf8, char_utf8_len, chars_of, ends_with, has_suffix, push_str, str_eq, string_of, trim, trim_chars, utf8_len, utf8_len_exceeds};
use crate::types::{FileDiff, Project, Session, SessionSummary};

verus! {

/// The error of the protocol client.
pub struct Error;

impl Error {
    /// The text the error is shown with.
    pub fn display_string(&self) -> (r: String)
        ensures
            r@ == "Error"@,
    {
        String::from_str("Error")
    }
}

/// The run commands saved per project.
pub struct RunCommandStore {
    pub version: u32,
    /// The command for each project, by project id.
    pub commands: StrMap<String>,
}

impl RunCommandStore {
    /// The store used when nothing is saved: version 1, no command.
    pub fn default_store() -> (r: Self)
        ensures
            r.version == 1,
            r.commands@ == Map::<Seq<char>, String>::empty(),
    {
        RunCommandStore { version: 1, commands: StrMap::new() }
    }
}

impl Default for RunCommandStore {
    fn default() -> (r: Self)
        ensures
            r.version == 0,
            r.commands@ == Map::<Seq<char>, String>::empty(),
    {
        RunCommandStore { version: 0, commands: StrMap::new() }
    }
}

/// The directory a worktree stands for: the current directory for ".", when it
/// is known, else the worktree itself.
pub open spec fn resolved_worktree(worktree: Seq<char>, current_dir: Option<Seq<char>>) -> Seq<char> {
    if worktree == "."@ && current_dir is Some {
        current_dir.unwrap()
    } else {
        worktree
    }
}

/// The directory a worktree stands for, given the current directory if known.
pub fn resolve_worktree(worktree: &str, current_dir: Option<&str>) -> (r: String)
    ensures
        r@ == resolved_worktree(worktree@, match current_dir {
            Some(d) => Some(d@),
            None => None,
        }),
{
    if str_eq(worktree, ".") {
        match current_dir {
            Some(d) => return String::from_str(d),
            None => {},
        }
    }
    String::from_str(worktree)
}

/// The name and the path shown for a project: its name trimmed when it is not
/// blank, else the last component of its path; the path is its worktree
/// resolved.
pub open spec fn project_header(p: Project, path: Seq<char>) -> (Seq<char>, Seq<char>) {
    let named = p.name matches Some(n) && trim(n@).len() > 0;
    let name = if named {
        trim(p.name.unwrap()@)
    } else {
        match path_file_name(path) {
            Some(f) => if f.len() > 0 { f } else { path },
            None => path,
        }
    };
    (name, path)
}

/// The name and path shown for a project, given the path its worktree stands for.
pub fn project_display_name_and_path(project: &Project, normalized_path: String) -> (r: (String, String))
    ensures
        (r.0@, r.1@) == project_header(*project, normalized_path@),
{
    match &project.name {
        Some(name) => {
            let t = trim_chars(&chars_of(name.as_str()));
            if t.len() > 0 {
                return (string_of(t.as_slice()), normalized_path);
            }
        },
        None => {},
    }
    let name = match crate::panels::file_name_of(normalized_path.as_str()) {
        Some(f) => if f.as_str().is_empty() { normalized_path.clone() } else { f },
        None => normalized_path.clone(),
    };
    (name, normalized_path)
}

/// The directory of the first session with the id `session_id`.
pub fn get_session_directory(sessions: &Vec<Session>, session_id: &str) -> (r: Option<String>)
    ensures
        match crate::state::first_session_with_id(sessions@, session_id@) {
            Some(i) => r matches Some(d) && d@ == sessions@[i].directory@,
            None => r is None,
        },
{
    match crate::state::find_session_index(sessions, session_id) {
        Some(i) => Some(sessions[i].directory.clone()),
        None => None,
    }
}

/// The file extension for an image type, "png" when the type is not known.
pub open spec fn image_extension(mime: Seq<char>) -> Seq<char> {
    if mime == "image/png"@ {
        "png"@
    } else if mime == "image/jpeg"@ || mime == "image/jpg"@ {
        "jpg"@
    } else if mime == "image/gif"@ {
        "gif"@
    } else if mime == "image/webp"@ {
        "webp"@
    } else if mime == "image/tiff"@ {
        "tiff"@
    } else if mime == "image/svg+xml"@ {
        "svg"@
    } else {
        "png"@
    }
}

/// The file extension for an image type.
pub fn image_extension_for_mime(mime_type: &str) -> (r: &'static str)
    ensures
        r@ == image_extension(mime_type@),
{
    if str_eq(mime_type, "image/png") {
        "png"
    } else if str_eq(mime_type, "image/jpeg") || str_eq(mime_type, "image/jpg") {
        "jpg"
    } else if str_eq(mime_type, "image/gif") {
        "gif"
    } else if str_eq(mime_type, "image/webp") {
        "webp"
    } else if str_eq(mime_type, "image/tiff") {
        "tiff"
    } else if str_eq(mime_type, "image/svg+xml") {
        "svg"
    } else {
        "png"
    }
}

/// A text in a fenced block: the text, a line feed unless it ends with one, and
/// the closing fence.
pub open spec fn fenced(t: Seq<char>) -> Seq<char> {
    "```text\n"@ + t + (if ends_with(t, "\n"@) { Seq::empty() } else { "\n"@ }) + "```\n\n"@
}

/// The markdown of one file's change: its name as a heading, then the text
/// before and after.
pub open spec fn diff_markdown(d: FileDiff) -> Seq<char> {
    "#### "@ + d.file@ + "\n\n"@ + "**Before**\n"@ + fenced(d.before@) + "**After**\n"@ + fenced(d.after@)
}

/// The markdown of the changes of a list of files.
pub open spec fn diffs_markdown(ds: Seq<FileDiff>) -> Seq<char>
    decreases ds.len(),
{
    if ds.len() == 0 { Seq::empty() } else { diffs_markdown(ds.drop_last()) + diff_markdown(ds.last()) }
}

/// The markdown of a change summary, or a note that there are no details.
pub open spec fn summary_markdown(s: SessionSummary) -> Seq<char> {
    if s.diffs@.len() == 0 { "_No diff details available._"@ } else { diffs_markdown(s.diffs@) }
}

fn push_fenced(out: &mut Vec<char>, t: &str)
    ensures
        final(out)@ == old(out)@ + fenced(t@),
{
    let ghost o0 = out@;
    push_str(out, "```text\n");
    push_str(out, t);
    let nl = chars_of("\n");
    if !has_suffix(&chars_of(t), &nl) {
        push_str(out, "\n");
    }
    push_str(out, "```\n\n");
    proof {
        assert(out@ =~= o0 + fenced(t@));
    }
}

/// The markdown of a change summary.
pub fn build_summary_markdown(summary: &SessionSummary) -> (r: String)
    ensures
        r@ == summary_markdown(*summary),
{
    if summary.diffs.len() == 0 {
        return String::from_str("_No diff details available._");
    }
    let ghost ds = summary.diffs@;
    let mut out: Vec<char> = Vec::new();
    let mut k: usize = 0;
    proof {
        assert(ds.take(0) =~= Seq::<FileDiff>::empty());
    }
    while k < summary.diffs.len()
        invariant
            k <= summary.diffs.len(),
            ds == summary.diffs@,
            out@ == diffs_markdown(ds.take(k as int)),
        decreases summary.diffs.len() - k,
    {
        let d = &summary.diffs[k];
        let ghost o0 = out@;
        push_str(&mut out, "#### ");
        push_str(&mut out, d.file.as_str());
        push_str(&mut out, "\n\n");
        push_str(&mut out, "**Before**\n");
        push_fenced(&mut out, d.before.as_str());
        push_str(&mut out, "**After**\n");
        push_fenced(&mut out, d.after.as_str());
        proof {
            assert(ds.take(k + 1).drop_last() =~= ds.take(k as int));
            assert(ds.take(k + 1).last() == *d);
            assert(out@ =~= o0 + diff_markdown(*d));
        }
        k += 1;
    }
    proof {
        assert(ds.take(ds.len() as int) =~= ds);
    }
    string_of(out.as_slice())
}

/// The sum of the UTF-8 lengths of two texts is the UTF-8 length of the two put together.
proof fn lemma_utf8_len_concat(a: Seq<char>, b: Seq<char>)
    ensures
        utf8_len(a + b) == utf8_len(a) + utf8_len(b),
    decreases b.len(),
{
    if b.len() == 0 {
        assert(a + b =~= a);
    } else {
        lemma_utf8_len_concat(a, b.drop_last());
        assert((a + b).drop_last() =~= a + b.drop_last());
        assert((a + b).last() == b.last());
    }
}

/// Shorter tails take fewer bytes.
proof fn lemma_utf8_tail_shrinks(s: Seq<char>, k1: int, k2: int)
    requires
        0 <= k1 < k2 <= s.len(),
    ensures
        utf8_len(s.skip(k1)) > utf8_len(s.skip(k2)),
    decreases k2 - k1,
{
    let head = seq![s[k1]];
    assert(s.skip(k1) =~= head + s.skip(k1 + 1));
    lemma_utf8_len_concat(head, s.skip(k1 + 1));
    assert(head.drop_last() =~= Seq::<char>::empty());
    if k1 + 1 < k2 {
        lemma_utf8_tail_shrinks(s, k1 + 1, k2);
    }
}

/// Whether the last `n` bytes of the UTF-8 encoding of `s` begin at a character.
pub open spec fn is_tail_boundary(s: Seq<char>, n: nat) -> bool {
    exists|k: int| 0 <= k <= s.len() && utf8_len(#[trigger] s.skip(k)) == n
}

/// The characters that make up the last `n` bytes of `s`.
pub open spec fn byte_tail(s: Seq<char>, n: nat) -> Seq<char> {
    s.skip(choose|k: int| 0 <= k <= s.len() && utf8_len(#[trigger] s.skip(k)) == n)
}

/// The characters that make up the last `n` bytes of `s`.
fn utf8_tail(s: &Vec<char>, n: u64) -> (r: Vec<char>)
    requires
        n <= 1000,
        is_tail_boundary(s@, n as nat),
    ensures
        r@ == byte_tail(s@, n as nat),
{
    let mut total: u64 = 0;
    let mut k: usize = s.len();
    assert(s@.skip(k as int) =~= Seq::<char>::empty());
    while k > 0 && total < n
        invariant
            k <= s.len(),
            n <= 1000,
            total == utf8_len(s@.skip(k as int)),
            total <= n + 4,
            k < s.len() ==> utf8_len(s@.skip(k + 1)) < n,
        decreases k,
    {
        k -= 1;
        proof {
            let head = seq![s@[k as int]];
            assert(s@.skip(k as int) =~= head + s@.skip(k + 1));
            lemma_utf8_len_concat(head, s@.skip(k + 1));
            assert(head.drop_last() =~= Seq::<char>::empty());
            assert(utf8_len(Seq::<char>::empty()) == 0);
            assert(head.last() == s@[k as int]);
            assert(utf8_len(head) == char_utf8_len(s@[k as int]));
        }
        total = total + char_len_utf8(s[k]);
    }
    proof {
        let w = choose|j: int| 0 <= j <= s@.len() && utf8_len(#[trigger] s@.skip(j)) == n as nat;
        if w < k {
            lemma_utf8_tail_shrinks(s@, w, k as int);
        } else if k < w {
            lemma_utf8_tail_shrinks(s@, k as int, w);
            if k + 1 < w {
                lemma_utf8_tail_shrinks(s@, k + 1, w);
            }
        }
        assert(k == w);
    }
    let mut r: Vec<char> = Vec::new();
    let mut j: usize = k;
    while j < s.len()
        invariant
            k <= j <= s.len(),
            r@ == s@.subrange(k as int, j as int),
        decreases s.len() - j,
    {
        r.push(s[j]);
        proof {
            assert(r@ =~= s@.subrange(k as int, j + 1));
        }
        j += 1;
    }
    assert(r@ =~= s@.skip(k as int));
    r
}

/// The path of the project strip: "..." and its last 27 bytes when it is longer
/// than 30 bytes.
pub open spec fn shown_context_path(p: Seq<char>) -> Seq<char> {
    if utf8_len(p) > 30 { "..."@ + byte_tail(p, 27) } else { p }
}

/// Whether the path of the project strip can be cut: when it is longer than 30
/// bytes, its last 27 bytes begin at a character.
pub open spec fn context_path_fits(p: Seq<char>) -> bool {
    utf8_len(p) > 30 ==> is_tail_boundary(p, 27)
}

/// What the project strip above the session title shows.
pub struct ProjectContext {
    /// The badge: a folder and the project's name, or a circle and "No active project".
    pub badge: String,
    /// The line under it: an arrow and the project's path, shortened.
    pub path_label: String,
    /// Whether the path line is shown.
    pub path_visible: bool,
}

/// The badge, path line and path visibility of the project strip.
pub open spec fn project_context_of(project: Option<Project>, path: Seq<char>) -> (Seq<char>, Seq<char>, bool) {
    match project {
        Some(p) => (
            "📁 "@ + project_header(p, path).0,
            "↳ "@ + shown_context_path(project_header(p, path).1),
            true,
        ),
        None => ("◌ No active project"@, "↳ "@, false),
    }
}

/// What the project strip shows for a project (or for none), given the path its
/// worktree stands for.
pub fn project_context(project: Option<&Project>, normalized_path: String) -> (r: ProjectContext)
    requires
        project is Some ==> context_path_fits(normalized_path@),
    ensures
        (r.badge@, r.path_label@, r.path_visible) == project_context_of(
            match project {
                Some(p) => Some(*p),
                None => None,
            },
            normalized_path@,
        ),
{
    match project {
        Some(p) => {
            let (name, path) = project_display_name_and_path(p, normalized_path);
            let mut badge: Vec<char> = Vec::new();
            push_str(&mut badge, "📁 ");
            push_str(&mut badge, name.as_str());
            let cs = chars_of(path.as_str());
            let mut line: Vec<char> = Vec::new();
            push_str(&mut line, "↳ ");
            if utf8_len_exceeds(&cs, 30) {
                push_str(&mut line, "...");
                let tail = utf8_tail(&cs, 27);
                let ghost l0 = line@;
                let mut k: usize = 0;
                while k < tail.len()
                    invariant
                        k <= tail.len(),
                        line@ == l0 + tail@.take(k as int),
                    decreases tail.len() - k,
                {
                    line.push(tail[k]);
                    proof {
                        assert(tail@.take(k + 1) =~= tail@.take(k as int).push(tail@[k as int]));
                    }
                    k += 1;
                }
                assert(tail@.take(tail.len() as int) =~= tail@);
            } else {
                push_str(&mut line, path.as_str());
            }
            ProjectContext { badge: string_of(badge.as_slice()), path_label: string_of(line.as_slice()), path_visible: true }
        },
        None => ProjectContext {
            badge: String::from_str("◌ No active project"),
            path_label: String::from_str("↳ "),
            path_visible: false,
        },
    }
}

/// A server address without the slashes it ends with.
pub open spec fn without_trailing_slashes(s: Seq<char>) -> Seq<char>
    decreases s.len(),
{
    if s.len() > 0 && s.last() == '/' {
        without_trailing_slashes(s.drop_last())
    } else {
        s
    }
}

/// The base address requests are made against: the server address without
/// the slashes it ends with.
pub fn normalize_base_url(url: &str) -> (r: String)
    ensures
        r@ == without_trailing_slashes(url@),
{
    let cs = chars_of(url);
    let mut n: usize = cs.len();
    assert(cs@.take(n as int) =~= cs@);
    while n > 0 && cs[n - 1] == '/'
        invariant
            n <= cs.len(),
            without_trailing_slashes(cs@) == without_trailing_slashes(cs@.take(n as int)),
        decreases n,
    {
        assert(cs@.take(n as int).drop_last() =~= cs@.take(n - 1));
        n -= 1;
    }
    let mut out: Vec<char> = Vec::new();
    let mut k: usize = 0;
    while k < n
        invariant
            k <= n <= cs.len(),
            out@ == cs@.take(k as int),
        decreases n - k,
    {
        out.push(cs[k]);
        assert(out@ =~= cs@.take(k + 1));
        k += 1;
    }
    string_of(out.as_slice())
}

} // verus!
