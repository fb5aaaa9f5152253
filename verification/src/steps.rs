//! How the steps of an assistant reply are described: tool names, inputs,
//! paths, and the one-line and detailed summaries of the steps.
use vstd::prelude::*;
use crate::messages::{detail_views, DetailView, DisplayMessage, DisplayStep, StepDetail, StepView, step_views};
use crate::models::{label_less, label_lt};
use crate::text::{
    char_len_utf8, chars_of, contains_seq, find_seq, join, join_strings, nat_decimal, occurs_at, push_nat_decimal,
    push_str, str_eq, string_of, utf8_len, utf8_len_exceeds, views,
};

verus! {

/// The first position where `p` occurs in `s`, if it does.
pub open spec fn first_occurrence(s: Seq<char>, p: Seq<char>) -> Option<int> {
    if contains_seq(s, p) {
        Some(choose|i: int| occurs_at(s, p, i) && forall|j: int| 0 <= j < i ==> !occurs_at(s, p, j))
    } else {
        None
    }
}

/// The first occurrence found by a search is the one `first_occurrence` names.
pub proof fn lemma_first_occurrence(s: Seq<char>, p: Seq<char>, i: int)
    requires
        occurs_at(s, p, i),
        forall|j: int| 0 <= j < i ==> !occurs_at(s, p, j),
    ensures
        first_occurrence(s, p) == Some(i),
{
    assert(contains_seq(s, p));
    let k = choose|k: int| occurs_at(s, p, k) && forall|j: int| 0 <= j < k ==> !occurs_at(s, p, j);
    if k < i {
        assert(!occurs_at(s, p, k));
    } else if i < k {
        assert(!occurs_at(s, p, i));
    }
}

/// The characters of `s` before its first space.
pub open spec fn upto_space(s: Seq<char>) -> Seq<char>
    decreases s.len(),
{
    if s.len() == 0 || s[0] == ' ' {
        Seq::empty()
    } else {
        seq![s[0]] + upto_space(s.drop_first())
    }
}

/// The value written after the first `key` in `input`, up to the next space.
pub open spec fn field_value(input: Seq<char>, key: Seq<char>) -> Option<Seq<char>> {
    match first_occurrence(input, key) {
        Some(i) => Some(upto_space(input.skip(i + key.len()))),
        None => None,
    }
}

/// The path given in a tool input summary ("path=..."), when there is one.
pub open spec fn extracted_path(input: Seq<char>) -> Option<Seq<char>> {
    match field_value(input, "path="@) {
        Some(v) => if v.len() > 0 { Some(v) } else { None },
        None => None,
    }
}

/// The characters of `s` after its last slash (all of them without a slash).
pub open spec fn after_last_slash(s: Seq<char>) -> Seq<char>
    decreases s.len(),
{
    if s.len() == 0 || s.last() == '/' {
        Seq::empty()
    } else {
        after_last_slash(s.drop_last()).push(s.last())
    }
}

/// A path as shown: ".../" and its file name when it is longer than 40 bytes.
pub open spec fn shown_path(path: Seq<char>) -> Seq<char> {
    if utf8_len(path) > 40 {
        ".../"@ + after_last_slash(path)
    } else {
        path
    }
}

/// The value after `key` in `s`, up to the next space.
fn value_after(s: &Vec<char>, key: &str) -> (r: Option<Vec<char>>)
    ensures
        match r {
            Some(v) => field_value(s@, key@) == Some(v@),
            None => field_value(s@, key@) is None,
        },
{
    let k = chars_of(key);
    match find_seq(s, &k) {
        Some(start) => {
            proof {
                lemma_first_occurrence(s@, k@, start as int);
                assert(occurs_at(s@, k@, start as int));
                assert(k@.len() == k.len());
                assert(start + k.len() <= s.len());
            }
            let from = start + k.len();
            let ghost rest = s@.skip(from as int);
            let mut v: Vec<char> = Vec::new();
            let mut j: usize = from;
            proof {
                assert(s@.skip(j as int) =~= rest);
                assert(upto_space(rest) =~= v@ + upto_space(s@.skip(j as int)));
            }
            while j < s.len() && s[j] != ' '
                invariant
                    from <= j <= s.len(),
                    rest == s@.skip(from as int),
                    upto_space(rest) == v@ + upto_space(s@.skip(j as int)),
                decreases s.len() - j,
            {
                proof {
                    assert(s@.skip(j as int).drop_first() =~= s@.skip(j + 1));
                    assert(s@.skip(j as int)[0] == s@[j as int]);
                }
                v.push(s[j]);
                proof {
                    assert(upto_space(rest) =~= v@ + upto_space(s@.skip(j + 1)));
                }
                j += 1;
            }
            proof {
                if j < s.len() {
                    assert(s@.skip(j as int)[0] == ' ');
                }
                assert(upto_space(s@.skip(j as int)) =~= Seq::<char>::empty());
                assert(v@ =~= upto_space(rest));
            }
            Some(v)
        },
        None => {
            proof {
                assert(first_occurrence(s@, k@) is None);
            }
            None
        },
    }
}

/// The path given in a tool input summary ("path=..."), when there is one.
pub fn extract_path(input: &str) -> (r: Option<String>)
    ensures
        match r {
            Some(p) => extracted_path(input@) == Some(p@),
            None => extracted_path(input@) is None,
        },
{
    let s = chars_of(input);
    match value_after(&s, "path=") {
        Some(v) => if v.len() > 0 { Some(string_of(v.as_slice())) } else { None },
        None => None,
    }
}

/// A path as shown: ".../" and its file name when it is longer than 40 bytes.
pub fn format_path(path: &str) -> (r: String)
    ensures
        r@ == shown_path(path@),
{
    let s = chars_of(path);
    if utf8_len_exceeds(&s, 40) {
        let mut start: usize = s.len();
        proof {
            assert(s@.take(start as int) =~= s@);
            assert(s@.skip(start as int) =~= Seq::<char>::empty());
            assert(after_last_slash(s@) + Seq::<char>::empty() =~= after_last_slash(s@));
        }
        while start > 0 && s[start - 1] != '/'
            invariant
                start <= s.len(),
                after_last_slash(s@) == after_last_slash(s@.take(start as int)) + s@.skip(start as int),
            decreases start,
        {
            proof {
                let t = s@.take(start as int);
                assert(t.drop_last() =~= s@.take(start - 1));
                assert(t.last() == s@[start - 1]);
                assert(s@.skip(start - 1) =~= seq![s@[start - 1]] + s@.skip(start as int));
                assert(after_last_slash(t) =~= after_last_slash(s@.take(start - 1)).push(s@[start - 1]));
                assert(after_last_slash(s@.take(start - 1)).push(s@[start - 1]) + s@.skip(start as int)
                    =~= after_last_slash(s@.take(start - 1)) + s@.skip(start - 1));
            }
            start -= 1;
        }
        proof {
            assert(after_last_slash(s@.take(start as int)) =~= Seq::<char>::empty());
        }
        let mut out: Vec<char> = Vec::new();
        push_str(&mut out, ".../");
        let mut k: usize = start;
        while k < s.len()
            invariant
                start <= k <= s.len(),
                out@ == ".../"@ + s@.subrange(start as int, k as int),
            decreases s.len() - k,
        {
            out.push(s[k]);
            proof {
                assert(out@ =~= ".../"@ + s@.subrange(start as int, k + 1));
            }
            k += 1;
        }
        proof {
            assert(s@.subrange(start as int, s.len() as int) =~= s@.skip(start as int));
            assert(s@.take(s.len() as int) =~= s@);
        }
        string_of(out.as_slice())
    } else {
        String::from_str(path)
    }
}

/// A tool's name as shown.
pub open spec fn tool_label(tool: Seq<char>) -> Seq<char> {
    if tool == "apply_patch"@ || tool == "patch"@ {
        "Applying changes"@
    } else if tool == "read"@ || tool == "read_file"@ {
        "Reading file"@
    } else if tool == "write"@ || tool == "write_file"@ {
        "Writing file"@
    } else if tool == "grep"@ || tool == "search"@ {
        "Searching"@
    } else if tool == "execute"@ || tool == "shell"@ || tool == "run"@ {
        "Running command"@
    } else if tool == "list"@ || tool == "ls"@ {
        "Listing directory"@
    } else if tool == "cat"@ {
        "Viewing file"@
    } else {
        tool
    }
}

/// A tool's name as shown.
pub fn format_tool_name(tool: &str) -> (r: String)
    ensures
        r@ == tool_label(tool@),
{
    if str_eq(tool, "apply_patch") || str_eq(tool, "patch") {
        String::from_str("Applying changes")
    } else if str_eq(tool, "read") || str_eq(tool, "read_file") {
        String::from_str("Reading file")
    } else if str_eq(tool, "write") || str_eq(tool, "write_file") {
        String::from_str("Writing file")
    } else if str_eq(tool, "grep") || str_eq(tool, "search") {
        String::from_str("Searching")
    } else if str_eq(tool, "execute") || str_eq(tool, "shell") || str_eq(tool, "run") {
        String::from_str("Running command")
    } else if str_eq(tool, "list") || str_eq(tool, "ls") {
        String::from_str("Listing directory")
    } else if str_eq(tool, "cat") {
        String::from_str("Viewing file")
    } else {
        String::from_str(tool)
    }
}

/// The icon shown before a tool call.
pub open spec fn tool_icon(tool: Seq<char>) -> Seq<char> {
    if tool == "apply_patch"@ || tool == "patch"@ {
        "📝"@
    } else if tool == "read"@ || tool == "read_file"@ || tool == "cat"@ {
        "📄"@
    } else if tool == "write"@ || tool == "write_file"@ {
        "💾"@
    } else if tool == "grep"@ || tool == "search"@ {
        "🔍"@
    } else if tool == "execute"@ || tool == "shell"@ || tool == "run"@ {
        "⚡"@
    } else if tool == "list"@ || tool == "ls"@ {
        "📁"@
    } else {
        "•"@
    }
}

/// The icon shown before a tool call.
pub fn get_tool_icon(tool: &str) -> (r: &'static str)
    ensures
        r@ == tool_icon(tool@),
{
    if str_eq(tool, "apply_patch") || str_eq(tool, "patch") {
        "📝"
    } else if str_eq(tool, "read") || str_eq(tool, "read_file") || str_eq(tool, "cat") {
        "📄"
    } else if str_eq(tool, "write") || str_eq(tool, "write_file") {
        "💾"
    } else if str_eq(tool, "grep") || str_eq(tool, "search") {
        "🔍"
    } else if str_eq(tool, "execute") || str_eq(tool, "shell") || str_eq(tool, "run") {
        "⚡"
    } else if str_eq(tool, "list") || str_eq(tool, "ls") {
        "📁"
    } else {
        "•"
    }
}

/// Whether `s` contains `p`.
fn has_infix(s: &str, p: &str) -> (b: bool)
    ensures
        b == contains_seq(s@, p@),
{
    find_seq(&chars_of(s), &chars_of(p)).is_some()
}

/// Whether a tool name looks like reading.
pub open spec fn reads(tool: Seq<char>) -> bool {
    contains_seq(tool, "read"@) || contains_seq(tool, "grep"@) || contains_seq(tool, "search"@)
}

/// Whether a tool name looks like writing.
pub open spec fn writes(tool: Seq<char>) -> bool {
    contains_seq(tool, "write"@) || contains_seq(tool, "patch"@) || contains_seq(tool, "apply"@)
}

/// Whether a tool name looks like running a command.
pub open spec fn executes(tool: Seq<char>) -> bool {
    contains_seq(tool, "execute"@) || contains_seq(tool, "run"@) || contains_seq(tool, "shell"@)
}

/// What a step is doing, in a few words, from its tool calls: an hourglass first
/// while a call runs.
pub open spec fn step_description(step: StepView) -> Seq<char> {
    let prefix = if step.has_running { "⏳ "@ } else { Seq::<char>::empty() };
    let ds = step.details;
    let n = ds.len();
    let has_read = exists|k: int| 0 <= k < n && reads(#[trigger] ds[k].tool);
    let has_write = exists|k: int| 0 <= k < n && writes(#[trigger] ds[k].tool);
    let has_execute = exists|k: int| 0 <= k < n && executes(#[trigger] ds[k].tool);
    if n == 0 {
        if step.reason.len() == 0 {
            prefix + "Working..."@
        } else {
            prefix + step.reason
        }
    } else if has_write && has_read {
        prefix + "Reading and modifying files"@
    } else if has_write {
        prefix + "Modifying files"@
    } else if has_read {
        if n == 1 {
            match extracted_path(ds[0].input_summary) {
                Some(path) => prefix + "Reading "@ + shown_path(path),
                None => prefix + "Reading files"@,
            }
        } else {
            prefix + "Reading "@ + nat_decimal(n) + " files"@
        }
    } else if has_execute {
        prefix + "Running commands"@
    } else if n == 1 {
        prefix + tool_label(ds[0].tool)
    } else {
        prefix + nat_decimal(n) + " operations"@
    }
}

/// What a step is doing, in a few words.
pub fn get_step_description(step: &DisplayStep) -> (r: String)
    ensures
        r@ == step_description(step@),
{
    let ghost ds = step@.details;
    let mut out: Vec<char> = Vec::new();
    if step.has_running {
        push_str(&mut out, "⏳ ");
    }
    let ghost prefix = out@;
    let n = step.details.len();
    if n == 0 {
        if step.reason.as_str().is_empty() {
            push_str(&mut out, "Working...");
        } else {
            push_str(&mut out, step.reason.as_str());
        }
        return string_of(out.as_slice());
    }
    let mut has_read = false;
    let mut has_write = false;
    let mut has_execute = false;
    let mut k: usize = 0;
    while k < n
        invariant
            k <= n,
            n == step.details@.len(),
            ds == step@.details,
            has_read == exists|j: int| 0 <= j < k && reads(#[trigger] ds[j].tool),
            has_write == exists|j: int| 0 <= j < k && writes(#[trigger] ds[j].tool),
            has_execute == exists|j: int| 0 <= j < k && executes(#[trigger] ds[j].tool),
        decreases n - k,
    {
        let t = step.details[k].tool.as_str();
        assert(ds[k as int].tool == t@);
        if has_infix(t, "read") || has_infix(t, "grep") || has_infix(t, "search") {
            has_read = true;
        }
        if has_infix(t, "write") || has_infix(t, "patch") || has_infix(t, "apply") {
            has_write = true;
        }
        if has_infix(t, "execute") || has_infix(t, "run") || has_infix(t, "shell") {
            has_execute = true;
        }
        k += 1;
    }
    if has_write && has_read {
        push_str(&mut out, "Reading and modifying files");
    } else if has_write {
        push_str(&mut out, "Modifying files");
    } else if has_read {
        if n == 1 {
            assert(ds[0].input_summary == step.details[0].input_summary@);
            match extract_path(step.details[0].input_summary.as_str()) {
                Some(path) => {
                    push_str(&mut out, "Reading ");
                    let shown = format_path(path.as_str());
                    push_str(&mut out, shown.as_str());
                },
                None => {
                    push_str(&mut out, "Reading files");
                },
            }
        } else {
            push_str(&mut out, "Reading ");
            push_nat_decimal(n as u64, &mut out);
            push_str(&mut out, " files");
        }
    } else if has_execute {
        push_str(&mut out, "Running commands");
    } else if n == 1 {
        assert(ds[0].tool == step.details[0].tool@);
        let label = format_tool_name(step.details[0].tool.as_str());
        push_str(&mut out, label.as_str());
    } else {
        push_nat_decimal(n as u64, &mut out);
        push_str(&mut out, " operations");
    }
    string_of(out.as_slice())
}

/// Whether the first `n` bytes of the UTF-8 encoding of `s` end between two
/// characters.
pub open spec fn is_byte_boundary(s: Seq<char>, n: nat) -> bool {
    exists|k: int| 0 <= k <= s.len() && utf8_len(#[trigger] s.take(k)) == n
}

/// The characters that make up the first `n` bytes of `s`.
pub open spec fn byte_prefix(s: Seq<char>, n: nat) -> Seq<char> {
    s.take(choose|k: int| 0 <= k <= s.len() && utf8_len(#[trigger] s.take(k)) == n)
}

/// Longer prefixes take more bytes.
proof fn lemma_utf8_prefix_grows(s: Seq<char>, k1: int, k2: int)
    requires
        0 <= k1 < k2 <= s.len(),
    ensures
        utf8_len(s.take(k1)) < utf8_len(s.take(k2)),
    decreases k2 - k1,
{
    assert(s.take(k2).drop_last() =~= s.take(k2 - 1));
    if k1 < k2 - 1 {
        lemma_utf8_prefix_grows(s, k1, k2 - 1);
    }
}

/// The value of one field of a tool input as shown, if the input has the field
/// with a short enough value.
pub open spec fn shown_field(input: Seq<char>, key: Seq<char>) -> Seq<Seq<char>> {
    match field_value(input, key + "="@) {
        Some(v) => if v.len() > 0 && utf8_len(v) < 50 {
            if key == "offset"@ {
                seq!["@ "@ + v]
            } else if key == "limit"@ {
                if v != "50"@ && v != "100"@ { seq!["limit "@ + v] } else { Seq::empty() }
            } else {
                seq!["cmd: "@ + v]
            }
        } else {
            Seq::empty()
        },
        None => Seq::empty(),
    }
}

/// The pieces shown for a tool input: its path, offset, limit and command.
pub open spec fn input_pieces(input: Seq<char>) -> Seq<Seq<char>> {
    (match extracted_path(input) {
        Some(p) => seq![shown_path(p)],
        None => Seq::empty(),
    }) + shown_field(input, "offset"@) + shown_field(input, "limit"@) + shown_field(input, "command"@)
}

/// Whether the input can be shown: when none of its pieces are found and it is
/// longer than 50 bytes, its first 47 bytes must end between two characters.
pub open spec fn tool_input_showable(input: Seq<char>) -> bool {
    input.len() > 0 && input_pieces(input).len() == 0 && utf8_len(input) > 50 ==> is_byte_boundary(input, 47)
}

/// A tool input as shown: its pieces joined by spaces, or, without pieces, the
/// input itself cut to 47 bytes and "..." when longer than 50 bytes.
pub open spec fn tool_input_text(input: Seq<char>) -> Seq<char> {
    if input.len() == 0 {
        Seq::empty()
    } else if input_pieces(input).len() == 0 {
        if utf8_len(input) > 50 {
            byte_prefix(input, 47) + "..."@
        } else {
            input
        }
    } else {
        join(input_pieces(input), " "@)
    }
}

/// Adds the shown value of one field to `parts`.
fn push_field(parts: &mut Vec<String>, s: &Vec<char>, key: &str, with_eq: &str)
    requires
        with_eq@ == key@ + "="@,
        key@ == "offset"@ || key@ == "limit"@ || key@ == "command"@,
    ensures
        views(final(parts)@) == views(old(parts)@) + shown_field(s@, key@),
{
    let ghost p0 = views(parts@);
    match value_after(s, with_eq) {
        Some(v) => {
            if v.len() > 0 && !utf8_len_exceeds(&v, 49) {
                let vs = string_of(v.as_slice());
                let mut out: Vec<char> = Vec::new();
                if str_eq(key, "offset") {
                    push_str(&mut out, "@ ");
                    push_str(&mut out, vs.as_str());
                    parts.push(string_of(out.as_slice()));
                } else if str_eq(key, "limit") {
                    if !str_eq(vs.as_str(), "50") && !str_eq(vs.as_str(), "100") {
                        push_str(&mut out, "limit ");
                        push_str(&mut out, vs.as_str());
                        parts.push(string_of(out.as_slice()));
                    }
                } else {
                    push_str(&mut out, "cmd: ");
                    push_str(&mut out, vs.as_str());
                    parts.push(string_of(out.as_slice()));
                }
            }
        },
        None => {},
    }
    proof {
        assert(views(parts@) =~= p0 + shown_field(s@, key@));
    }
}

/// The pieces shown for a tool input.
fn tool_input_pieces(input: &str, s: &Vec<char>) -> (r: Vec<String>)
    requires
        s@ == input@,
    ensures
        views(r@) == input_pieces(input@),
{
    let mut parts: Vec<String> = Vec::new();
    match extract_path(input) {
        Some(path) => {
            parts.push(format_path(path.as_str()));
        },
        None => {},
    }
    proof {
        assert(views(parts@) =~= (match extracted_path(input@) {
            Some(p) => seq![shown_path(p)],
            None => Seq::<Seq<char>>::empty(),
        }));
        reveal_strlit("offset");
        reveal_strlit("offset=");
        reveal_strlit("limit");
        reveal_strlit("limit=");
        reveal_strlit("command");
        reveal_strlit("command=");
        reveal_strlit("=");
        assert("offset="@ =~= "offset"@ + "="@);
        assert("limit="@ =~= "limit"@ + "="@);
        assert("command="@ =~= "command"@ + "="@);
    }
    push_field(&mut parts, s, "offset", "offset=");
    push_field(&mut parts, s, "limit", "limit=");
    push_field(&mut parts, s, "command", "command=");
    proof {
        assert(views(parts@) =~= input_pieces(input@));
    }
    parts
}

/// The characters that make up the first `n` bytes of `s`.
fn utf8_prefix(s: &Vec<char>, n: u64) -> (r: Vec<char>)
    requires
        n <= 1000,
        is_byte_boundary(s@, n as nat),
    ensures
        r@ == byte_prefix(s@, n as nat),
{
    let mut total: u64 = 0;
    let mut k: usize = 0;
    proof {
        assert(s@.take(0) =~= Seq::<char>::empty());
    }
    while k < s.len() && total < n
        invariant
            k <= s.len(),
            n <= 1000,
            total == utf8_len(s@.take(k as int)),
            total <= n + 4,
            k > 0 ==> utf8_len(s@.take(k - 1)) < n,
        decreases s.len() - k,
    {
        proof {
            assert(s@.take(k + 1).drop_last() =~= s@.take(k as int));
        }
        total = total + char_len_utf8(s[k]);
        k += 1;
    }
    proof {
        let w = choose|j: int| 0 <= j <= s@.len() && utf8_len(#[trigger] s@.take(j)) == n as nat;
        if k == s.len() {
            assert(s@.take(k as int) =~= s@);
        }
        if w < k {
            lemma_utf8_prefix_grows(s@, w, k as int);
            if w < k - 1 {
                lemma_utf8_prefix_grows(s@, w, k - 1);
            }
        } else if k < w {
            lemma_utf8_prefix_grows(s@, k as int, w);
        }
        assert(k == w);
    }
    take_prefix_chars(s, k)
}

/// A tool input as shown in a step.
pub fn format_tool_input(input: &str) -> (r: String)
    requires
        tool_input_showable(input@),
    ensures
        r@ == tool_input_text(input@),
{
    let s = chars_of(input);
    if s.len() == 0 {
        return String::new();
    }
    let parts = tool_input_pieces(input, &s);
    if parts.len() == 0 {
        if utf8_len_exceeds(&s, 50) {
            let mut out = utf8_prefix(&s, 47);
            push_str(&mut out, "...");
            string_of(out.as_slice())
        } else {
            String::from_str(input)
        }
    } else {
        join_strings(&parts, " ")
    }
}

/// The first `k` characters of `s`.
fn take_prefix_chars(s: &Vec<char>, k: usize) -> (r: Vec<char>)
    requires
        k <= s.len(),
    ensures
        r@ == s@.take(k as int),
{
    let mut r: Vec<char> = Vec::new();
    let mut j: usize = 0;
    while j < k
        invariant
            j <= k <= s.len(),
            r@ == s@.take(j as int),
        decreases k - j,
    {
        r.push(s[j]);
        proof {
            assert(r@ =~= s@.take(j + 1));
        }
        j += 1;
    }
    r
}

/// The line shown for one tool call: icon, tool, input, and the result or "..."
/// while it runs.
pub open spec fn detail_line(d: DetailView) -> Seq<char> {
    let icon = if d.is_running { "⏳"@ } else { tool_icon(d.tool) };
    let name = tool_label(d.tool);
    let input = tool_input_text(d.input_summary);
    let head = if input.len() == 0 { icon + " "@ + name } else { icon + " "@ + name + " "@ + input };
    if d.is_running {
        head + " ..."@
    } else {
        head + " → "@ + d.result
    }
}

/// The lines of the tool calls of a step.
pub open spec fn detail_lines(ds: Seq<DetailView>) -> Seq<Seq<char>> {
    ds.map_values(|d: DetailView| detail_line(d))
}

/// Whether every tool input of a step can be shown.
pub open spec fn details_showable(ds: Seq<DetailView>) -> bool {
    forall|k: int| 0 <= k < ds.len() ==> tool_input_showable(#[trigger] ds[k].input_summary)
}

/// The body of one step: a line per tool call, then the cost and token figures
/// in `stats` joined by " · "; its reason, or a dash, when there is nothing.
pub open spec fn step_body(step: StepView, stats: Seq<Seq<char>>) -> Seq<char> {
    let lines = detail_lines(step.details) + (if stats.len() > 0 { seq![join(stats, " · "@)] } else { Seq::empty() });
    if lines.len() == 0 {
        if step.reason.len() == 0 { "—"@ } else { step.reason }
    } else {
        join(lines, "\n"@)
    }
}

/// The line shown for one tool call.
fn format_detail_line(d: &StepDetail) -> (r: String)
    requires
        tool_input_showable(d.input_summary@),
    ensures
        r@ == detail_line(d@),
{
    let mut out: Vec<char> = Vec::new();
    if d.is_running {
        push_str(&mut out, "⏳");
    } else {
        push_str(&mut out, get_tool_icon(d.tool.as_str()));
    }
    push_str(&mut out, " ");
    let name = format_tool_name(d.tool.as_str());
    push_str(&mut out, name.as_str());
    let input = format_tool_input(d.input_summary.as_str());
    if !input.as_str().is_empty() {
        push_str(&mut out, " ");
        push_str(&mut out, input.as_str());
    }
    if d.is_running {
        push_str(&mut out, " ...");
    } else {
        push_str(&mut out, " → ");
        push_str(&mut out, d.result.as_str());
    }
    string_of(out.as_slice())
}

/// The body of one step; `stats` holds its cost and token figures as shown.
pub fn format_step_body(step: &DisplayStep, stats: &Vec<String>) -> (r: String)
    requires
        details_showable(step@.details),
    ensures
        r@ == step_body(step@, views(stats@)),
{
    let ghost ds = step@.details;
    let mut lines: Vec<String> = Vec::new();
    let mut k: usize = 0;
    while k < step.details.len()
        invariant
            k <= step.details.len(),
            ds == step@.details,
            details_showable(ds),
            views(lines@) == detail_lines(ds.take(k as int)),
        decreases step.details.len() - k,
    {
        assert(ds[k as int] == step.details[k as int]@);
        assert(tool_input_showable(ds[k as int].input_summary));
        let line = format_detail_line(&step.details[k]);
        let ghost l0 = views(lines@);
        lines.push(line);
        proof {
            assert(views(lines@) =~= l0.push(line@));
            assert(detail_lines(ds.take(k + 1)) =~= detail_lines(ds.take(k as int)).push(detail_line(ds[k as int])));
        }
        k += 1;
    }
    assert(ds.take(step.details.len() as int) =~= ds);
    if stats.len() > 0 {
        let ghost l0 = views(lines@);
        lines.push(join_strings(stats, " · "));
        assert(views(lines@) =~= l0 + seq![join(views(stats@), " · "@)]);
    } else {
        assert(views(lines@) =~= detail_lines(ds) + Seq::<Seq<char>>::empty());
    }
    if lines.len() == 0 {
        if step.reason.as_str().is_empty() {
            String::from_str("—")
        } else {
            step.reason.clone()
        }
    } else {
        join_strings(&lines, "\n")
    }
}

/// The header of a step in the detailed list: "Step N" and its reason.
pub open spec fn step_header(n: nat, reason: Seq<char>) -> Seq<char> {
    if reason.len() == 0 { "Step "@ + nat_decimal(n) } else { "Step "@ + nat_decimal(n) + ": "@ + reason }
}

/// A tool call in the detailed list.
pub open spec fn detail_row(d: DetailView) -> Seq<char> {
    if d.input_summary.len() == 0 {
        "  • "@ + d.tool + " → "@ + d.result
    } else {
        "  • "@ + d.tool + " "@ + d.input_summary + " → "@ + d.result
    }
}

/// The lines of the detailed list for the given steps, numbered from 1.
pub open spec fn detailed_lines(ss: Seq<StepView>) -> Seq<Seq<char>>
    decreases ss.len(),
{
    if ss.len() == 0 {
        Seq::empty()
    } else {
        detailed_lines(ss.drop_last()) + seq![step_header(ss.len(), ss.last().reason)]
            + ss.last().details.map_values(|d: DetailView| detail_row(d))
    }
}

/// The detailed list of steps: the first ten with their tool calls, then how
/// many more there are.
pub open spec fn steps_detailed(ss: Seq<StepView>) -> Seq<char> {
    let rest: int = if ss.len() > 10 { ss.len() - 10 } else { 0 };
    join(detailed_lines(ss.take(ss.len() - rest)), "\n"@) + (if rest > 0 {
        "\n… "@ + nat_decimal(rest as nat) + " more steps"@
    } else {
        Seq::empty()
    })
}

/// The detailed list of steps.
pub fn format_steps_detailed(steps: &Vec<DisplayStep>) -> (r: String)
    ensures
        r@ == steps_detailed(step_views(steps@)),
{
    let ghost ss = step_views(steps@);
    let rest: usize = if steps.len() > 10 { steps.len() - 10 } else { 0 };
    let shown = steps.len() - rest;
    let mut lines: Vec<String> = Vec::new();
    let mut i: usize = 0;
    while i < shown
        invariant
            i <= shown <= steps.len(),
            ss == step_views(steps@),
            views(lines@) == detailed_lines(ss.take(i as int)),
        decreases shown - i,
    {
        let st = &steps[i];
        let ghost l0 = views(lines@);
        let mut h: Vec<char> = Vec::new();
        push_str(&mut h, "Step ");
        push_nat_decimal((i + 1) as u64, &mut h);
        if !st.reason.as_str().is_empty() {
            push_str(&mut h, ": ");
            push_str(&mut h, st.reason.as_str());
        }
        lines.push(string_of(h.as_slice()));
        let ghost dv = st@.details;
        let mut k: usize = 0;
        while k < st.details.len()
            invariant
                k <= st.details.len(),
                dv == st@.details,
                views(lines@) == l0 + seq![step_header((i + 1) as nat, st.reason@)]
                    + dv.take(k as int).map_values(|d: DetailView| detail_row(d)),
            decreases st.details.len() - k,
        {
            let d = &st.details[k];
            assert(dv[k as int] == d@);
            let mut row: Vec<char> = Vec::new();
            push_str(&mut row, "  • ");
            push_str(&mut row, d.tool.as_str());
            if !d.input_summary.as_str().is_empty() {
                push_str(&mut row, " ");
                push_str(&mut row, d.input_summary.as_str());
            }
            push_str(&mut row, " → ");
            push_str(&mut row, d.result.as_str());
            assert(row@ == detail_row(dv[k as int]));
            let ghost lk = views(lines@);
            lines.push(string_of(row.as_slice()));
            proof {
                assert(views(lines@) =~= lk.push(detail_row(dv[k as int])));
                assert(dv.take(k + 1).map_values(|d: DetailView| detail_row(d))
                    =~= dv.take(k as int).map_values(|d: DetailView| detail_row(d)).push(detail_row(dv[k as int])));
                assert(views(lines@) =~= l0 + seq![step_header((i + 1) as nat, st.reason@)]
                    + dv.take(k + 1).map_values(|d: DetailView| detail_row(d)));
            }
            k += 1;
        }
        proof {
            assert(dv.take(st.details.len() as int) =~= dv);
            assert(ss.take(i + 1).drop_last() =~= ss.take(i as int));
            assert(ss.take(i + 1).last() == st@);
        }
        i += 1;
    }
    let mut out: Vec<char> = chars_of(join_strings(&lines, "\n").as_str());
    if rest > 0 {
        push_str(&mut out, "\n… ");
        push_nat_decimal(rest as u64, &mut out);
        push_str(&mut out, " more steps");
    }
    string_of(out.as_slice())
}

/// The descriptions of the steps that are not empty, in order.
pub open spec fn described(ss: Seq<StepView>) -> Seq<Seq<char>>
    decreases ss.len(),
{
    if ss.len() == 0 {
        Seq::empty()
    } else {
        let d = step_description(ss.last());
        if d.len() > 0 { described(ss.drop_last()).push(d) } else { described(ss.drop_last()) }
    }
}

/// The descriptions of a longer list of steps begin with those of a shorter one.
proof fn lemma_described_prefix(ss: Seq<StepView>, k: int)
    requires
        0 <= k <= ss.len(),
    ensures
        described(ss.take(k)).len() <= described(ss).len(),
        described(ss).take(described(ss.take(k)).len() as int) == described(ss.take(k)),
    decreases ss.len() - k,
{
    if k < ss.len() {
        lemma_described_prefix(ss, k + 1);
        assert(ss.take(k + 1).drop_last() =~= ss.take(k));
        let a = described(ss.take(k));
        let b = described(ss.take(k + 1));
        assert(b.take(a.len() as int) =~= a);
        assert(described(ss).take(a.len() as int) =~= b.take(a.len() as int));
    } else {
        assert(ss.take(k) =~= ss);
        assert(described(ss).take(described(ss).len() as int) =~= described(ss));
    }
}

/// The one-line summary of a reply's steps: "Steps" (or "Running" while a tool
/// runs), their number, the first three descriptions, and the duration text
/// when given; nothing without steps.
pub open spec fn steps_summary(ss: Seq<StepView>, duration: Option<Seq<char>>) -> Seq<char> {
    if ss.len() == 0 {
        Seq::empty()
    } else {
        let running = exists|k: int| 0 <= k < ss.len() && (#[trigger] ss[k]).has_running;
        let ds = described(ss);
        let labels = if ds.len() > 3 { ds.take(3) } else { ds };
        let summary = if labels.len() == 0 { "Steps"@ } else { join(labels, ", "@) };
        let prefix = if running { "Running"@ } else { "Steps"@ };
        let head = prefix + ": "@ + nat_decimal(ss.len()) + " • "@ + summary;
        match duration {
            Some(d) => head + " • "@ + d,
            None => head,
        }
    }
}

/// The one-line summary of a reply's steps; `duration` is the reply's duration
/// as shown, when it has one.
pub fn steps_summary_text(msg: &DisplayMessage, duration: Option<&str>) -> (r: String)
    ensures
        r@ == steps_summary(step_views(msg.steps@), match duration {
            Some(d) => Some(d@),
            None => None,
        }),
{
    let ghost ss = step_views(msg.steps@);
    let n = msg.steps.len();
    if n == 0 {
        return String::new();
    }
    let mut running = false;
    let mut k: usize = 0;
    while k < n
        invariant
            k <= n == msg.steps.len(),
            ss == step_views(msg.steps@),
            running == exists|j: int| 0 <= j < k && (#[trigger] ss[j]).has_running,
        decreases n - k,
    {
        assert(ss[k as int] == msg.steps[k as int]@);
        if msg.steps[k].has_running {
            running = true;
        }
        k += 1;
    }
    let mut labels: Vec<String> = Vec::new();
    let mut i: usize = 0;
    while i < n && labels.len() < 3
        invariant
            i <= n == msg.steps.len(),
            ss == step_views(msg.steps@),
            views(labels@) == described(ss.take(i as int)),
            labels.len() <= 3,
        decreases n - i,
    {
        assert(ss.take(i + 1).drop_last() =~= ss.take(i as int));
        assert(ss.take(i + 1).last() == msg.steps[i as int]@);
        let d = get_step_description(&msg.steps[i]);
        if !d.as_str().is_empty() {
            let ghost l0 = views(labels@);
            labels.push(d);
            assert(views(labels@) =~= l0.push(d@));
        }
        i += 1;
    }
    proof {
        lemma_described_prefix(ss, i as int);
        if i == n {
            assert(ss.take(i as int) =~= ss);
        }
        let ds = described(ss);
        let want = if ds.len() > 3 { ds.take(3) } else { ds };
        assert(views(labels@) =~= want);
    }
    let mut out: Vec<char> = Vec::new();
    if running {
        push_str(&mut out, "Running");
    } else {
        push_str(&mut out, "Steps");
    }
    push_str(&mut out, ": ");
    push_nat_decimal(n as u64, &mut out);
    push_str(&mut out, " • ");
    if labels.len() == 0 {
        push_str(&mut out, "Steps");
    } else {
        let joined = join_strings(&labels, ", ");
        push_str(&mut out, joined.as_str());
    }
    match duration {
        Some(d) => {
            push_str(&mut out, " • ");
            push_str(&mut out, d);
        },
        None => {},
    }
    string_of(out.as_slice())
}

/// The label of the button that folds or unfolds a reply's steps.
pub fn steps_button_label(msg: &DisplayMessage) -> (r: String)
    ensures
        r@ == (if msg.show_steps { "▾ Details"@ } else { "▸ Details"@ }),
{
    if msg.show_steps {
        String::from_str("▾ Details")
    } else {
        String::from_str("▸ Details")
    }
}

/// The spinner shown while a reply is being written, by animation frame.
pub fn thinking_icon(frame: usize) -> (r: &'static str)
    ensures
        r@ == (if frame == 0 {
            "◐"@
        } else if frame == 1 {
            "◑"@
        } else if frame == 2 {
            "◒"@
        } else if frame == 3 {
            "◓"@
        } else if frame == 4 {
            "◔"@
        } else {
            "◕"@
        }),
{
    match frame {
        0 => "◐",
        1 => "◑",
        2 => "◒",
        3 => "◓",
        4 => "◔",
        _ => "◕",
    }
}

/// Where `x` goes in `sorted`: before the first entry that comes after it.
pub open spec fn string_insertion_point(sorted: Seq<Seq<char>>, x: Seq<char>) -> int {
    if exists|k: int| 0 <= k < sorted.len() && label_lt(x, sorted[k]) {
        choose|k: int| 0 <= k < sorted.len() && label_lt(x, sorted[k]) && forall|l: int| 0 <= l < k ==> !label_lt(x, sorted[l])
    } else {
        sorted.len() as int
    }
}

/// `s` sorted in code-point order, as std sorts strings.
pub open spec fn sort_strings(s: Seq<Seq<char>>) -> Seq<Seq<char>>
    decreases s.len(),
{
    if s.len() == 0 {
        s
    } else {
        let sorted = sort_strings(s.drop_last());
        sorted.insert(string_insertion_point(sorted, s.last()), s.last())
    }
}

fn insert_sorted_string(sorted: &mut Vec<String>, x: String)
    ensures
        views(final(sorted)@) == views(old(sorted)@).insert(string_insertion_point(views(old(sorted)@), x@), x@),
{
    let ghost s = views(sorted@);
    let mut k: usize = 0;
    while k < sorted.len()
        invariant
            k <= sorted.len(),
            s == views(sorted@),
            s == views(old(sorted)@),
            forall|l: int| 0 <= l < k ==> !label_lt(x@, s[l]),
        decreases sorted.len() - k,
    {
        if label_less(x.as_str(), sorted[k].as_str()) {
            proof {
                let w = choose|j: int| 0 <= j < s.len() && label_lt(x@, s[j]) && forall|l: int| 0 <= l < j ==> !label_lt(x@, s[l]);
                assert(label_lt(x@, s[k as int]));
                if w > k {
                    assert(!label_lt(x@, s[k as int]));
                }
                assert(string_insertion_point(s, x@) == k);
            }
            let ghost xv = x@;
            sorted.insert(k, x);
            assert(views(sorted@) =~= s.insert(k as int, xv));
            return;
        }
        k += 1;
    }
    let ghost xv = x@;
    sorted.push(x);
    assert(views(sorted@) =~= s.insert(s.len() as int, xv));
}

/// Strings sorted in code-point order.
fn sort_string_vec(items: Vec<String>) -> (r: Vec<String>)
    ensures
        views(r@) == sort_strings(views(items@)),
{
    let mut sorted: Vec<String> = Vec::new();
    let mut rest = items;
    let ghost orig = views(rest@);
    let mut i: usize = 0;
    assert(orig.take(0) =~= Seq::<Seq<char>>::empty());
    assert(orig.len() == rest.len());
    while rest.len() > 0
        invariant
            i + rest@.len() == orig.len(),
            orig.len() <= usize::MAX,
            views(rest@) == orig.skip(i as int),
            views(sorted@) == sort_strings(orig.take(i as int)),
        decreases rest@.len(),
    {
        let ghost r0 = rest@;
        let x = rest.remove(0);
        proof {
            assert(r0[0] == x);
            assert(orig.skip(i as int)[0] == orig[i as int]);
            assert(views(rest@) =~= views(r0).drop_first());
            assert(orig.take(i + 1).drop_last() =~= orig.take(i as int));
            assert(orig.take(i + 1).last() == x@);
        }
        insert_sorted_string(&mut sorted, x);
        i += 1;
        proof {
            assert(views(rest@) =~= orig.skip(i as int));
        }
    }
    assert(orig.take(i as int) =~= orig);
    sorted
}

/// The reason a step is counted under: "step" when it has none.
pub open spec fn reason_key(s: StepView) -> Seq<char> {
    if s.reason.len() == 0 { "step"@ } else { s.reason }
}

/// The reasons of the steps, each once, in the order they first come.
pub open spec fn step_keys(ss: Seq<StepView>) -> Seq<Seq<char>>
    decreases ss.len(),
{
    if ss.len() == 0 {
        Seq::empty()
    } else {
        let r = step_keys(ss.drop_last());
        if r.contains(reason_key(ss.last())) { r } else { r.push(reason_key(ss.last())) }
    }
}

/// How many steps are counted under `key`.
pub open spec fn key_count(ss: Seq<StepView>, key: Seq<char>) -> nat
    decreases ss.len(),
{
    if ss.len() == 0 {
        0
    } else {
        key_count(ss.drop_last(), key) + if reason_key(ss.last()) == key { 1nat } else { 0nat }
    }
}

/// A reason that no step has is counted under no step, and every counted reason
/// is among the keys.
proof fn lemma_key_count_absent(ss: Seq<StepView>, key: Seq<char>)
    ensures
        !step_keys(ss).contains(key) ==> key_count(ss, key) == 0,
    decreases ss.len(),
{
    if ss.len() > 0 {
        lemma_key_count_absent(ss.drop_last(), key);
        let r = step_keys(ss.drop_last());
        if !step_keys(ss).contains(key) {
            if r.contains(key) {
                let w = choose|w: int| 0 <= w < r.len() && r[w] == key;
                if r.contains(reason_key(ss.last())) {
                    assert(step_keys(ss)[w] == key);
                } else {
                    assert(step_keys(ss)[w] == key);
                }
            }
            if reason_key(ss.last()) == key {
                if r.contains(key) {
                } else {
                    assert(step_keys(ss)[r.len() as int] == key);
                }
            }
        }
    }
}

/// What the aggregated summary shows for one reason: the reason, after its
/// count and "×" when more than one step has it.
pub open spec fn aggregated_part(ss: Seq<StepView>, key: Seq<char>) -> Seq<char> {
    if key_count(ss, key) == 1 { key } else { nat_decimal(key_count(ss, key)) + "× "@ + key }
}

/// The aggregated summary of steps: their number, then each reason with its
/// count, sorted; nothing without steps.
pub open spec fn steps_aggregated(ss: Seq<StepView>) -> Seq<char> {
    if ss.len() == 0 {
        Seq::empty()
    } else {
        let parts = sort_strings(step_keys(ss).map_values(|k: Seq<char>| aggregated_part(ss, k)));
        (if ss.len() == 1 { "1 step: "@ } else { nat_decimal(ss.len()) + " steps: "@ }) + join(parts, ", "@)
    }
}

/// The position of `key` among `keys`, if it is there.
fn position_of(keys: &Vec<String>, key: &str) -> (r: Option<usize>)
    ensures
        match r {
            Some(j) => j < keys.len() && keys@[j as int]@ == key@,
            None => !views(keys@).contains(key@),
        },
{
    let mut j: usize = 0;
    while j < keys.len()
        invariant
            j <= keys.len(),
            forall|l: int| 0 <= l < j ==> keys@[l]@ != key@,
        decreases keys.len() - j,
    {
        if str_eq(keys[j].as_str(), key) {
            return Some(j);
        }
        j += 1;
    }
    proof {
        if views(keys@).contains(key@) {
            let w = choose|w: int| 0 <= w < views(keys@).len() && views(keys@)[w] == key@;
            assert(keys@[w]@ == key@);
        }
    }
    None
}

/// The aggregated summary of steps.
pub fn format_steps_aggregated(steps: &Vec<DisplayStep>) -> (r: String)
    ensures
        r@ == steps_aggregated(step_views(steps@)),
{
    let ghost ss = step_views(steps@);
    let n = steps.len();
    if n == 0 {
        return String::new();
    }
    let mut keys: Vec<String> = Vec::new();
    let mut counts: Vec<usize> = Vec::new();
    let mut i: usize = 0;
    while i < n
        invariant
            i <= n == steps.len(),
            ss == step_views(steps@),
            views(keys@) == step_keys(ss.take(i as int)),
            counts.len() == keys.len(),
            forall|j: int| 0 <= j < keys.len() ==> #[trigger] counts@[j] as nat == key_count(ss.take(i as int), keys@[j]@),
            forall|j: int| 0 <= j < keys.len() ==> #[trigger] counts@[j] <= i,
            forall|a: int, b: int| 0 <= a < b < keys.len() ==> keys@[a]@ != keys@[b]@,
        decreases n - i,
    {
        let st = &steps[i];
        let key = if st.reason.as_str().is_empty() { String::from_str("step") } else { st.reason.clone() };
        proof {
            assert(ss[i as int] == st@);
            assert(key@ == reason_key(ss[i as int]));
            assert(ss.take(i + 1).drop_last() =~= ss.take(i as int));
            assert(ss.take(i + 1).last() == ss[i as int]);
        }
        let ghost k0 = views(keys@);
        let ghost c0 = counts@;
        proof {
            lemma_key_count_absent(ss.take(i as int), key@);
        }
        match position_of(&keys, key.as_str()) {
            Some(j) => {
                let c = counts[j];
                counts.set(j, c + 1);
                proof {
                    assert(k0[j as int] == key@);
                    assert(k0.contains(key@));
                    assert(views(keys@) =~= k0);
                    assert forall|l: int| 0 <= l < keys.len() implies #[trigger] counts@[l] as nat == key_count(ss.take(i + 1), keys@[l]@) by {
                        if l != j {
                            assert(keys@[l]@ != keys@[j as int]@);
                            assert(counts@[l] == c0[l]);
                        }
                    }
                }
            },
            None => {
                keys.push(key);
                counts.push(1);
                proof {
                    assert(views(keys@) =~= k0.push(key@));
                    assert forall|l: int| 0 <= l < keys.len() implies #[trigger] counts@[l] as nat == key_count(ss.take(i + 1), keys@[l]@) by {
                        if l < k0.len() {
                            assert(keys@[l]@ == k0[l]);
                            assert(k0[l] != key@);
                            assert(counts@[l] == c0[l]);
                        }
                    }
                    assert forall|a: int, b: int| 0 <= a < b < keys.len() implies keys@[a]@ != keys@[b]@ by {
                        if b == k0.len() {
                            assert(keys@[a]@ == k0[a]);
                        }
                    }
                }
            },
        }
        i += 1;
    }
    proof {
        assert(ss.take(n as int) =~= ss);
    }
    let mut parts: Vec<String> = Vec::new();
    let mut j: usize = 0;
    while j < keys.len()
        invariant
            j <= keys.len() == counts.len(),
            n == steps.len(),
            ss == step_views(steps@),
            forall|l: int| 0 <= l < keys.len() ==> #[trigger] counts@[l] as nat == key_count(ss, keys@[l]@),
            views(parts@) == views(keys@).take(j as int).map_values(|k: Seq<char>| aggregated_part(ss, k)),
        decreases keys.len() - j,
    {
        let part = if counts[j] == 1 {
            keys[j].clone()
        } else {
            let mut v: Vec<char> = Vec::new();
            push_nat_decimal(counts[j] as u64, &mut v);
            push_str(&mut v, "× ");
            push_str(&mut v, keys[j].as_str());
            string_of(v.as_slice())
        };
        let ghost p0 = views(parts@);
        parts.push(part);
        proof {
            assert(views(parts@) =~= p0.push(aggregated_part(ss, keys@[j as int]@)));
            assert(views(keys@).take(j + 1).map_values(|k: Seq<char>| aggregated_part(ss, k))
                =~= views(keys@).take(j as int).map_values(|k: Seq<char>| aggregated_part(ss, k)).push(aggregated_part(ss, keys@[j as int]@)));
        }
        j += 1;
    }
    proof {
        assert(views(keys@).take(keys.len() as int) =~= views(keys@));
    }
    let sorted = sort_string_vec(parts);
    let mut out: Vec<char> = Vec::new();
    if n == 1 {
        push_str(&mut out, "1 step: ");
    } else {
        push_nat_decimal(n as u64, &mut out);
        push_str(&mut out, " steps: ");
    }
    let joined = join_strings(&sorted, ", ");
    push_str(&mut out, joined.as_str());
    string_of(out.as_slice())
}

} // verus!
