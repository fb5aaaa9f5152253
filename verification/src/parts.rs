//! What the parts of a message offer for display: their text, attachments,
//! step results and tool calls.
use vstd::prelude::*;
use crate::secret::{is_sensitive_key, sensitive_key, ExtraMaskedMap};
use crate::text::{join, join_strings, truncate_display, truncated_display, views};
use crate::types::{FilePart, JsonValue, Part, PartInput, TokenUsage, ToolState};

verus! {

/// The message a part belongs to, when the part names one.
pub open spec fn part_message_id(p: Part) -> Option<Seq<char>> {
    let id = match p {
        Part::Text { message_id, .. } => message_id@,
        Part::Subtask { message_id, .. } => message_id@,
        Part::Reasoning { message_id, .. } => message_id@,
        Part::File(f) => f.message_id@,
        Part::StepStart { message_id, .. } => message_id@,
        Part::StepFinish { message_id, .. } => message_id@,
        Part::Tool { message_id, .. } => message_id@,
        Part::Snapshot { message_id, .. } => message_id@,
        Part::Patch { message_id, .. } => message_id@,
        Part::Agent { message_id, .. } => message_id@,
        Part::Retry { message_id, .. } => message_id@,
        Part::Compaction { message_id, .. } => message_id@,
        Part::Unknown => Seq::empty(),
    };
    if id.len() == 0 {
        None
    } else {
        Some(id)
    }
}

/// The displayable text of a part: the non-empty text of a text or reasoning part.
pub open spec fn part_text(p: Part) -> Option<Seq<char>> {
    match p {
        Part::Text { text, .. } if text@.len() != 0 => Some(text@),
        Part::Reasoning { text, .. } if text@.len() != 0 => Some(text@),
        _ => None,
    }
}

/// The text a tool input value shows: a string as itself, anything else as JSON.
pub open spec fn json_display(v: JsonValue) -> Seq<char> {
    match v.str_value {
        Some(s) => s@,
        None => v.json@,
    }
}

/// The keys a tool input summary looks for, in the order it shows them.
pub open spec fn summary_keys() -> Seq<Seq<char>> {
    seq!["path"@, "offset"@, "limit"@, "command"@, "arguments"@, "name"@]
}

/// The summary piece for one key: `key=<REDACTED>` for a sensitive key,
/// `key=value` (the value trimmed and cut to 60) for a non-empty value, nothing else.
pub open spec fn key_piece(input: ExtraMaskedMap<JsonValue>, k: Seq<char>) -> Option<Seq<char>> {
    if !input@.contains_key(k) {
        None
    } else if sensitive_key(k) {
        Some(k + "=<REDACTED>"@)
    } else if json_display(input@[k]).len() == 0 {
        None
    } else {
        Some(k + "="@ + truncated_display(json_display(input@[k]), 60))
    }
}

/// The pieces for the first `n` summary keys.
pub open spec fn key_pieces(input: ExtraMaskedMap<JsonValue>, n: nat) -> Seq<Seq<char>>
    decreases n,
{
    if n == 0 {
        Seq::empty()
    } else {
        let prev = key_pieces(input, (n - 1) as nat);
        match key_piece(input, summary_keys()[n - 1]) {
            Some(p) => prev.push(p),
            None => prev,
        }
    }
}

/// A hexadecimal digit, in lower case.
pub open spec fn hex_digit(n: int) -> char {
    if n < 10 { (48 + n) as char } else { (87 + n) as char }
}

/// How serde_json writes one character inside a JSON string: a quote and a
/// backslash escaped by a backslash, backspace, tab, line feed, form feed and
/// carriage return as `\b \t \n \f \r`, the other characters below 0x20 as
/// `\u00` and two hexadecimal digits, and every other character as itself.
pub open spec fn json_escaped_char(c: char) -> Seq<char> {
    let u = c as u32;
    if u == 34 {
        seq!['\\', '"']
    } else if u == 92 {
        seq!['\\', '\\']
    } else if u == 8 {
        seq!['\\', 'b']
    } else if u == 9 {
        seq!['\\', 't']
    } else if u == 10 {
        seq!['\\', 'n']
    } else if u == 12 {
        seq!['\\', 'f']
    } else if u == 13 {
        seq!['\\', 'r']
    } else if u < 32 {
        seq!['\\', 'u', '0', '0', hex_digit((u / 16) as int), hex_digit((u % 16) as int)]
    } else {
        seq![c]
    }
}

/// The characters of a string escaped as inside a JSON string.
pub open spec fn json_escaped(s: Seq<char>) -> Seq<char>
    decreases s.len(),
{
    if s.len() == 0 {
        Seq::empty()
    } else {
        json_escaped(s.drop_last()) + json_escaped_char(s.last())
    }
}

/// The JSON text of a string, as serde_json writes it: quoted, with its
/// characters escaped. Opaque: `reveal(json_string_literal)` where its
/// definition is needed.
#[verifier::opaque]
pub open spec fn json_string_literal(s: Seq<char>) -> Seq<char> {
    seq!['"'] + json_escaped(s) + seq!['"']
}

/// serde_json's `to_string` on a string slice: the quoted, escaped JSON string
/// (serde_json's `ESCAPE` table and `write_char_escape`). Serializing a string
/// does not fail.
#[verifier::external_body]
fn json_quote(s: &str) -> (r: String)
    ensures
        r@ == json_string_literal(s@),
{
    serde_json::to_string(s).unwrap_or_default()
}

/// One member of the masked JSON object: the key, a colon, and the value's JSON
/// (a sensitive key's value replaced by the string "<REDACTED>").
pub open spec fn masked_member(k: Seq<char>, v: JsonValue) -> Seq<char> {
    json_string_literal(k) + ":"@ + if sensitive_key(k) {
        json_string_literal("<REDACTED>"@)
    } else {
        v.json@
    }
}

/// The members of the masked JSON object, in entry order.
pub open spec fn masked_members(input: ExtraMaskedMap<JsonValue>) -> Seq<Seq<char>> {
    Seq::new(input.key_seq().len(), |i: int| masked_member(input.key_seq()[i], input.val_seq()[i]))
}

/// The compact JSON object of the input with sensitive values masked.
pub open spec fn masked_json(input: ExtraMaskedMap<JsonValue>) -> Seq<char> {
    "{"@ + join(masked_members(input), ","@) + "}"@
}

/// A one-line summary of a tool call's input: the interesting keys as
/// `key=value` separated by spaces, or, when none of them has a value, the input
/// as a JSON object with sensitive values masked, cut to 80.
pub open spec fn tool_input_summary(input: ExtraMaskedMap<JsonValue>) -> Seq<char> {
    if input.key_seq().len() == 0 {
        Seq::empty()
    } else {
        let pieces = key_pieces(input, 6);
        if pieces.len() == 0 {
            truncated_display(masked_json(input), 80)
        } else {
            join(pieces, " "@)
        }
    }
}

/// The summary of a tool input tells nothing of the values of sensitive keys:
/// two inputs with the same keys in the same order, and the same values under
/// every key that is not sensitive, are summed up alike; an input without keys
/// is summed up as nothing.
pub proof fn law_tool_summary_hides_secrets(m1: ExtraMaskedMap<JsonValue>, m2: ExtraMaskedMap<JsonValue>)
    requires
        m1.key_seq() == m2.key_seq(),
        m1.val_seq().len() == m1.key_seq().len(),
        m2.val_seq().len() == m2.key_seq().len(),
        forall|i: int| 0 <= i < m1.key_seq().len() && !sensitive_key(m1.key_seq()[i]) ==> m1.val_seq()[i] == m2.val_seq()[i],
    ensures
        tool_input_summary(m1) == tool_input_summary(m2),
        m1.key_seq().len() == 0 ==> tool_input_summary(m1) == Seq::<char>::empty(),
{
    m1.lemma_view_from_entries();
    m2.lemma_view_from_entries();
    assert forall|k: Seq<char>| key_piece(m1, k) == key_piece(m2, k) by {
        if m1.key_seq().contains(k) && !sensitive_key(k) {
            let i = m1.key_seq().index_of(k);
            assert(m1.val_seq()[i] == m2.val_seq()[i]);
        }
    }
    lemma_key_pieces_agree(m1, m2, 6);
    assert(masked_members(m1) =~= masked_members(m2)) by {
        assert forall|i: int| 0 <= i < m1.key_seq().len() implies masked_members(m1)[i] == masked_members(m2)[i] by {
            if !sensitive_key(m1.key_seq()[i]) {
                assert(m1.val_seq()[i] == m2.val_seq()[i]);
            }
        }
    }
}

proof fn lemma_key_pieces_agree(m1: ExtraMaskedMap<JsonValue>, m2: ExtraMaskedMap<JsonValue>, n: nat)
    requires
        forall|k: Seq<char>| key_piece(m1, k) == key_piece(m2, k),
    ensures
        key_pieces(m1, n) == key_pieces(m2, n),
    decreases n,
{
    if n > 0 {
        lemma_key_pieces_agree(m1, m2, (n - 1) as nat);
        assert(key_piece(m1, summary_keys()[n - 1]) == key_piece(m2, summary_keys()[n - 1]));
    }
}

fn json_display_of(v: &JsonValue) -> (r: &str)
    ensures
        r@ == json_display(*v),
{
    match &v.str_value {
        Some(s) => s.as_str(),
        None => v.json.as_str(),
    }
}

fn summary_key(i: usize) -> (k: &'static str)
    requires
        i < 6,
    ensures
        k@ == summary_keys()[i as int],
{
    match i {
        0 => "path",
        1 => "offset",
        2 => "limit",
        3 => "command",
        4 => "arguments",
        _ => "name",
    }
}

fn masked_object(input: &ExtraMaskedMap<JsonValue>) -> (r: String)
    ensures
        r@ == masked_json(*input),
{
    let n = input.len();
    let mut members: Vec<String> = Vec::new();
    let mut i: usize = 0;
    while i < n
        invariant
            i <= n == input.key_seq().len() == input.val_seq().len(),
            views(members@) == masked_members(*input).take(i as int),
        decreases n - i,
    {
        let k = input.key_at(i);
        let v = input.value_at(i);
        let mut m = json_quote(k.as_str());
        m.append(":");
        if is_sensitive_key(k.as_str()) {
            let red = json_quote("<REDACTED>");
            m.append(red.as_str());
        } else {
            m.append(v.json.as_str());
        }
        assert(m@ == masked_member(k@, *v));
        let ghost prev = views(members@);
        let ghost mv = m@;
        members.push(m);
        proof {
            assert(views(members@) =~= prev.push(mv));
            assert(masked_members(*input)[i as int] == masked_member(input.key_seq()[i as int], input.val_seq()[i as int]));
            assert(views(members@).last() == m@);
            assert(views(members@) =~= masked_members(*input).take(i + 1));
        }
        i += 1;
    }
    assert(masked_members(*input).take(n as int) =~= masked_members(*input));
    let body = join_strings(&members, ",");
    let mut r = String::from_str("{");
    r.append(body.as_str());
    r.append("}");
    r
}

/// Summarizes the input of a tool call for display.
pub fn summarize_tool_input(input: &ExtraMaskedMap<JsonValue>) -> (r: String)
    ensures
        r@ == tool_input_summary(*input),
{
    if input.is_empty() {
        return String::new();
    }
    let mut parts: Vec<String> = Vec::new();
    let mut i: usize = 0;
    while i < 6
        invariant
            i <= 6,
            views(parts@) == key_pieces(*input, i as nat),
        decreases 6 - i,
    {
        let k = summary_key(i);
        match input.get(k) {
            Some(v) => {
                if is_sensitive_key(k) {
                    let mut p = String::from_str(k);
                    p.append("=<REDACTED>");
                    parts.push(p);
                } else {
                    let s = json_display_of(v);
                    if !s.is_empty() {
                        let mut p = String::from_str(k);
                        p.append("=");
                        let t = truncate_display(s, 60);
                        p.append(t.as_str());
                        parts.push(p);
                    }
                }
            },
            None => {},
        }
        proof {
            assert(views(parts@) =~= key_pieces(*input, (i + 1) as nat));
        }
        i += 1;
    }
    if parts.len() == 0 {
        let single = masked_object(input);
        truncate_display(single.as_str(), 80)
    } else {
        join_strings(&parts, " ")
    }
}

impl ToolState {
    /// The input of the tool call, whatever its state.
    pub open spec fn spec_input(self) -> ExtraMaskedMap<JsonValue> {
        match self {
            ToolState::Pending { input, .. } => input,
            ToolState::Running { input, .. } => input,
            ToolState::Completed { input, .. } => input,
            ToolState::Error { input, .. } => input,
        }
    }

    /// The result line of the tool call: "(pending)", "(running)", the output cut
    /// to 200, or "Error: " and the error cut to 200.
    pub open spec fn result_text(self) -> Seq<char> {
        match self {
            ToolState::Pending { .. } => "(pending)"@,
            ToolState::Running { .. } => "(running)"@,
            ToolState::Completed { output, .. } => truncated_display(output@, 200),
            ToolState::Error { error, .. } => "Error: "@ + truncated_display(error@, 200),
        }
    }

    pub fn input(&self) -> (r: &ExtraMaskedMap<JsonValue>)
        ensures
            *r == self.spec_input(),
    {
        match self {
            ToolState::Pending { input, .. } => input,
            ToolState::Running { input, .. } => input,
            ToolState::Completed { input, .. } => input,
            ToolState::Error { input, .. } => input,
        }
    }

    pub fn output_or_error(&self) -> (r: String)
        ensures
            r@ == self.result_text(),
    {
        match self {
            ToolState::Pending { .. } => String::from_str("(pending)"),
            ToolState::Running { .. } => String::from_str("(running)"),
            ToolState::Completed { output, .. } => truncate_display(output.as_str(), 200),
            ToolState::Error { error, .. } => {
                let mut r = String::from_str("Error: ");
                r.append(truncate_display(error.as_str(), 200).as_str());
                r
            },
        }
    }
}

impl Part {
    /// Extract displayable text content, if any.
    pub fn text_content(&self) -> (r: Option<&str>)
        ensures
            match r {
                Some(t) => part_text(*self) == Some(t@),
                None => part_text(*self) is None,
            },
    {
        match self {
            Part::Text { text, .. } => if !text.as_str().is_empty() {
                Some(text.as_str())
            } else {
                None
            },
            Part::Reasoning { text, .. } => if !text.as_str().is_empty() {
                Some(text.as_str())
            } else {
                None
            },
            _ => None,
        }
    }

    /// Get file attachment info (mime type, file name, url), if this is a file part.
    pub fn file_info(&self) -> (r: Option<(&str, Option<&str>, &str)>)
        ensures
            match *self {
                Part::File(f) => (r matches Some(t) && t.0@ == f.mime@ && t.2@ == f.url@ && match f.filename {
                    Some(n) => (t.1 matches Some(m) && m@ == n@),
                    None => t.1 is None,
                }),
                _ => r is None,
            },
    {
        match self {
            Part::File(file) => {
                let name = match &file.filename {
                    Some(n) => Some(n.as_str()),
                    None => None,
                };
                Some((file.mime.as_str(), name, file.url.as_str()))
            },
            _ => None,
        }
    }

    /// Get the message ID this part belongs to, if available.
    pub fn message_id(&self) -> (r: Option<&str>)
        ensures
            match r {
                Some(m) => part_message_id(*self) == Some(m@),
                None => part_message_id(*self) is None,
            },
    {
        let id: &str = match self {
            Part::Text { message_id, .. } => message_id.as_str(),
            Part::Subtask { message_id, .. } => message_id.as_str(),
            Part::Reasoning { message_id, .. } => message_id.as_str(),
            Part::File(file) => file.message_id.as_str(),
            Part::StepStart { message_id, .. } => message_id.as_str(),
            Part::StepFinish { message_id, .. } => message_id.as_str(),
            Part::Tool { message_id, .. } => message_id.as_str(),
            Part::Snapshot { message_id, .. } => message_id.as_str(),
            Part::Patch { message_id, .. } => message_id.as_str(),
            Part::Agent { message_id, .. } => message_id.as_str(),
            Part::Retry { message_id, .. } => message_id.as_str(),
            Part::Compaction { message_id, .. } => message_id.as_str(),
            Part::Unknown => "",
        };
        proof {
            if *self is Unknown {
                reveal_strlit("");
            }
        }
        if id.is_empty() {
            None
        } else {
            Some(id)
        }
    }

    /// If this is a step-finish part: its reason, the bits of its cost and its tokens.
    pub fn step_finish_info(&self) -> (r: Option<(&str, u64, Option<&TokenUsage>)>)
        ensures
            match *self {
                Part::StepFinish { reason, cost, tokens, .. } => (r matches Some(t) && t.0@ == reason@
                    && t.1 == cost && match tokens {
                    Some(tk) => t.2 == Some(&tk),
                    None => t.2 is None,
                }),
                _ => r is None,
            },
    {
        match self {
            Part::StepFinish { reason, cost, tokens, .. } => {
                let t = match tokens {
                    Some(tk) => Some(tk),
                    None => None,
                };
                Some((reason.as_str(), *cost, t))
            },
            _ => None,
        }
    }

    /// If this is a tool part: the tool's name, a summary of its input, and its result
    /// (the output, or "Error: " and the error).
    pub fn tool_display(&self) -> (r: Option<(String, String, String)>)
        ensures
            match *self {
                Part::Tool { tool, state, .. } => (r matches Some(t) && t.0@ == tool@ && t.1@
                    == tool_input_summary(state.spec_input()) && t.2@ == state.result_text()),
                _ => r is None,
            },
    {
        match self {
            Part::Tool { tool, state, .. } => {
                let input_summary = summarize_tool_input(state.input());
                let result = state.output_or_error();
                Some((tool.clone(), input_summary, result))
            },
            _ => None,
        }
    }
}

impl PartInput {
    /// A text part with nothing but its text.
    pub fn text(text: String) -> (r: Self)
        ensures
            r matches PartInput::Text { id, text: t, synthetic, ignored, time, metadata } && id is None
                && t == text && synthetic is None && ignored is None && time is None && metadata is None,
    {
        PartInput::Text { id: None, text, synthetic: None, ignored: None, time: None, metadata: None }
    }

    /// A file part with its mime type and url.
    pub fn file(mime: String, url: String) -> (r: Self)
        ensures
            r matches PartInput::File { id, mime: m, filename, url: u, source } && id is None && m
                == mime && filename is None && u == url && source is None,
    {
        PartInput::File { id: None, mime, filename: None, url, source: None }
    }

    /// A file part with its mime type, file name and url.
    pub fn file_with_filename(mime: String, filename: String, url: String) -> (r: Self)
        ensures
            r matches PartInput::File { id, mime: m, filename: f, url: u, source } && id is None && m
                == mime && f == Some(filename) && u == url && source is None,
    {
        PartInput::File { id: None, mime, filename: Some(filename), url, source: None }
    }
}

} // verus!
