//! What the message list shows: each message's text and its steps (tool calls
//! and their results), built from the messages and their parts.
use vstd::prelude::*;
use crate::formatters::{assistant_error_text, format_assistant_error, now_millis};
use crate::parts::{part_text, tool_input_summary};
use crate::text::{chars_of, has_prefix, join, join_strings, push_str, starts_with, str_eq, string_of, views};
use crate::types::{FileDiff, Message, MessageWithParts, Part, TokenUsage};

verus! {

/// One tool call within a step: the tool, a summary of its input, its result.
pub struct StepDetail {
    pub tool: String,
    pub input_summary: String,
    pub result: String,
    /// Whether the tool call is still running.
    pub is_running: bool,
}

/// A tool call as plain values.
pub struct DetailView {
    pub tool: Seq<char>,
    pub input_summary: Seq<char>,
    pub result: Seq<char>,
    pub is_running: bool,
}

impl View for StepDetail {
    type V = DetailView;

    open spec fn view(&self) -> DetailView {
        DetailView {
            tool: self.tool@,
            input_summary: self.input_summary@,
            result: self.result@,
            is_running: self.is_running,
        }
    }
}

/// A step of an assistant message, from step-start, step-finish and tool parts.
pub struct DisplayStep {
    pub reason: String,
    /// Bits of the step's cost.
    pub cost: u64,
    pub tokens: Option<TokenUsage>,
    /// The tool calls of the step.
    pub details: Vec<StepDetail>,
    /// Whether the step's details are unfolded.
    pub expanded: bool,
    /// Whether a tool call of the step failed.
    pub has_error: bool,
    /// Whether a tool call of the step is still running.
    pub has_running: bool,
}

/// A step as plain values.
pub struct StepView {
    pub reason: Seq<char>,
    pub cost: u64,
    pub tokens: Option<TokenUsage>,
    pub details: Seq<DetailView>,
    pub expanded: bool,
    pub has_error: bool,
    pub has_running: bool,
}

/// The views of a list of tool calls.
pub open spec fn detail_views(ds: Seq<StepDetail>) -> Seq<DetailView> {
    ds.map_values(|d: StepDetail| d@)
}

impl View for DisplayStep {
    type V = StepView;

    open spec fn view(&self) -> StepView {
        StepView {
            reason: self.reason@,
            cost: self.cost,
            tokens: self.tokens,
            details: detail_views(self.details@),
            expanded: self.expanded,
            has_error: self.has_error,
            has_running: self.has_running,
        }
    }
}

/// The views of a list of steps.
pub open spec fn step_views(ss: Seq<DisplayStep>) -> Seq<StepView> {
    ss.map_values(|s: DisplayStep| s@)
}

/// A message as the list shows it.
pub struct DisplayMessage {
    pub role: String,
    pub text: String,
    pub message_id: Option<String>,
    /// Milliseconds since the Unix epoch.
    pub timestamp: Option<i64>,
    pub model_id: Option<String>,
    pub tokens: Option<TokenUsage>,
    /// Bits of the message's cost.
    pub cost: Option<u64>,
    pub error_text: Option<String>,
    pub is_error: bool,
    pub diffs: Vec<FileDiff>,
    pub show_diffs: bool,
    pub steps: Vec<DisplayStep>,
    /// Whether the steps are unfolded.
    pub show_steps: bool,
    /// Milliseconds from creation to completion.
    pub duration_ms: Option<i64>,
}

/// A shown message as plain values.
pub struct MessageView {
    pub role: Seq<char>,
    pub text: Seq<char>,
    pub message_id: Option<Seq<char>>,
    pub timestamp: Option<i64>,
    pub model_id: Option<Seq<char>>,
    pub tokens: Option<TokenUsage>,
    pub cost: Option<u64>,
    pub error_text: Option<Seq<char>>,
    pub is_error: bool,
    pub diffs: Seq<FileDiff>,
    pub show_diffs: bool,
    pub steps: Seq<StepView>,
    pub show_steps: bool,
    pub duration_ms: Option<i64>,
}

/// The view of an optional string.
pub open spec fn opt_view(s: Option<String>) -> Option<Seq<char>> {
    match s {
        Some(x) => Some(x@),
        None => None,
    }
}

impl View for DisplayMessage {
    type V = MessageView;

    open spec fn view(&self) -> MessageView {
        MessageView {
            role: self.role@,
            text: self.text@,
            message_id: opt_view(self.message_id),
            timestamp: self.timestamp,
            model_id: opt_view(self.model_id),
            tokens: self.tokens,
            cost: self.cost,
            error_text: opt_view(self.error_text),
            is_error: self.is_error,
            diffs: self.diffs@,
            show_diffs: self.show_diffs,
            steps: step_views(self.steps@),
            show_steps: self.show_steps,
            duration_ms: self.duration_ms,
        }
    }
}

/// The views of a list of shown messages.
pub open spec fn message_views(ms: Seq<DisplayMessage>) -> Seq<MessageView> {
    ms.map_values(|m: DisplayMessage| m@)
}

/// "[Attachment: name]", with "attachment" for a file without a name.
pub open spec fn attachment_label(name: Option<Seq<char>>) -> Seq<char> {
    "[Attachment: "@ + (match name {
        Some(n) => n,
        None => "attachment"@,
    }) + "]"@
}

/// Whether a tool result says that the call has not finished.
pub open spec fn result_running(result: Seq<char>) -> bool {
    result == "(running)"@ || result == "(pending)"@
}

/// A step with the given fields, folded and without tool calls unless given.
pub open spec fn fresh_step(
    reason: Seq<char>,
    cost: u64,
    tokens: Option<TokenUsage>,
    details: Seq<DetailView>,
    has_error: bool,
    has_running: bool,
) -> StepView {
    StepView { reason, cost, tokens, details, expanded: false, has_error, has_running }
}

/// The texts and steps read so far, after one more part.
pub open spec fn digest_part(texts: Seq<Seq<char>>, steps: Seq<StepView>, p: Part) -> (Seq<Seq<char>>, Seq<StepView>) {
    match part_text(p) {
        Some(t) => (texts.push(t), steps),
        None => match p {
            Part::File(f) => (texts.push(attachment_label(opt_view(f.filename))), steps),
            Part::StepStart { .. } => (texts, steps.push(fresh_step(Seq::empty(), 0, None, Seq::empty(), false, false))),
            Part::Tool { tool, state, .. } => {
                let result = state.result_text();
                let detail = DetailView {
                    tool: tool@,
                    input_summary: tool_input_summary(state.spec_input()),
                    result,
                    is_running: result_running(result),
                };
                let has_error = starts_with(result, "Error"@);
                if steps.len() > 0 {
                    let last = steps.last();
                    (texts, steps.update(steps.len() - 1, StepView {
                        details: last.details.push(detail),
                        has_error: last.has_error || has_error,
                        has_running: last.has_running || result_running(result),
                        ..last
                    }))
                } else {
                    (texts, steps.push(fresh_step(Seq::empty(), 0, None, seq![detail], has_error, result_running(result))))
                }
            },
            Part::StepFinish { reason, cost, tokens, .. } => {
                if steps.len() > 0 {
                    let last = steps.last();
                    (texts, steps.update(steps.len() - 1, StepView {
                        reason: reason@,
                        cost,
                        tokens,
                        has_running: false,
                        ..last
                    }))
                } else {
                    (texts, steps.push(fresh_step(reason@, cost, tokens, Seq::empty(), false, false)))
                }
            },
            _ => (texts, steps),
        },
    }
}

/// The texts and the steps that the parts of a message give, in order.
pub open spec fn digest_parts(ps: Seq<Part>) -> (Seq<Seq<char>>, Seq<StepView>)
    decreases ps.len(),
{
    if ps.len() == 0 {
        (Seq::empty(), Seq::empty())
    } else {
        let (texts, steps) = digest_parts(ps.drop_last());
        digest_part(texts, steps, ps.last())
    }
}

/// "[Attachment: name]" for a file part.
fn attachment_text(name: Option<&str>) -> (r: String)
    ensures
        r@ == attachment_label(match name {
            Some(n) => Some(n@),
            None => None,
        }),
{
    let mut v: Vec<char> = Vec::new();
    push_str(&mut v, "[Attachment: ");
    match name {
        Some(n) => push_str(&mut v, n),
        None => push_str(&mut v, "attachment"),
    }
    push_str(&mut v, "]");
    string_of(v.as_slice())
}

/// Reads the texts and the steps of a message's parts.
fn digest_message_parts(parts: &Vec<Part>) -> (r: (Vec<String>, Vec<DisplayStep>))
    ensures
        (views(r.0@), step_views(r.1@)) == digest_parts(parts@),
{
    let mut texts: Vec<String> = Vec::new();
    let mut steps: Vec<DisplayStep> = Vec::new();
    let mut k: usize = 0;
    let error_prefix = chars_of("Error");
    while k < parts.len()
        invariant
            k <= parts.len(),
            error_prefix@ == "Error"@,
            (views(texts@), step_views(steps@)) == digest_parts(parts@.take(k as int)),
        decreases parts.len() - k,
    {
        let p = &parts[k];
        let ghost t0 = views(texts@);
        let ghost s0 = step_views(steps@);
        proof {
            assert(parts@.take(k + 1).drop_last() =~= parts@.take(k as int));
            assert(parts@.take(k + 1).last() == *p);
        }
        match p.text_content() {
            Some(t) => {
                texts.push(String::from_str(t));
                proof {
                    assert(views(texts@) =~= t0.push(t@));
                }
            },
            None => {
                match p.file_info() {
                    Some((_mime, filename, _url)) => {
                        texts.push(attachment_text(filename));
                        proof {
                            assert(views(texts@) =~= t0.push(views(texts@).last()));
                        }
                    },
                    None => {
                        match p {
                            Part::StepStart { .. } => {
                                steps.push(DisplayStep {
                                    reason: String::new(),
                                    cost: 0,
                                    tokens: None,
                                    details: Vec::new(),
                                    expanded: false,
                                    has_error: false,
                                    has_running: false,
                                });
                                proof {
                                    assert(step_views(steps@) =~= s0.push(steps@.last()@));
                                    assert(steps@.last()@.reason =~= Seq::<char>::empty());
                                    assert(steps@.last()@.details =~= Seq::<DetailView>::empty());
                                }
                            },
                            _ => {
                                match p.tool_display() {
                                    Some((tool, input_summary, result)) => {
                                        let has_error = has_prefix(&chars_of(result.as_str()), &error_prefix);
                                        let is_running = str_eq(result.as_str(), "(running)") || str_eq(result.as_str(), "(pending)");
                                        let detail = StepDetail { tool, input_summary, result, is_running };
                                        if steps.len() > 0 {
                                            let mut last = steps.pop().unwrap();
                                            let ghost l0 = last@;
                                            last.details.push(detail);
                                            if has_error {
                                                last.has_error = true;
                                            }
                                            if is_running {
                                                last.has_running = true;
                                            }
                                            steps.push(last);
                                            proof {
                                                assert(detail_views(last.details@) =~= l0.details.push(detail@));
                                                assert(step_views(steps@) =~= s0.update(s0.len() - 1, steps@.last()@));
                                            }
                                        } else {
                                            let mut ds: Vec<StepDetail> = Vec::new();
                                            ds.push(detail);
                                            steps.push(DisplayStep {
                                                reason: String::new(),
                                                cost: 0,
                                                tokens: None,
                                                details: ds,
                                                expanded: false,
                                                has_error,
                                                has_running: is_running,
                                            });
                                            proof {
                                                assert(step_views(steps@) =~= s0.push(steps@.last()@));
                                                assert(steps@.last()@.reason =~= Seq::<char>::empty());
                                                assert(detail_views(steps@.last().details@) =~= seq![detail@]);
                                            }
                                        }
                                    },
                                    None => {
                                        match p.step_finish_info() {
                                            Some((reason, cost, tokens)) => {
                                                let tk: Option<TokenUsage> = match tokens {
                                                    Some(t) => Some(*t),
                                                    None => None,
                                                };
                                                if steps.len() > 0 {
                                                    let mut last = steps.pop().unwrap();
                                                    last.reason = String::from_str(reason);
                                                    last.cost = cost;
                                                    last.tokens = tk;
                                                    last.has_running = false;
                                                    steps.push(last);
                                                    proof {
                                                        assert(step_views(steps@) =~= s0.update(s0.len() - 1, steps@.last()@));
                                                    }
                                                } else {
                                                    steps.push(DisplayStep {
                                                        reason: String::from_str(reason),
                                                        cost,
                                                        tokens: tk,
                                                        details: Vec::new(),
                                                        expanded: false,
                                                        has_error: false,
                                                        has_running: false,
                                                    });
                                                    proof {
                                                        assert(step_views(steps@) =~= s0.push(steps@.last()@));
                                                        assert(steps@.last()@.details =~= Seq::<DetailView>::empty());
                                                    }
                                                }
                                            },
                                            None => {},
                                        }
                                    },
                                }
                            },
                        }
                    },
                }
            },
        }
        k += 1;
    }
    proof {
        assert(parts@.take(parts.len() as int) =~= parts@);
    }
    (texts, steps)
}

/// The role shown for a message.
pub open spec fn message_role(m: Message) -> Seq<char> {
    match m {
        Message::User(_) => "user"@,
        Message::Assistant(_) => "assistant"@,
    }
}

/// When a message was created.
pub open spec fn message_created(m: Message) -> i64 {
    match m {
        Message::User(u) => u.time.created,
        Message::Assistant(a) => a.time.created,
    }
}

/// The model of an assistant reply, when it names one.
pub open spec fn message_model(m: Message) -> Option<Seq<char>> {
    match m {
        Message::Assistant(a) => if a.model_id@.len() > 0 { Some(a.model_id@) } else { None },
        Message::User(_) => None,
    }
}

/// The tokens an assistant reply used.
pub open spec fn message_tokens(m: Message) -> Option<TokenUsage> {
    match m {
        Message::Assistant(a) => a.tokens,
        Message::User(_) => None,
    }
}

/// The bits of an assistant reply's cost.
pub open spec fn message_cost(m: Message) -> Option<u64> {
    match m {
        Message::Assistant(a) => Some(a.cost),
        Message::User(_) => None,
    }
}

/// The text of an assistant reply's error.
pub open spec fn message_error_text(m: Message) -> Option<Seq<char>> {
    match m {
        Message::Assistant(a) => match a.error {
            Some(e) => Some(assistant_error_text(e)),
            None => None,
        },
        Message::User(_) => None,
    }
}

/// How long a completed assistant reply took, unless that is negative.
pub open spec fn message_duration(m: Message) -> Option<i64> {
    match m {
        Message::Assistant(a) => match a.time.completed {
            Some(c) => if c - a.time.created >= 0 { Some((c - a.time.created) as i64) } else { None },
            None => None,
        },
        Message::User(_) => None,
    }
}

/// Whether the time a completed assistant reply took fits in an `i64`.
pub open spec fn duration_fits(m: Message) -> bool {
    m matches Message::Assistant(a) ==> (a.time.completed matches Some(c) ==> i64::MIN <= c - a.time.created <= i64::MAX)
}

/// The text shown for a message: its text parts and attachments, one per line,
/// or "Assistant error" for a reply with an error and no text.
pub open spec fn message_text(mwp: MessageWithParts) -> Seq<char> {
    let t = join(digest_parts(mwp.parts@).0, "\n"@);
    if t.len() == 0 && message_error_text(mwp.info) is Some {
        "Assistant error"@
    } else {
        t
    }
}

/// The first of two optional values that is there.
pub open spec fn first_some<T>(a: Option<T>, b: Option<T>) -> Option<T> {
    match a {
        Some(x) => Some(x),
        None => b,
    }
}

/// What is known while the list is built: the messages shown so far, the file
/// changes of the last user message that the next reply will show, and a reply
/// made of steps alone that waits to be merged with the next one.
pub struct RebuildState {
    pub display: Seq<MessageView>,
    pub pending_diffs: Option<Seq<FileDiff>>,
    pub pending_steps: Option<MessageView>,
}

/// The state after one more message.
pub open spec fn rebuild_step(st: RebuildState, mwp: MessageWithParts) -> RebuildState {
    let m = mwp.info;
    let steps = digest_parts(mwp.parts@).1;
    let text = message_text(mwp);
    let assistant = m is Assistant;
    if !(text.len() > 0 || (assistant && steps.len() > 0)) {
        st
    } else {
        let pending_diffs = match m {
            Message::User(u) => match u.summary {
                Some(sm) => if sm.diffs@.len() > 0 { Some(sm.diffs@) } else { st.pending_diffs },
                None => st.pending_diffs,
            },
            Message::Assistant(_) => None,
        };
        let diffs = match m {
            Message::User(_) => Seq::empty(),
            Message::Assistant(_) => match st.pending_diffs {
                Some(d) => d,
                None => Seq::empty(),
            },
        };
        let base = MessageView {
            role: message_role(m),
            text,
            message_id: Some(m.spec_id()),
            timestamp: Some(message_created(m)),
            model_id: message_model(m),
            tokens: message_tokens(m),
            cost: message_cost(m),
            error_text: message_error_text(m),
            is_error: message_error_text(m) is Some,
            diffs,
            show_diffs: false,
            steps,
            show_steps: false,
            duration_ms: message_duration(m),
        };
        if assistant && text.len() == 0 && steps.len() > 0 && !base.is_error {
            match st.pending_steps {
                Some(pm) => RebuildState {
                    display: st.display,
                    pending_diffs,
                    pending_steps: Some(MessageView {
                        steps: pm.steps + steps,
                        duration_ms: first_some(pm.duration_ms, base.duration_ms),
                        ..pm
                    }),
                },
                None => RebuildState {
                    display: st.display,
                    pending_diffs,
                    pending_steps: Some(MessageView { diffs: Seq::empty(), ..base }),
                },
            }
        } else if assistant && text.len() > 0 && st.pending_steps is Some {
            let pm = st.pending_steps.unwrap();
            RebuildState {
                display: st.display.push(MessageView {
                    steps: pm.steps + steps,
                    duration_ms: first_some(base.duration_ms, pm.duration_ms),
                    ..base
                }),
                pending_diffs,
                pending_steps: None,
            }
        } else {
            let shown = match st.pending_steps {
                Some(pm) => st.display.push(pm),
                None => st.display,
            };
            RebuildState {
                display: shown.push(MessageView { show_steps: assistant && text.len() == 0 && steps.len() > 0, ..base }),
                pending_diffs,
                pending_steps: None,
            }
        }
    }
}

/// The state after a list of messages.
pub open spec fn rebuild_fold(ms: Seq<MessageWithParts>) -> RebuildState
    decreases ms.len(),
{
    if ms.len() == 0 {
        RebuildState { display: Seq::empty(), pending_diffs: None, pending_steps: None }
    } else {
        rebuild_step(rebuild_fold(ms.drop_last()), ms.last())
    }
}

/// The messages shown for a list of messages with their parts: messages with
/// nothing to show are left out; a reply made of steps alone is merged with the
/// replies of steps alone that follow it and with the next reply that has text;
/// a reply shows the file changes of the user message before it.
pub open spec fn rebuilt_messages(ms: Seq<MessageWithParts>) -> Seq<MessageView> {
    let st = rebuild_fold(ms);
    match st.pending_steps {
        Some(pm) => st.display.push(pm),
        None => st.display,
    }
}

/// The view of the exec state of the list being built.
pub open spec fn state_view(display: Seq<DisplayMessage>, pending_diffs: Option<Vec<FileDiff>>, pending_steps: Option<DisplayMessage>) -> RebuildState {
    RebuildState {
        display: message_views(display),
        pending_diffs: match pending_diffs {
            Some(v) => Some(v@),
            None => None,
        },
        pending_steps: match pending_steps {
            Some(m) => Some(m@),
            None => None,
        },
    }
}

/// A copy of a list of file changes.
pub(crate) fn clone_diffs(v: &Vec<FileDiff>) -> (r: Vec<FileDiff>)
    ensures
        r@ == v@,
{
    let mut r: Vec<FileDiff> = Vec::new();
    let mut k: usize = 0;
    while k < v.len()
        invariant
            k <= v.len(),
            r@ == v@.take(k as int),
        decreases v.len() - k,
    {
        r.push(v[k].clone());
        proof {
            assert(r@ =~= v@.take(k + 1));
        }
        k += 1;
    }
    proof {
        assert(v@.take(v.len() as int) =~= v@);
    }
    r
}

/// Adds what one message shows to the list being built.
fn absorb_message(
    display: &mut Vec<DisplayMessage>,
    pending_diffs: &mut Option<Vec<FileDiff>>,
    pending_steps: &mut Option<DisplayMessage>,
    mwp: &MessageWithParts,
)
    requires
        duration_fits(mwp.info),
    ensures
        state_view(final(display)@, *final(pending_diffs), *final(pending_steps)) == rebuild_step(
            state_view(old(display)@, *old(pending_diffs), *old(pending_steps)),
            *mwp,
        ),
{
    let ghost st = state_view(display@, *pending_diffs, *pending_steps);
    let (texts, steps) = digest_message_parts(&mwp.parts);
    let joined = join_strings(&texts, "\n");
    let error_text: Option<String> = match &mwp.info {
        Message::Assistant(a) => match &a.error {
            Some(e) => Some(format_assistant_error(e)),
            None => None,
        },
        Message::User(_) => None,
    };
    let text = if joined.as_str().is_empty() && error_text.is_some() {
        String::from_str("Assistant error")
    } else {
        joined
    };
    assert(text@ == message_text(*mwp));
    let assistant = match &mwp.info {
        Message::Assistant(_) => true,
        Message::User(_) => false,
    };
    if text.as_str().is_empty() && !(assistant && steps.len() > 0) {
        return;
    }
    let diffs: Vec<FileDiff> = match &mwp.info {
        Message::User(u) => {
            match &u.summary {
                Some(sm) => {
                    if sm.diffs.len() > 0 {
                        *pending_diffs = Some(clone_diffs(&sm.diffs));
                    }
                },
                None => {},
            }
            Vec::new()
        },
        Message::Assistant(_) => match pending_diffs.take() {
            Some(d) => d,
            None => Vec::new(),
        },
    };
    let role = if assistant { String::from_str("assistant") } else { String::from_str("user") };
    let (timestamp, model_id, tokens, cost, duration): (i64, Option<String>, Option<TokenUsage>, Option<u64>, Option<i64>) = match &mwp.info {
        Message::User(u) => (u.time.created, None, None, None, None),
        Message::Assistant(a) => {
            let model = if a.model_id.as_str().is_empty() { None } else { Some(a.model_id.clone()) };
            let duration = match a.time.completed {
                Some(c) => {
                    let d = c - a.time.created;
                    if d >= 0 { Some(d) } else { None }
                },
                None => None,
            };
            (a.time.created, model, a.tokens, Some(a.cost), duration)
        },
    };
    let is_error = error_text.is_some();
    let message_id = String::from_str(mwp.info.id());
    let ghost steps_v = step_views(steps@);
    if assistant && text.as_str().is_empty() && steps.len() > 0 && !is_error {
        match pending_steps.take() {
            Some(mut pm) => {
                let ghost pm0 = pm@;
                let mut more = steps;
                pm.steps.append(&mut more);
                pm.duration_ms = match pm.duration_ms {
                    Some(d) => Some(d),
                    None => duration,
                };
                proof {
                    assert(step_views(pm.steps@) =~= pm0.steps + steps_v);
                }
                *pending_steps = Some(pm);
            },
            None => {
                *pending_steps = Some(DisplayMessage {
                    role,
                    text,
                    message_id: Some(message_id),
                    timestamp: Some(timestamp),
                    model_id,
                    tokens,
                    cost,
                    error_text: None,
                    is_error: false,
                    diffs: Vec::new(),
                    show_diffs: false,
                    steps,
                    show_steps: false,
                    duration_ms: duration,
                });
            },
        }
        proof {
            let n = state_view(display@, *pending_diffs, *pending_steps);
            assert(n.pending_steps == rebuild_step(st, *mwp).pending_steps);
        }
        return;
    }
    if assistant && !text.as_str().is_empty() && pending_steps.is_some() {
        let mut pm = pending_steps.take().unwrap();
        let ghost pm0 = pm@;
        let mut more = steps;
        let mut merged = Vec::new();
        merged.append(&mut pm.steps);
        merged.append(&mut more);
        proof {
            assert(step_views(merged@) =~= pm0.steps + steps_v);
        }
        let merged_duration = match duration {
            Some(d) => Some(d),
            None => pm.duration_ms,
        };
        let ghost d0 = message_views(display@);
        display.push(DisplayMessage {
            role,
            text,
            message_id: Some(message_id),
            timestamp: Some(timestamp),
            model_id,
            tokens,
            cost,
            error_text,
            is_error,
            diffs,
            show_diffs: false,
            steps: merged,
            show_steps: false,
            duration_ms: merged_duration,
        });
        proof {
            assert(message_views(display@) =~= d0.push(display@.last()@));
            assert(display@.last()@ == rebuild_step(st, *mwp).display.last());
            assert(message_views(display@) =~= rebuild_step(st, *mwp).display);
        }
        return;
    }
    let ghost d0 = message_views(display@);
    match pending_steps.take() {
        Some(prev) => {
            display.push(prev);
        },
        None => {},
    }
    let ghost d1 = message_views(display@);
    proof {
        assert(d1 =~= match st.pending_steps {
            Some(pm) => d0.push(pm),
            None => d0,
        });
    }
    let show_steps = assistant && text.as_str().is_empty() && steps.len() > 0;
    display.push(DisplayMessage {
        role,
        text,
        message_id: Some(message_id),
        timestamp: Some(timestamp),
        model_id,
        tokens,
        cost,
        error_text,
        is_error,
        diffs,
        show_diffs: false,
        steps,
        show_steps,
        duration_ms: duration,
    });
    proof {
        assert(message_views(display@) =~= d1.push(display@.last()@));
        assert(display@.last()@ == rebuild_step(st, *mwp).display.last());
        assert(message_views(display@) =~= rebuild_step(st, *mwp).display);
    }
}

/// The messages to show for a list of messages with their parts.
pub fn rebuild_from_parts(messages_with_parts: &Vec<MessageWithParts>) -> (r: Vec<DisplayMessage>)
    requires
        forall|k: int| 0 <= k < messages_with_parts@.len() ==> duration_fits(#[trigger] messages_with_parts@[k].info),
    ensures
        message_views(r@) == rebuilt_messages(messages_with_parts@),
{
    let mut display: Vec<DisplayMessage> = Vec::new();
    let mut pending_diffs: Option<Vec<FileDiff>> = None;
    let mut pending_steps: Option<DisplayMessage> = None;
    let mut k: usize = 0;
    proof {
        assert(messages_with_parts@.take(0) =~= Seq::<MessageWithParts>::empty());
        assert(message_views(display@) =~= Seq::<MessageView>::empty());
    }
    while k < messages_with_parts.len()
        invariant
            k <= messages_with_parts.len(),
            forall|j: int| 0 <= j < messages_with_parts@.len() ==> duration_fits(#[trigger] messages_with_parts@[j].info),
            state_view(display@, pending_diffs, pending_steps) == rebuild_fold(messages_with_parts@.take(k as int)),
        decreases messages_with_parts.len() - k,
    {
        proof {
            assert(messages_with_parts@.take(k + 1).drop_last() =~= messages_with_parts@.take(k as int));
            assert(messages_with_parts@.take(k + 1).last() == messages_with_parts@[k as int]);
        }
        absorb_message(&mut display, &mut pending_diffs, &mut pending_steps, &messages_with_parts[k]);
        k += 1;
    }
    proof {
        assert(messages_with_parts@.take(messages_with_parts.len() as int) =~= messages_with_parts@);
    }
    let ghost d0 = message_views(display@);
    match pending_steps {
        Some(prev) => {
            display.push(prev);
            proof {
                assert(message_views(display@) =~= d0.push(display@.last()@));
            }
        },
        None => {},
    }
    display
}

/// A permission request as the message list shows it.
pub struct PendingPermissionDisplay {
    pub session_id: String,
    pub request_id: String,
    pub permission: String,
    pub patterns: Vec<String>,
}

/// What the message list holds.
pub struct MessageList {
    pub messages: Vec<DisplayMessage>,
    pub is_working: bool,
    pub revert_message_id: Option<String>,
    pub pending_permissions: Vec<PendingPermissionDisplay>,
}

/// The handle through which the application updates the message list.
pub type MessageListRef = MessageList;

/// Whether some step of a list is still running a tool.
pub open spec fn steps_running(ss: Seq<StepView>) -> bool {
    exists|k: int| 0 <= k < ss.len() && (#[trigger] ss[k]).has_running
}

/// Whether the last message shown is a reply made of steps alone with a tool
/// still running.
pub open spec fn last_running(ms: Seq<MessageView>) -> bool {
    ms.len() > 0 && ms.last().role == "assistant"@ && ms.last().text.len() == 0 && steps_running(ms.last().steps)
}

/// The messages as the list shows them after a rebuild: the steps of a last
/// reply made of steps alone are unfolded while a tool runs in it, or when the
/// list showed such a reply before.
pub open spec fn unfold_last(was_running: bool, ms: Seq<MessageView>) -> Seq<MessageView> {
    if ms.len() > 0 && ms.last().role == "assistant"@ && ms.last().text.len() == 0 && ms.last().steps.len() > 0
        && (steps_running(ms.last().steps) || was_running) {
        ms.update(ms.len() - 1, MessageView { show_steps: true, ..ms.last() })
    } else {
        ms
    }
}

/// The messages after text has come in for a message: appended to the last
/// message when it has the same role (folding its steps when a reply's text
/// begins), else a new message with that text.
pub open spec fn text_appended(ms: Seq<MessageView>, role: Seq<char>, message_id: Seq<char>, text: Seq<char>) -> Seq<MessageView> {
    if ms.len() > 0 && ms.last().role == role {
        let last = ms.last();
        let fold = role == "assistant"@ && last.text.len() == 0 && last.steps.len() > 0;
        ms.update(ms.len() - 1, MessageView { text: last.text + text, show_steps: if fold { false } else { last.show_steps }, ..last })
    } else {
        ms.push(MessageView {
            role,
            text,
            message_id: Some(message_id),
            timestamp: None,
            model_id: None,
            tokens: None,
            cost: None,
            error_text: None,
            is_error: false,
            diffs: Seq::empty(),
            show_diffs: false,
            steps: Seq::empty(),
            show_steps: false,
            duration_ms: None,
        })
    }
}

/// Text that streams in pieces shows as if it came at once: appending `a` and
/// then `b` for the same role gives the messages that appending `a + b` gives.
pub proof fn law_streamed_text_pieces_concatenate(
    ms: Seq<MessageView>,
    role: Seq<char>,
    message_id: Seq<char>,
    a: Seq<char>,
    b: Seq<char>,
)
    ensures
        text_appended(text_appended(ms, role, message_id, a), role, message_id, b) == text_appended(ms, role, message_id, a + b),
{
    let once = text_appended(ms, role, message_id, a);
    let twice = text_appended(once, role, message_id, b);
    let whole = text_appended(ms, role, message_id, a + b);
    if ms.len() > 0 && ms.last().role == role {
        let last = ms.last();
        assert(once.last().text == last.text + a);
        assert(last.text + a + b =~= last.text + (a + b));
        assert(twice =~= whole);
    } else {
        assert(once.last().text == a);
        assert(once.last().steps.len() == 0);
        assert(twice =~= whole);
    }
}

/// The position of the last reply among the messages, if any.
pub open spec fn last_reply(ms: Seq<MessageView>) -> Option<int>
    decreases ms.len(),
{
    if ms.len() == 0 {
        None
    } else if ms.last().role == "assistant"@ {
        Some(ms.len() - 1)
    } else {
        last_reply(ms.drop_last())
    }
}

/// The messages with a session's file changes put under the last reply (a reply
/// given no change folds its change list); without a reply, unchanged.
pub open spec fn with_session_diffs(ms: Seq<MessageView>, diffs: Seq<FileDiff>) -> Seq<MessageView> {
    match last_reply(ms) {
        Some(i) => ms.update(i, MessageView {
            diffs,
            show_diffs: if diffs.len() == 0 { false } else { ms[i].show_diffs },
            ..ms[i]
        }),
        None => ms,
    }
}

/// The permission requests other than `id`.
pub open spec fn other_permissions(ps: Seq<PendingPermissionDisplay>, id: Seq<char>) -> Seq<PendingPermissionDisplay>
    decreases ps.len(),
{
    if ps.len() == 0 {
        ps
    } else if ps.last().request_id@ == id {
        other_permissions(ps.drop_last(), id)
    } else {
        other_permissions(ps.drop_last(), id).push(ps.last())
    }
}

/// Once a permission request is removed from the list, no request of that id
/// is shown, and every other request still is.
pub proof fn law_removed_permission_is_gone(ps: Seq<PendingPermissionDisplay>, id: Seq<char>, p: PendingPermissionDisplay)
    ensures
        other_permissions(ps, id).contains(p) <==> ps.contains(p) && p.request_id@ != id,
    decreases ps.len(),
{
    if ps.len() > 0 {
        law_removed_permission_is_gone(ps.drop_last(), id, p);
        let r = other_permissions(ps.drop_last(), id);
        let o = other_permissions(ps, id);
        if ps.drop_last().contains(p) {
            let k = choose|k: int| 0 <= k < ps.drop_last().len() && ps.drop_last()[k] == p;
            assert(ps[k] == p);
        }
        if ps.contains(p) && p != ps.last() {
            let k = choose|k: int| 0 <= k < ps.len() && ps[k] == p;
            assert(ps.drop_last()[k] == p);
        }
        if ps.last().request_id@ != id {
            assert(o == r.push(ps.last()));
            assert(o[r.len() as int] == ps.last());
            if r.contains(p) {
                let k = choose|k: int| 0 <= k < r.len() && r[k] == p;
                assert(o[k] == p);
            }
            if o.contains(p) && p != ps.last() {
                let k = choose|k: int| 0 <= k < o.len() && o[k] == p;
                assert(r[k] == p);
            }
        }
    }
}

/// A message with nothing but a role, a text and an id or a time.
fn plain_message(role: String, text: String, message_id: Option<String>, timestamp: Option<i64>) -> (m: DisplayMessage)
    ensures
        m.role == role && m.text == text && m.message_id == message_id && m.timestamp == timestamp,
        m.model_id is None && m.tokens is None && m.cost is None && m.error_text is None && !m.is_error,
        m.diffs@.len() == 0 && !m.show_diffs && m.steps@.len() == 0 && !m.show_steps && m.duration_ms is None,
{
    DisplayMessage {
        role,
        text,
        message_id,
        timestamp,
        model_id: None,
        tokens: None,
        cost: None,
        error_text: None,
        is_error: false,
        diffs: Vec::new(),
        show_diffs: false,
        steps: Vec::new(),
        show_steps: false,
        duration_ms: None,
    }
}

/// Whether a step of the list runs a tool.
fn any_running(steps: &Vec<DisplayStep>) -> (b: bool)
    ensures
        b == steps_running(step_views(steps@)),
{
    let ghost ss = step_views(steps@);
    let mut k: usize = 0;
    while k < steps.len()
        invariant
            k <= steps.len(),
            ss == step_views(steps@),
            forall|j: int| 0 <= j < k ==> !(#[trigger] ss[j]).has_running,
        decreases steps.len() - k,
    {
        assert(ss[k as int] == steps[k as int]@);
        if steps[k].has_running {
            return true;
        }
        k += 1;
    }
    false
}

impl MessageList {
    /// An empty list.
    pub fn new() -> (r: Self)
        ensures
            r.messages@.len() == 0 && !r.is_working && r.revert_message_id is None && r.pending_permissions@.len() == 0,
    {
        MessageList { messages: Vec::new(), is_working: false, revert_message_id: None, pending_permissions: Vec::new() }
    }

    /// Shows the given messages, unfolding the steps of a last reply that is
    /// still working.
    pub fn set_messages(&mut self, messages_with_parts: &Vec<MessageWithParts>, revert_message_id: Option<String>)
        requires
            forall|k: int| 0 <= k < messages_with_parts@.len() ==> duration_fits(#[trigger] messages_with_parts@[k].info),
        ensures
            message_views(final(self).messages@) == unfold_last(
                last_running(message_views(old(self).messages@)),
                rebuilt_messages(messages_with_parts@),
            ),
            final(self).revert_message_id == revert_message_id,
            final(self).is_working == old(self).is_working,
            final(self).pending_permissions == old(self).pending_permissions,
    {
        let ghost before = message_views(self.messages@);
        let was_running = match self.messages.last() {
            Some(m) => {
                proof {
                    assert(before.last() == m@);
                }
                str_eq(m.role.as_str(), "assistant") && m.text.as_str().is_empty() && any_running(&m.steps)
            },
            None => false,
        };
        let mut ms = rebuild_from_parts(messages_with_parts);
        let ghost rebuilt = message_views(ms@);
        if ms.len() > 0 {
            let mut last = ms.pop().unwrap();
            proof {
                assert(rebuilt.last() == last@);
            }
            if str_eq(last.role.as_str(), "assistant") && last.text.as_str().is_empty() && last.steps.len() > 0 {
                if any_running(&last.steps) || was_running {
                    last.show_steps = true;
                }
            }
            ms.push(last);
            proof {
                assert(message_views(ms@) =~= unfold_last(was_running, rebuilt));
            }
        } else {
            assert(message_views(ms@) =~= unfold_last(was_running, rebuilt));
        }
        self.messages = ms;
        self.revert_message_id = revert_message_id;
    }

    /// Adds text that came in for a message.
    pub fn append_text_for_message(&mut self, role: &str, message_id: &str, text: &str)
        ensures
            message_views(final(self).messages@) == text_appended(message_views(old(self).messages@), role@, message_id@, text@),
            final(self).is_working == old(self).is_working,
            final(self).revert_message_id == old(self).revert_message_id,
            final(self).pending_permissions == old(self).pending_permissions,
    {
        let ghost before = message_views(self.messages@);
        if self.messages.len() > 0 && str_eq(self.messages[self.messages.len() - 1].role.as_str(), role) {
            let mut last = self.messages.pop().unwrap();
            proof {
                assert(before.last() == last@);
            }
            let was_empty = last.text.as_str().is_empty();
            last.text.append(text);
            if str_eq(role, "assistant") && was_empty && last.steps.len() > 0 {
                last.show_steps = false;
            }
            self.messages.push(last);
            proof {
                assert(message_views(self.messages@) =~= text_appended(before, role@, message_id@, text@));
            }
        } else {
            let m = plain_message(String::from_str(role), String::from_str(text), Some(String::from_str(message_id)), None);
            self.messages.push(m);
            proof {
                assert(message_views(self.messages@) =~= before.push(m@));
                assert(m@.diffs =~= Seq::<FileDiff>::empty());
                assert(m@.steps =~= Seq::<StepView>::empty());
            }
        }
    }

    /// Adds a message the user just sent, dated by the clock.
    pub fn add_user_message(&mut self, text: &str)
        ensures
            final(self).messages@.len() == old(self).messages@.len() + 1,
            final(self).messages@.drop_last() == old(self).messages@,
            final(self).messages@.last()@.role == "user"@,
            final(self).messages@.last()@.text == text@,
            final(self).messages@.last()@.timestamp is Some,
            final(self).is_working == old(self).is_working,
            final(self).revert_message_id == old(self).revert_message_id,
            final(self).pending_permissions == old(self).pending_permissions,
    {
        let now = now_millis();
        self.add_user_message_at(text, now);
    }

    /// Adds a message the user just sent, dated `now_ms`.
    pub fn add_user_message_at(&mut self, text: &str, now_ms: i64)
        ensures
            final(self).messages@.len() == old(self).messages@.len() + 1,
            final(self).messages@.drop_last() == old(self).messages@,
            final(self).messages@.last()@ == (MessageView {
                role: "user"@,
                text: text@,
                message_id: None,
                timestamp: Some(now_ms),
                model_id: None,
                tokens: None,
                cost: None,
                error_text: None,
                is_error: false,
                diffs: Seq::empty(),
                show_diffs: false,
                steps: Seq::empty(),
                show_steps: false,
                duration_ms: None,
            }),
            final(self).is_working == old(self).is_working,
            final(self).revert_message_id == old(self).revert_message_id,
            final(self).pending_permissions == old(self).pending_permissions,
    {
        let m = plain_message(String::from_str("user"), String::from_str(text), None, Some(now_ms));
        proof {
            assert(m@.diffs =~= Seq::<FileDiff>::empty());
            assert(m@.steps =~= Seq::<StepView>::empty());
        }
        self.messages.push(m);
        assert(self.messages@.drop_last() =~= old(self).messages@);
    }

    /// Shows no message.
    pub fn clear(&mut self)
        ensures
            final(self).messages@.len() == 0,
            final(self).is_working == old(self).is_working,
            final(self).revert_message_id == old(self).revert_message_id,
            final(self).pending_permissions == old(self).pending_permissions,
    {
        self.messages = Vec::new();
    }

    /// Marks the session shown as working or idle.
    pub fn set_working(&mut self, working: bool)
        ensures
            final(self).is_working == working,
            final(self).messages == old(self).messages,
            final(self).revert_message_id == old(self).revert_message_id,
            final(self).pending_permissions == old(self).pending_permissions,
    {
        self.is_working = working;
    }

    /// Shows the given permission requests.
    pub fn set_pending_permissions(&mut self, permissions: Vec<PendingPermissionDisplay>)
        ensures
            final(self).pending_permissions == permissions,
            final(self).messages == old(self).messages,
            final(self).is_working == old(self).is_working,
            final(self).revert_message_id == old(self).revert_message_id,
    {
        self.pending_permissions = permissions;
    }

    /// Stops showing the permission request `request_id`.
    pub fn remove_permission(&mut self, request_id: &str)
        ensures
            final(self).pending_permissions@ == other_permissions(old(self).pending_permissions@, request_id@),
            final(self).messages == old(self).messages,
            final(self).is_working == old(self).is_working,
            final(self).revert_message_id == old(self).revert_message_id,
    {
        let mut kept: Vec<PendingPermissionDisplay> = Vec::new();
        let mut all: Vec<PendingPermissionDisplay> = Vec::new();
        std::mem::swap(&mut all, &mut self.pending_permissions);
        let ghost ps = all@;
        let n = all.len();
        let mut k: usize = 0;
        let mut rest = all;
        proof {
            assert(ps.take(0) =~= Seq::<PendingPermissionDisplay>::empty());
        }
        while rest.len() > 0
            invariant
                k + rest@.len() == n,
                n == ps.len(),
                rest@ == ps.skip(k as int),
                kept@ == other_permissions(ps.take(k as int), request_id@),
            decreases rest@.len(),
        {
            let ghost r0 = rest@;
            let p = rest.remove(0);
            proof {
                assert(r0[0] == p);
                assert(ps.skip(k as int)[0] == ps[k as int]);
                assert(ps.take(k + 1).drop_last() =~= ps.take(k as int));
                assert(ps.take(k + 1).last() == p);
            }
            if !str_eq(p.request_id.as_str(), request_id) {
                kept.push(p);
            }
            k += 1;
            proof {
                assert(rest@ =~= ps.skip(k as int));
            }
        }
        proof {
            assert(ps.take(k as int) =~= ps);
        }
        self.pending_permissions = kept;
    }

    /// Shows the file changes of a session under its last reply; a reply with
    /// no change folds its change list.
    pub fn set_session_diffs(&mut self, diffs: &Vec<FileDiff>)
        ensures
            message_views(final(self).messages@) == with_session_diffs(message_views(old(self).messages@), diffs@),
            last_reply(message_views(old(self).messages@)) is None ==> final(self).messages == old(self).messages,
            final(self).is_working == old(self).is_working,
            final(self).revert_message_id == old(self).revert_message_id,
            final(self).pending_permissions == old(self).pending_permissions,
    {
        let ghost before = message_views(self.messages@);
        let mut k: usize = self.messages.len();
        proof {
            assert(before.take(k as int) =~= before);
        }
        while k > 0 && !str_eq(self.messages[k - 1].role.as_str(), "assistant")
            invariant
                k <= self.messages.len(),
                before == message_views(self.messages@),
                last_reply(before) == last_reply(before.take(k as int)),
            decreases k,
        {
            proof {
                assert(before.take(k as int).drop_last() =~= before.take(k - 1));
                assert(before.take(k as int).last() == self.messages@[k - 1]@);
            }
            k -= 1;
        }
        proof {
            if k == self.messages.len() {
                assert(before.take(k as int) =~= before);
            }
        }
        if k > 0 {
            proof {
                assert(before.take(k as int).last() == self.messages@[k - 1]@);
                assert(last_reply(before.take(k as int)) == Some(k - 1));
            }
            let ghost orig = self.messages@;
            let mut reply = self.messages.remove(k - 1);
            let ghost r0 = reply@;
            reply.diffs = clone_diffs(diffs);
            if reply.diffs.len() == 0 {
                reply.show_diffs = false;
            }
            self.messages.insert(k - 1, reply);
            proof {
                assert(r0 == before[k - 1]);
                assert(self.messages@ =~= orig.update(k - 1, reply));
                assert(message_views(self.messages@) =~= before.update(k - 1, MessageView {
                    diffs: diffs@,
                    show_diffs: if diffs@.len() == 0 { false } else { before[k - 1].show_diffs },
                    ..before[k - 1]
                }));
            }
        } else {
            proof {
                assert(before.take(0) =~= Seq::<MessageView>::empty());
            }
        }
    }
}

/// Whether a step is flagged as failed exactly when one of its tool calls has a
/// result that starts with "Error".
pub open spec fn step_error_flag_follows_results(s: StepView) -> bool {
    s.has_error <==> exists|j: int| 0 <= j < s.details.len() && starts_with(#[trigger] s.details[j].result, "Error"@)
}

/// Whether every step of `ss` is flagged as failed exactly when a tool call of it failed.
pub open spec fn steps_flag_errors(ss: Seq<StepView>) -> bool {
    forall|k: int| 0 <= k < ss.len() ==> step_error_flag_follows_results(#[trigger] ss[k])
}

/// Whether every message of `ms` flags its failed steps exactly.
pub open spec fn messages_flag_errors(ms: Seq<MessageView>) -> bool {
    forall|i: int| 0 <= i < ms.len() ==> steps_flag_errors(#[trigger] ms[i].steps)
}

proof fn lemma_digest_part_flags_errors(texts: Seq<Seq<char>>, steps: Seq<StepView>, p: Part)
    requires
        steps_flag_errors(steps),
    ensures
        steps_flag_errors(digest_part(texts, steps, p).1),
{
    let r = digest_part(texts, steps, p).1;
    if part_text(p) is None {
        match p {
            Part::StepStart { .. } => {
                assert(step_error_flag_follows_results(r.last()));
                assert forall|k: int| 0 <= k < r.len() implies step_error_flag_follows_results(#[trigger] r[k]) by {
                    if k < steps.len() {
                        assert(r[k] == steps[k]);
                    }
                }
            },
            Part::Tool { tool, state, .. } => {
                let result = state.result_text();
                if steps.len() > 0 {
                    let last = steps.last();
                    let nl = r[steps.len() - 1];
                    assert(nl.details == last.details.push(nl.details.last()));
                    assert(nl.details.last().result == result);
                    if nl.has_error {
                        if last.has_error {
                            assert(step_error_flag_follows_results(steps[steps.len() - 1]));
                            let j = choose|j: int| 0 <= j < last.details.len() && starts_with(#[trigger] last.details[j].result, "Error"@);
                            assert(nl.details[j] == last.details[j]);
                        } else {
                            assert(starts_with(nl.details[nl.details.len() - 1].result, "Error"@));
                        }
                    } else {
                        assert(step_error_flag_follows_results(steps[steps.len() - 1]));
                        assert forall|j: int| 0 <= j < nl.details.len() implies !starts_with(#[trigger] nl.details[j].result, "Error"@) by {
                            if j < last.details.len() {
                                assert(nl.details[j] == last.details[j]);
                            }
                        }
                    }
                    assert(step_error_flag_follows_results(nl));
                    assert forall|k: int| 0 <= k < r.len() implies step_error_flag_follows_results(#[trigger] r[k]) by {
                        if k < steps.len() - 1 {
                            assert(r[k] == steps[k]);
                        }
                    }
                } else {
                    let nl = r[0];
                    assert(nl.details.len() == 1);
                    if nl.has_error {
                        assert(starts_with(nl.details[0].result, "Error"@));
                    }
                    assert(step_error_flag_follows_results(nl));
                }
            },
            Part::StepFinish { .. } => {
                if steps.len() > 0 {
                    assert(step_error_flag_follows_results(steps[steps.len() - 1]));
                    assert(r[steps.len() - 1].details == steps[steps.len() - 1].details);
                    assert forall|k: int| 0 <= k < r.len() implies step_error_flag_follows_results(#[trigger] r[k]) by {
                        if k < steps.len() - 1 {
                            assert(r[k] == steps[k]);
                        }
                    }
                } else {
                    assert(step_error_flag_follows_results(r[0]));
                }
            },
            _ => {},
        }
    }
}

/// The steps that the parts of a message give flag their failures exactly.
proof fn lemma_digest_parts_flags_errors(ps: Seq<Part>)
    ensures
        steps_flag_errors(digest_parts(ps).1),
    decreases ps.len(),
{
    if ps.len() > 0 {
        lemma_digest_parts_flags_errors(ps.drop_last());
        let (texts, steps) = digest_parts(ps.drop_last());
        lemma_digest_part_flags_errors(texts, steps, ps.last());
    }
}

proof fn lemma_concat_flags_errors(a: Seq<StepView>, b: Seq<StepView>)
    requires
        steps_flag_errors(a),
        steps_flag_errors(b),
    ensures
        steps_flag_errors(a + b),
{
    assert forall|k: int| 0 <= k < (a + b).len() implies step_error_flag_follows_results(#[trigger] (a + b)[k]) by {
        if k < a.len() {
            assert((a + b)[k] == a[k]);
        } else {
            assert((a + b)[k] == b[k - a.len()]);
        }
    }
}

proof fn lemma_push_flags_errors(ms: Seq<MessageView>, m: MessageView)
    requires
        messages_flag_errors(ms),
        steps_flag_errors(m.steps),
    ensures
        messages_flag_errors(ms.push(m)),
{
    assert forall|i: int| 0 <= i < ms.push(m).len() implies steps_flag_errors(#[trigger] ms.push(m)[i].steps) by {
        if i < ms.len() {
            assert(ms.push(m)[i] == ms[i]);
        }
    }
}

/// While the list is built, every message shown or waiting flags its failed
/// steps exactly.
#[verifier::rlimit(50)]
proof fn lemma_rebuild_fold_flags_errors(ms: Seq<MessageWithParts>)
    ensures
        messages_flag_errors(rebuild_fold(ms).display),
        rebuild_fold(ms).pending_steps matches Some(pm) ==> steps_flag_errors(pm.steps),
    decreases ms.len(),
{
    if ms.len() > 0 {
        lemma_rebuild_fold_flags_errors(ms.drop_last());
        let st = rebuild_fold(ms.drop_last());
        let mwp = ms.last();
        let steps = digest_parts(mwp.parts@).1;
        lemma_digest_parts_flags_errors(mwp.parts@);
        if let Some(pm) = st.pending_steps {
            lemma_concat_flags_errors(pm.steps, steps);
            lemma_push_flags_errors(st.display, pm);
        }
        let n = rebuild_step(st, mwp);
        assert forall|i: int| 0 <= i < n.display.len() implies steps_flag_errors(#[trigger] n.display[i].steps) by {
            if i < st.display.len() {
                assert(n.display[i] == st.display[i]);
            } else if st.pending_steps is Some && i == st.display.len() && n.display.len() == st.display.len() + 2 {
                assert(n.display[i] == st.pending_steps.unwrap());
            }
        }
    }
}

/// In the messages built for a session, every step is flagged as failed exactly
/// when one of its tool calls has a result that starts with "Error".
pub proof fn law_step_error_flags_follow_tool_results(ms: Seq<MessageWithParts>)
    ensures
        messages_flag_errors(rebuilt_messages(ms)),
        forall|i: int, k: int| 0 <= i < rebuilt_messages(ms).len() && 0 <= k < rebuilt_messages(ms)[i].steps.len()
            ==> (#[trigger] rebuilt_messages(ms)[i].steps[k].has_error <==> exists|j: int|
                0 <= j < rebuilt_messages(ms)[i].steps[k].details.len()
                && starts_with(#[trigger] rebuilt_messages(ms)[i].steps[k].details[j].result, "Error"@)),
{
    lemma_rebuild_fold_flags_errors(ms);
    let st = rebuild_fold(ms);
    if let Some(pm) = st.pending_steps {
        lemma_push_flags_errors(st.display, pm);
    }
    let r = rebuilt_messages(ms);
    assert forall|i: int, k: int| 0 <= i < r.len() && 0 <= k < r[i].steps.len()
        implies (#[trigger] r[i].steps[k].has_error <==> exists|j: int|
            0 <= j < r[i].steps[k].details.len() && starts_with(#[trigger] r[i].steps[k].details[j].result, "Error"@)) by {
        assert(steps_flag_errors(r[i].steps));
        assert(step_error_flag_follows_results(r[i].steps[k]));
    }
}

} // verus!
