//! What the message list shows besides the messages themselves: the card
//! shown while the assistant works, and which parts of a message are shown.
use vstd::prelude::*;
use crate::messages::{
    last_reply, message_views, steps_running, DetailView, DisplayMessage, DisplayStep, MessageList, MessageView, StepView,
};
use crate::steps::{
    format_tool_input, format_tool_name, get_step_description, get_tool_icon, step_description, tool_icon, tool_input_showable,
    tool_input_text, tool_label,
};
use crate::text::{chars_of, contains_seq, find_seq, join, join_strings, push_nat_decimal, push_str, nat_decimal, str_eq, string_of, views};

verus! {

/// The tool calls of a list that are still running, in order.
pub open spec fn running_details(ds: Seq<DetailView>) -> Seq<DetailView>
    decreases ds.len(),
{
    if ds.len() == 0 {
        ds
    } else if ds.last().is_running {
        running_details(ds.drop_last()).push(ds.last())
    } else {
        running_details(ds.drop_last())
    }
}

/// A running tool call as the working card lists it: icon, name, input.
pub open spec fn running_row(d: DetailView) -> (Seq<char>, Seq<char>, Seq<char>) {
    (tool_icon(d.tool), tool_label(d.tool), tool_input_text(d.input_summary))
}

/// Whether every running tool call of a step has an input that can be shown.
pub open spec fn running_inputs_showable(step: StepView) -> bool {
    forall|k: int| 0 <= k < step.details.len() && (#[trigger] step.details[k]).is_running
        ==> tool_input_showable(step.details[k].input_summary)
}

/// What the working card says the assistant is doing, and the tool calls it
/// lists, from the last message shown: the names of up to three running calls
/// of its last step, else that step's description, else "Working...".
pub open spec fn working_activity_of(last: Option<MessageView>) -> (Seq<char>, Seq<(Seq<char>, Seq<char>, Seq<char>)>) {
    match last {
        Some(m) => if m.steps.len() > 0 {
            let step = m.steps.last();
            let running = running_details(step.details);
            let rows = running.map_values(|d: DetailView| running_row(d));
            if running.len() > 0 {
                ("Running: "@ + join(rows.take(if rows.len() < 3 { rows.len() as int } else { 3 }).map_values(
                    |r: (Seq<char>, Seq<char>, Seq<char>)| r.1,
                ), ", "@), rows)
            } else {
                let desc = step_description(step);
                (if desc.len() == 0 { "Working..."@ } else { "Working on: "@ + desc }, rows)
            }
        } else {
            ("Working..."@, Seq::empty())
        },
        None => ("Working..."@, Seq::empty()),
    }
}

/// The tool calls of a step still running, as icon, name and input.
fn running_rows_of(step: &DisplayStep) -> (r: Vec<(String, String, String)>)
    requires
        running_inputs_showable(step@),
    ensures
        r@.map_values(|t: (String, String, String)| (t.0@, t.1@, t.2@)) == running_details(step@.details).map_values(
            |d: DetailView| running_row(d),
        ),
{
    let ghost ds = step@.details;
    let mut out: Vec<(String, String, String)> = Vec::new();
    let mut k: usize = 0;
    proof {
        assert(ds.take(0) =~= Seq::<DetailView>::empty());
    }
    while k < step.details.len()
        invariant
            k <= step.details.len(),
            ds == step@.details,
            ds.len() == step.details@.len(),
            running_inputs_showable(step@),
            out@.map_values(|t: (String, String, String)| (t.0@, t.1@, t.2@)) == running_details(ds.take(k as int)).map_values(
                |d: DetailView| running_row(d),
            ),
        decreases step.details.len() - k,
    {
        let d = &step.details[k];
        proof {
            assert(ds[k as int] == d@);
            assert(ds.take(k + 1).drop_last() =~= ds.take(k as int));
            assert(ds.take(k + 1).last() == d@);
        }
        if d.is_running {
            proof {
                assert(tool_input_showable(ds[k as int].input_summary));
            }
            let icon = get_tool_icon(d.tool.as_str());
            let name = format_tool_name(d.tool.as_str());
            let input = format_tool_input(d.input_summary.as_str());
            let ghost o0 = out@.map_values(|t: (String, String, String)| (t.0@, t.1@, t.2@));
            out.push((String::from_str(icon), name, input));
            proof {
                let prev = running_details(ds.take(k as int));
                assert(running_details(ds.take(k + 1)) == prev.push(d@));
                assert(prev.push(d@).map_values(|e: DetailView| running_row(e)) =~= prev.map_values(|e: DetailView| running_row(e)).push(
                    running_row(d@),
                ));
                assert(out@.map_values(|t: (String, String, String)| (t.0@, t.1@, t.2@)) =~= o0.push(running_row(d@)));
            }
        } else {
            assert(running_details(ds.take(k + 1)) == running_details(ds.take(k as int)));
        }
        k += 1;
    }
    proof {
        assert(ds.take(k as int) =~= ds);
    }
    out
}

/// What the working card says the assistant is doing and which running tool
/// calls it lists, from the last message shown.
pub fn working_activity(last: Option<&DisplayMessage>) -> (r: (String, Vec<(String, String, String)>))
    requires
        last matches Some(m) ==> (m.steps@.len() > 0 ==> running_inputs_showable(m@.steps.last())),
    ensures
        (r.0@, r.1@.map_values(|t: (String, String, String)| (t.0@, t.1@, t.2@))) == working_activity_of(
            match last {
                Some(m) => Some(m@),
                None => None,
            },
        ),
{
    match last {
        Some(m) => {
            if m.steps.len() > 0 {
                let step = &m.steps[m.steps.len() - 1];
                proof {
                    assert(m@.steps.last() == step@);
                }
                let rows = running_rows_of(step);
                let ghost rv = rows@.map_values(|t: (String, String, String)| (t.0@, t.1@, t.2@));
                if rows.len() > 0 {
                    let n: usize = if rows.len() < 3 { rows.len() } else { 3 };
                    let mut names: Vec<String> = Vec::new();
                    let mut k: usize = 0;
                    while k < n
                        invariant
                            k <= n <= rows.len(),
                            rv == rows@.map_values(|t: (String, String, String)| (t.0@, t.1@, t.2@)),
                            views(names@) == rv.take(k as int).map_values(|r: (Seq<char>, Seq<char>, Seq<char>)| r.1),
                        decreases n - k,
                    {
                        let ghost n0 = views(names@);
                        names.push(rows[k].1.clone());
                        proof {
                            assert(views(names@) =~= n0.push(rv[k as int].1));
                            assert(rv.take(k + 1).map_values(|r: (Seq<char>, Seq<char>, Seq<char>)| r.1) =~= rv.take(
                                k as int,
                            ).map_values(|r: (Seq<char>, Seq<char>, Seq<char>)| r.1).push(rv[k as int].1));
                        }
                        k += 1;
                    }
                    let joined = join_strings(&names, ", ");
                    let mut text: Vec<char> = Vec::new();
                    push_str(&mut text, "Running: ");
                    push_str(&mut text, joined.as_str());
                    (string_of(text.as_slice()), rows)
                } else {
                    let desc = get_step_description(step);
                    if desc.as_str().is_empty() {
                        (String::from_str("Working..."), rows)
                    } else {
                        let mut text: Vec<char> = Vec::new();
                        push_str(&mut text, "Working on: ");
                        push_str(&mut text, desc.as_str());
                        (string_of(text.as_slice()), rows)
                    }
                }
            } else {
                let rows: Vec<(String, String, String)> = Vec::new();
                assert(rows@.map_values(|t: (String, String, String)| (t.0@, t.1@, t.2@)) =~= Seq::<(Seq<char>, Seq<char>, Seq<char>)>::empty());
                (String::from_str("Working..."), rows)
            }
        },
        None => {
            let rows: Vec<(String, String, String)> = Vec::new();
            assert(rows@.map_values(|t: (String, String, String)| (t.0@, t.1@, t.2@)) =~= Seq::<(Seq<char>, Seq<char>, Seq<char>)>::empty());
            (String::from_str("Working..."), rows)
        },
    }
}

/// The timer of the working card: "· {minutes}m, {seconds}s", or nothing
/// before the first second has passed.
pub open spec fn timer_text(elapsed_secs: nat) -> Seq<char> {
    if elapsed_secs > 0 {
        "· "@ + nat_decimal(elapsed_secs / 60) + "m, "@ + nat_decimal(elapsed_secs % 60) + "s"@
    } else {
        Seq::empty()
    }
}

/// The timer of the working card after `elapsed_secs` seconds of work.
pub fn working_timer_text(elapsed_secs: u64) -> (r: String)
    ensures
        r@ == timer_text(elapsed_secs as nat),
{
    if elapsed_secs > 0 {
        let mut out: Vec<char> = Vec::new();
        push_str(&mut out, "· ");
        push_nat_decimal(elapsed_secs / 60, &mut out);
        push_str(&mut out, "m, ");
        push_nat_decimal(elapsed_secs % 60, &mut out);
        push_str(&mut out, "s");
        string_of(out.as_slice())
    } else {
        String::new()
    }
}

/// Whether a reply's text is shown as markdown: when it holds a backtick, a
/// header mark or a quote mark.
pub open spec fn needs_markdown(text: Seq<char>) -> bool {
    contains_seq(text, "```"@) || contains_seq(text, "`"@) || contains_seq(text, "# "@) || contains_seq(text, "> "@)
}

/// Whether `p` occurs in `text`.
fn has_piece(text: &Vec<char>, p: &str) -> (b: bool)
    ensures
        b == contains_seq(text@, p@),
{
    let pv = chars_of(p);
    match find_seq(text, &pv) {
        Some(_) => true,
        None => false,
    }
}

/// Whether a reply's text is shown as markdown.
pub fn text_needs_markdown(text: &str) -> (b: bool)
    ensures
        b == needs_markdown(text@),
{
    let cs = chars_of(text);
    has_piece(&cs, "```") || has_piece(&cs, "`") || has_piece(&cs, "# ") || has_piece(&cs, "> ")
}

/// Whether a reply shows its token and cost line: when it has either, and its
/// steps are not unfolded.
pub open spec fn shows_stats(m: MessageView) -> bool {
    (m.tokens is Some || m.cost is Some) && !(m.steps.len() > 0 && m.show_steps)
}

/// Whether a reply shows its token and cost line.
pub fn message_shows_stats(msg: &DisplayMessage) -> (b: bool)
    ensures
        b == shows_stats(msg@),
{
    (msg.tokens.is_some() || msg.cost.is_some()) && !(msg.steps.len() > 0 && msg.show_steps)
}

/// The header of a step row: a chevron, open or closed, and what the step does.
pub open spec fn step_row_header(step: StepView) -> Seq<char> {
    (if step.expanded { "▾"@ } else { "▸"@ }) + " "@ + step_description(step)
}

/// The header of a step row.
pub fn format_step_row_header(step: &DisplayStep) -> (r: String)
    ensures
        r@ == step_row_header(step@),
{
    let mut out: Vec<char> = Vec::new();
    if step.expanded {
        push_str(&mut out, "▾");
    } else {
        push_str(&mut out, "▸");
    }
    push_str(&mut out, " ");
    let desc = get_step_description(step);
    push_str(&mut out, desc.as_str());
    string_of(out.as_slice())
}

/// Whether the list shows the working card: while the assistant works, unless
/// the last reply already shows a running tool call.
pub open spec fn shows_working_card(is_working: bool, ms: Seq<MessageView>) -> bool {
    is_working && !(last_reply(ms) matches Some(i) && steps_running(ms[i].steps))
}

/// Whether the message at `idx` offers to revert to it: it is the message the
/// session was reverted to, or, when the session is not reverted, the last reply.
pub open spec fn offers_revert(revert_id: Option<Seq<char>>, ms: Seq<MessageView>, idx: int) -> bool {
    let is_point = ms[idx].message_id matches Some(id) && revert_id == Some(id);
    is_point || (revert_id is None && last_reply(ms) == Some(idx))
}

/// Whether some step of a list runs a tool.
fn steps_have_running(steps: &Vec<DisplayStep>) -> (b: bool)
    ensures
        b == steps_running(crate::messages::step_views(steps@)),
{
    let ghost ss = crate::messages::step_views(steps@);
    let mut k: usize = 0;
    while k < steps.len()
        invariant
            k <= steps.len(),
            ss == crate::messages::step_views(steps@),
            forall|j: int| 0 <= j < k ==> !(#[trigger] ss[j]).has_running,
        decreases steps.len() - k,
    {
        assert(ss[k as int] == steps[k as int]@);
        if steps[k].has_running {
            return true;
        }
        k += 1;
    }
    false
}

/// The messages with the steps of the message at `i` folded when unfolded and
/// unfolded when folded, if it has steps.
pub open spec fn steps_toggled(ms: Seq<MessageView>, i: int) -> Seq<MessageView> {
    if 0 <= i < ms.len() && ms[i].steps.len() > 0 {
        ms.update(i, MessageView { show_steps: !ms[i].show_steps, ..ms[i] })
    } else {
        ms
    }
}

/// The messages with the file changes of the message at `i` shown when hidden
/// and hidden when shown, if it has changes.
pub open spec fn diffs_toggled(ms: Seq<MessageView>, i: int) -> Seq<MessageView> {
    if 0 <= i < ms.len() && ms[i].diffs.len() > 0 {
        ms.update(i, MessageView { show_diffs: !ms[i].show_diffs, ..ms[i] })
    } else {
        ms
    }
}

/// The messages with the step `j` of the message at `i` opened when closed and
/// closed when open, if there is such a step.
pub open spec fn step_toggled(ms: Seq<MessageView>, i: int, j: int) -> Seq<MessageView> {
    if 0 <= i < ms.len() && 0 <= j < ms[i].steps.len() {
        ms.update(i, MessageView {
            steps: ms[i].steps.update(j, StepView { expanded: !ms[i].steps[j].expanded, ..ms[i].steps[j] }),
            ..ms[i]
        })
    } else {
        ms
    }
}

/// Folding twice changes nothing: toggling the steps, the file changes or one
/// step of a message a second time gives back the messages as they were.
pub proof fn law_toggling_twice_restores(ms: Seq<MessageView>, i: int, j: int)
    ensures
        steps_toggled(steps_toggled(ms, i), i) == ms,
        diffs_toggled(diffs_toggled(ms, i), i) == ms,
        step_toggled(step_toggled(ms, i, j), i, j) == ms,
{
    if 0 <= i < ms.len() {
        assert(steps_toggled(steps_toggled(ms, i), i) =~= ms);
        assert(diffs_toggled(diffs_toggled(ms, i), i) =~= ms);
        if 0 <= j < ms[i].steps.len() {
            let once = step_toggled(ms, i, j);
            assert(once[i].steps.update(j, StepView { expanded: !once[i].steps[j].expanded, ..once[i].steps[j] }) =~= ms[i].steps);
            assert(step_toggled(once, i, j) =~= ms);
        }
    }
}

impl MessageList {
    /// The position of the last reply, if any.
    pub fn last_reply_index(&self) -> (r: Option<usize>)
        ensures
            match r {
                Some(i) => last_reply(message_views(self.messages@)) == Some(i as int) && i < self.messages@.len(),
                None => last_reply(message_views(self.messages@)) is None,
            },
    {
        let ghost ms = message_views(self.messages@);
        let mut k: usize = self.messages.len();
        proof {
            assert(ms.take(k as int) =~= ms);
        }
        while k > 0
            invariant
                k <= self.messages.len(),
                ms == message_views(self.messages@),
                last_reply(ms) == last_reply(ms.take(k as int)),
            decreases k,
        {
            proof {
                assert(ms.take(k as int).last() == self.messages@[k - 1]@);
                assert(ms.take(k as int).drop_last() =~= ms.take(k - 1));
            }
            if str_eq(self.messages[k - 1].role.as_str(), "assistant") {
                return Some(k - 1);
            }
            k -= 1;
        }
        proof {
            assert(ms.take(0) =~= Seq::<MessageView>::empty());
        }
        None
    }

    /// Whether the list shows the working card.
    pub fn shows_working_card(&self) -> (b: bool)
        ensures
            b == shows_working_card(self.is_working, message_views(self.messages@)),
    {
        if !self.is_working {
            return false;
        }
        match self.last_reply_index() {
            Some(i) => {
                proof {
                    assert(message_views(self.messages@)[i as int] == self.messages@[i as int]@);
                }
                !steps_have_running(&self.messages[i].steps)
            },
            None => true,
        }
    }

    /// The number of entries of the list: the messages, the permission
    /// requests, and the working card when it is shown.
    pub fn item_count(&self) -> (n: usize)
        requires
            self.messages@.len() + self.pending_permissions@.len() < usize::MAX,
        ensures
            n == self.messages@.len() + self.pending_permissions@.len() + (if self.is_working { 1int } else { 0int }),
    {
        self.messages.len() + self.pending_permissions.len() + if self.is_working { 1 } else { 0 }
    }

    /// Whether the message at `idx` offers to revert the session to it.
    pub fn shows_revert(&self, idx: usize) -> (b: bool)
        requires
            idx < self.messages@.len(),
        ensures
            b == offers_revert(
                match self.revert_message_id {
                    Some(r) => Some(r@),
                    None => None,
                },
                message_views(self.messages@),
                idx as int,
            ),
    {
        proof {
            assert(message_views(self.messages@)[idx as int] == self.messages@[idx as int]@);
        }
        let is_point = match (&self.messages[idx].message_id, &self.revert_message_id) {
            (Some(id), Some(rev)) => str_eq(rev.as_str(), id.as_str()),
            _ => false,
        };
        if is_point {
            return true;
        }
        if self.revert_message_id.is_some() {
            return false;
        }
        match self.last_reply_index() {
            Some(i) => i == idx,
            None => false,
        }
    }
    /// Unfolds the steps of the message at `idx` when folded, and folds them
    /// when unfolded; a message without steps, or a position past the end, is left.
    pub fn toggle_steps(&mut self, idx: usize)
        ensures
            message_views(final(self).messages@) == steps_toggled(message_views(old(self).messages@), idx as int),
            !(idx < old(self).messages@.len() && old(self).messages@[idx as int].steps@.len() > 0)
                ==> final(self).messages == old(self).messages,
            final(self).is_working == old(self).is_working,
            final(self).revert_message_id == old(self).revert_message_id,
            final(self).pending_permissions == old(self).pending_permissions,
    {
        if idx < self.messages.len() && self.messages[idx].steps.len() > 0 {
            let ghost before = message_views(self.messages@);
            let ghost orig = self.messages@;
            let mut m = self.messages.remove(idx);
            m.show_steps = !m.show_steps;
            self.messages.insert(idx, m);
            proof {
                assert(self.messages@ =~= orig.update(idx as int, m));
                assert(message_views(self.messages@) =~= before.update(idx as int, m@));
            }
        }
    }

    /// Shows the file changes of the message at `idx` when hidden, and hides
    /// them when shown; a message without changes is left.
    pub fn toggle_diffs(&mut self, idx: usize)
        ensures
            message_views(final(self).messages@) == diffs_toggled(message_views(old(self).messages@), idx as int),
            !(idx < old(self).messages@.len() && old(self).messages@[idx as int].diffs@.len() > 0)
                ==> final(self).messages == old(self).messages,
            final(self).is_working == old(self).is_working,
            final(self).revert_message_id == old(self).revert_message_id,
            final(self).pending_permissions == old(self).pending_permissions,
    {
        if idx < self.messages.len() && self.messages[idx].diffs.len() > 0 {
            let ghost before = message_views(self.messages@);
            let ghost orig = self.messages@;
            let mut m = self.messages.remove(idx);
            m.show_diffs = !m.show_diffs;
            self.messages.insert(idx, m);
            proof {
                assert(self.messages@ =~= orig.update(idx as int, m));
                assert(message_views(self.messages@) =~= before.update(idx as int, m@));
            }
        }
    }

    /// Opens the step at `step` of the message at `idx` when closed, and closes
    /// it when open; positions past the end are left.
    pub fn toggle_step(&mut self, idx: usize, step: usize)
        ensures
            message_views(final(self).messages@) == step_toggled(message_views(old(self).messages@), idx as int, step as int),
            !(idx < old(self).messages@.len() && step < old(self).messages@[idx as int].steps@.len())
                ==> final(self).messages == old(self).messages,
            final(self).is_working == old(self).is_working,
            final(self).revert_message_id == old(self).revert_message_id,
            final(self).pending_permissions == old(self).pending_permissions,
    {
        if idx < self.messages.len() && step < self.messages[idx].steps.len() {
            let ghost before = message_views(self.messages@);
            let ghost orig = self.messages@;
            let mut m = self.messages.remove(idx);
            let ghost m0 = m@;
            let ghost steps0 = m.steps@;
            let mut st = m.steps.remove(step);
            st.expanded = !st.expanded;
            m.steps.insert(step, st);
            proof {
                assert(m.steps@ =~= steps0.update(step as int, st));
                assert(crate::messages::step_views(m.steps@) =~= m0.steps.update(step as int, st@));
            }
            self.messages.insert(idx, m);
            proof {
                assert(self.messages@ =~= orig.update(idx as int, m));
                assert(message_views(self.messages@) =~= before.update(idx as int, m@));
            }
        }
    }
}

} // verus!
