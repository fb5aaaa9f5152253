//! The input bar: what a paste attaches, and the choices of its dropdowns.
use vstd::prelude::*;
use crate::composer::{attachments_of, process_pasted_content, text_without};
use crate::composer::data_url_matches;
use crate::models::{models_for, sort_by_label, triple_views, ModelTriple};
use crate::reducer::{last_user_message, last_user_message_id};
use crate::state::{AppState, AttachedFile};
use crate::text::{chars_of, nat_decimal, push_nat_decimal, push_str, string_of, utf8_len, utf8_len_exceeds, views};

verus! {

/// The name of the attachment made of a long pasted text: "pasted_text_",
/// the time in milliseconds, ".txt".
pub open spec fn pasted_text_name(stamp: u64) -> Seq<char> {
    "pasted_text_"@ + nat_decimal(stamp as nat) + ".txt"@
}

/// Whether `f` is the attachment made of the long text `text` pasted at `stamp`.
pub open spec fn is_long_text_attachment(f: AttachedFile, text: Seq<char>, stamp: u64) -> bool {
    &&& f.filename@ == pasted_text_name(stamp)
    &&& f.mime_type@ == "text/plain"@
    &&& f.data_url@.len() == 0
    &&& f.raw_text matches Some(t) && t@ == text
}

impl AppState {
    /// Takes the images pasted into the input as attachments, named after
    /// `stamp`, and gives back the text without them.
    pub fn attach_pasted_content(&mut self, text: &str, stamp: u64) -> (r: String)
        ensures
            r@ == text_without(text@, data_url_matches(text@)),
            final(self).attached_files@.len() >= old(self).attached_files@.len(),
            final(self).attached_files@.take(old(self).attached_files@.len() as int) == old(self).attached_files@,
            attachments_of(
                final(self).attached_files@.skip(old(self).attached_files@.len() as int),
                data_url_matches(text@),
                stamp,
            ),
            *final(self) == (AppState { attached_files: final(self).attached_files, ..*old(self) }),
    {
        let (remaining, mut files) = process_pasted_content(text, stamp);
        let ghost before = self.attached_files@;
        let ghost added = files@;
        self.attached_files.append(&mut files);
        proof {
            assert(self.attached_files@.take(before.len() as int) =~= before);
            assert(self.attached_files@.skip(before.len() as int) =~= added);
        }
        remaining
    }

    /// Takes a pasted text longer than 2000 bytes as a text attachment, named
    /// after `stamp`; says whether it did.
    pub fn attach_long_text(&mut self, remaining: String, stamp: u64) -> (attached: bool)
        ensures
            attached == (utf8_len(remaining@) > 2000),
            attached ==> final(self).attached_files@.len() == old(self).attached_files@.len() + 1
                && final(self).attached_files@.drop_last() == old(self).attached_files@
                && is_long_text_attachment(final(self).attached_files@.last(), remaining@, stamp),
            !attached ==> final(self).attached_files == old(self).attached_files,
            *final(self) == (AppState { attached_files: final(self).attached_files, ..*old(self) }),
    {
        let cs = chars_of(remaining.as_str());
        if !utf8_len_exceeds(&cs, 2000) {
            return false;
        }
        let mut name: Vec<char> = Vec::new();
        push_str(&mut name, "pasted_text_");
        push_nat_decimal(stamp, &mut name);
        push_str(&mut name, ".txt");
        let f = AttachedFile {
            filename: string_of(name.as_slice()),
            mime_type: String::from_str("text/plain"),
            data_url: String::new(),
            raw_text: Some(remaining),
        };
        self.attached_files.push(f);
        assert(self.attached_files@.drop_last() =~= old(self).attached_files@);
        true
    }

    /// The id of the last user message cached for a session, if any.
    pub fn last_user_message_id_for(&self, session_id: &str) -> (r: Option<String>)
        ensures
            r == (match self.messages_by_session@.get(session_id@) {
                Some(v) => last_user_message_id(v@),
                None => None,
            }),
    {
        match self.messages_by_session.get(session_id) {
            Some(v) => last_user_message(v),
            None => None,
        }
    }

    /// Picks the provider at `idx` of the provider list (0 for all of them) and
    /// refreshes the model list, whose first entry is then picked.
    pub fn select_provider(&mut self, idx: usize)
        ensures
            final(self).selected_provider_idx == idx,
            views(final(self).model_labels@) == sort_by_label(models_for(old(self).providers@, idx as int)).map_values(
                |t: ModelTriple| t.2,
            ),
            final(self).model_entries@.map_values(|e: (String, String)| (e.0@, e.1@)) == sort_by_label(
                models_for(old(self).providers@, idx as int),
            ).map_values(|t: ModelTriple| (t.0, t.1)),
            *final(self) == (AppState {
                selected_provider_idx: idx,
                model_labels: final(self).model_labels,
                model_entries: final(self).model_entries,
                selected_model_idx: 0,
                ..*old(self)
            }),
    {
        self.selected_provider_idx = idx;
        self.update_model_list_for_provider();
    }

    /// Picks the model at `idx` of the model list.
    pub fn select_model(&mut self, idx: usize)
        ensures
            *final(self) == (AppState { selected_model_idx: idx, ..*old(self) }),
    {
        self.selected_model_idx = idx;
    }

    /// Picks the entry `idx` of the agent list: 0 is "Default", no agent.
    pub fn select_agent(&mut self, idx: usize)
        ensures
            *final(self) == (AppState {
                selected_agent_idx: if idx > 0 { Some((idx - 1) as usize) } else { None },
                ..*old(self)
            }),
    {
        self.selected_agent_idx = if idx > 0 { Some(idx - 1) } else { None };
    }

    /// Picks the entry `idx` of the skill list: 0 is "Skill", no skill.
    pub fn select_skill(&mut self, idx: usize)
        ensures
            *final(self) == (AppState {
                selected_skill_idx: if idx > 0 { Some((idx - 1) as usize) } else { None },
                ..*old(self)
            }),
    {
        self.selected_skill_idx = if idx > 0 { Some(idx - 1) } else { None };
    }
}

} // verus!
