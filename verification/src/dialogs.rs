//! What a confirmed dialog asks for. A dialog is named "action:data": the
//! action to take and the session or provider it is about.
use vstd::prelude::*;
use crate::state::first_session_with_id;
use crate::steps::{first_occurrence, lemma_first_occurrence};
use crate::text::{chars_of, find_seq, str_eq, string_of};
use crate::types::Session;
use crate::utils::get_session_directory;

verus! {

/// What the application does once a dialog is confirmed.
pub enum DialogCommand {
    /// Save the open file, then go on with what waited for it.
    SaveUnsaved,
    /// Delete a session, working in its directory if it is known.
    DeleteSession { session_id: String, directory: Option<String> },
    /// Give a session a new title.
    RenameSession { session_id: String, title: String, directory: Option<String> },
    /// Store an API key for a provider.
    SetAuth { provider_id: String, key: String },
    /// Nothing to do.
    Ignore,
}

/// A dialog command as plain values.
pub enum CommandView {
    SaveUnsaved,
    DeleteSession { session_id: Seq<char>, directory: Option<Seq<char>> },
    RenameSession { session_id: Seq<char>, title: Seq<char>, directory: Option<Seq<char>> },
    SetAuth { provider_id: Seq<char>, key: Seq<char> },
    Ignore,
}

impl View for DialogCommand {
    type V = CommandView;

    open spec fn view(&self) -> CommandView {
        match self {
            DialogCommand::SaveUnsaved => CommandView::SaveUnsaved,
            DialogCommand::DeleteSession { session_id, directory } => CommandView::DeleteSession {
                session_id: session_id@,
                directory: match directory {
                    Some(d) => Some(d@),
                    None => None,
                },
            },
            DialogCommand::RenameSession { session_id, title, directory } => CommandView::RenameSession {
                session_id: session_id@,
                title: title@,
                directory: match directory {
                    Some(d) => Some(d@),
                    None => None,
                },
            },
            DialogCommand::SetAuth { provider_id, key } => CommandView::SetAuth { provider_id: provider_id@, key: key@ },
            DialogCommand::Ignore => CommandView::Ignore,
        }
    }
}

/// The directory of the first session with the id `id`, if any.
pub open spec fn session_directory(ss: Seq<Session>, id: Seq<char>) -> Option<Seq<char>> {
    match first_session_with_id(ss, id) {
        Some(i) => Some(ss[i].directory@),
        None => None,
    }
}

/// What confirming the dialog `dialog_type` with the value `value` asks for:
/// the unsaved-file dialog saves; otherwise the part before the first ':' is
/// the action and the rest the session or provider it is about. A rename to
/// an empty title, a name without ':' and an unknown action ask for nothing.
pub open spec fn dialog_command(dialog_type: Seq<char>, value: Seq<char>, ss: Seq<Session>) -> CommandView {
    if dialog_type == "unsaved_editor"@ {
        CommandView::SaveUnsaved
    } else {
        match first_occurrence(dialog_type, ":"@) {
            Some(i) => {
                let action = dialog_type.take(i);
                let data = dialog_type.skip(i + 1);
                if action == "delete_session"@ {
                    CommandView::DeleteSession { session_id: data, directory: session_directory(ss, data) }
                } else if action == "rename_session"@ {
                    if value.len() > 0 {
                        CommandView::RenameSession { session_id: data, title: value, directory: session_directory(ss, data) }
                    } else {
                        CommandView::Ignore
                    }
                } else if action == "set_auth"@ {
                    CommandView::SetAuth { provider_id: data, key: value }
                } else {
                    CommandView::Ignore
                }
            },
            None => CommandView::Ignore,
        }
    }
}

/// The view of an optional directory.
pub open spec fn opt_view(o: Option<String>) -> Option<Seq<char>> {
    match o {
        Some(d) => Some(d@),
        None => None,
    }
}

/// The directory of a session, as plain values.
fn directory_of(sessions: &Vec<Session>, id: &str) -> (r: Option<String>)
    ensures
        opt_view(r) == session_directory(sessions@, id@),
{
    get_session_directory(sessions, id)
}

/// What confirming a dialog asks the application to do.
pub fn dialog_command_for(dialog_type: &str, value: &str, sessions: &Vec<Session>) -> (r: DialogCommand)
    ensures
        r@ == dialog_command(dialog_type@, value@, sessions@),
{
    if str_eq(dialog_type, "unsaved_editor") {
        return DialogCommand::SaveUnsaved;
    }
    let cs = chars_of(dialog_type);
    let colon = chars_of(":");
    match find_seq(&cs, &colon) {
        Some(i) => {
            proof {
                reveal_strlit(":");
                lemma_first_occurrence(cs@, colon@, i as int);
            }
            let mut action_chars: Vec<char> = Vec::new();
            let mut k: usize = 0;
            while k < i
                invariant
                    k <= i < cs.len(),
                    action_chars@ == cs@.take(k as int),
                decreases i - k,
            {
                action_chars.push(cs[k]);
                assert(action_chars@ =~= cs@.take(k + 1));
                k += 1;
            }
            let mut data_chars: Vec<char> = Vec::new();
            let mut j: usize = i + 1;
            while j < cs.len()
                invariant
                    i + 1 <= j <= cs.len(),
                    data_chars@ == cs@.subrange(i + 1, j as int),
                decreases cs.len() - j,
            {
                data_chars.push(cs[j]);
                assert(data_chars@ =~= cs@.subrange(i + 1, j + 1));
                j += 1;
            }
            assert(data_chars@ =~= cs@.skip(i + 1));
            let action = string_of(action_chars.as_slice());
            let data = string_of(data_chars.as_slice());
            if str_eq(action.as_str(), "delete_session") {
                let directory = directory_of(sessions, data.as_str());
                DialogCommand::DeleteSession { session_id: data, directory }
            } else if str_eq(action.as_str(), "rename_session") {
                if !value.is_empty() {
                    let directory = directory_of(sessions, data.as_str());
                    DialogCommand::RenameSession { session_id: data, title: String::from_str(value), directory }
                } else {
                    DialogCommand::Ignore
                }
            } else if str_eq(action.as_str(), "set_auth") {
                DialogCommand::SetAuth { provider_id: data, key: String::from_str(value) }
            } else {
                DialogCommand::Ignore
            }
        },
        None => DialogCommand::Ignore,
    }
}

} // verus!
