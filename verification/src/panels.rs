//! The side panels: projects with their sessions, and how a project or a
//! session is labelled there.
use vstd::prelude::*;
use crate::diff::{total_additions, total_deletions, totals_fit};
use crate::strmap::StrMap;
use crate::tasks::{get_session_title, session_title};
use crate::text::{
    char_len_utf8, chars_of, int_decimal, push_int_decimal, push_str, str_eq, string_of, take_chars, trim,
    trim_chars, utf8_len, utf8_len_exceeds,
};
use crate::session_tree::{CachedProject, CachedSession};
use crate::types::{Project, Session, SessionSummary};

verus! {

/// The last component of a path, as std's `Path::file_name` gives it for a path
/// made of UTF-8 text.
pub uninterp spec fn path_file_name(p: Seq<char>) -> Option<Seq<char>>;

/// The last component of a path (std's `Path::file_name`), as text.
#[verifier::external_body]
pub(crate) fn file_name_of(path: &str) -> (r: Option<String>)
    ensures
        match r {
            Some(n) => path_file_name(path@) == Some(n@),
            None => path_file_name(path@) is None,
        },
{
    std::path::Path::new(path).file_name().and_then(|n| n.to_str()).map(|n| n.to_string())
}

/// The name shown for a project: its own name when it has one (one that is not
/// blank, when `trimmed`), else the last component of its worktree, "." standing
/// for the directory named `dir`.
pub open spec fn project_name(p: Project, dir: Seq<char>, trimmed: bool) -> Seq<char> {
    let named = match p.name {
        Some(n) => if trimmed { trim(n@).len() > 0 } else { n@.len() > 0 },
        None => false,
    };
    if named {
        p.name.unwrap()@
    } else {
        let w = if p.worktree@ == "."@ { dir } else { p.worktree@ };
        match path_file_name(w) {
            Some(f) => if f.len() > 0 { f } else { w },
            None => w,
        }
    }
}

/// The name shown for a project.
fn project_name_of(project: &Project, current_dir_name: &str, trimmed: bool) -> (r: String)
    ensures
        r@ == project_name(*project, current_dir_name@, trimmed),
{
    match &project.name {
        Some(name) => {
            let named = if trimmed {
                trim_chars(&chars_of(name.as_str())).len() > 0
            } else {
                !name.as_str().is_empty()
            };
            if named {
                return name.clone();
            }
        },
        None => {},
    }
    let worktree: &str = if str_eq(project.worktree.as_str(), ".") { current_dir_name } else { project.worktree.as_str() };
    match file_name_of(worktree) {
        Some(f) => if f.as_str().is_empty() { String::from_str(worktree) } else { f },
        None => String::from_str(worktree),
    }
}

/// The file count, additions and deletions shown for a session's changes: from
/// its file diffs when it has some, else from its summary's counts; nothing when
/// there is no change.
pub open spec fn diff_stats(sm: SessionSummary) -> Option<(Seq<char>, Seq<char>, Seq<char>)> {
    let files: int = if sm.diffs@.len() > 0 { sm.diffs@.len() as int } else { sm.files as int };
    let adds: int = if sm.diffs@.len() > 0 { total_additions(sm.diffs@) } else { sm.additions as int };
    let dels: int = if sm.diffs@.len() > 0 { total_deletions(sm.diffs@) } else { sm.deletions as int };
    if files <= 0 && adds == 0 && dels == 0 {
        None
    } else {
        Some((
            int_decimal(files) + (if files == 1 { " file"@ } else { " files"@ }),
            "+"@ + int_decimal(adds),
            "-"@ + int_decimal(dels),
        ))
    }
}

/// Whether the number of a summary's diffs and their running totals fit in an
/// `i64`.
pub open spec fn stats_fit(sm: SessionSummary) -> bool {
    sm.diffs@.len() <= i64::MAX && totals_fit(sm.diffs@)
}

/// The file count, additions and deletions shown for a session's changes.
pub fn session_diff_stats(summary: &SessionSummary) -> (r: Option<(String, String, String)>)
    requires
        stats_fit(*summary),
    ensures
        match r {
            Some(t) => diff_stats(*summary) == Some((t.0@, t.1@, t.2@)),
            None => diff_stats(*summary) is None,
        },
{
    let (files, additions, deletions): (i64, i64, i64) = if summary.diffs.len() > 0 {
        let mut adds: i64 = 0;
        let mut dels: i64 = 0;
        let mut k: usize = 0;
        let ghost ds = summary.diffs@;
        proof {
            assert(ds.take(0) =~= Seq::<crate::types::FileDiff>::empty());
        }
        while k < summary.diffs.len()
            invariant
                k <= summary.diffs.len(),
                ds == summary.diffs@,
                totals_fit(ds),
                adds as int == total_additions(ds.take(k as int)),
                dels as int == total_deletions(ds.take(k as int)),
            decreases summary.diffs.len() - k,
        {
            proof {
                assert(ds.take(k + 1).drop_last() =~= ds.take(k as int));
                assert(i64::MIN <= total_additions(ds.take(k + 1)) <= i64::MAX);
            }
            adds = adds + summary.diffs[k].additions;
            dels = dels + summary.diffs[k].deletions;
            k += 1;
        }
        proof {
            assert(ds.take(ds.len() as int) =~= ds);
        }
        (summary.diffs.len() as i64, adds, dels)
    } else {
        (summary.files, summary.additions, summary.deletions)
    };
    if files <= 0 && additions == 0 && deletions == 0 {
        return None;
    }
    let mut f: Vec<char> = Vec::new();
    push_int_decimal(files, &mut f);
    if files == 1 {
        push_str(&mut f, " file");
    } else {
        push_str(&mut f, " files");
    }
    let mut a: Vec<char> = Vec::new();
    push_str(&mut a, "+");
    push_int_decimal(additions, &mut a);
    let mut d: Vec<char> = Vec::new();
    push_str(&mut d, "-");
    push_int_decimal(deletions, &mut d);
    Some((string_of(f.as_slice()), string_of(a.as_slice()), string_of(d.as_slice())))
}

/// Whether `m` marks `k` (a key that is absent counts as unmarked).
pub open spec fn flag(m: Map<Seq<char>, bool>, k: Seq<char>) -> bool {
    m.contains_key(k) && m[k]
}

/// Whether `m` marks `k`.
fn flag_of(m: &StrMap<bool>, k: &str) -> (b: bool)
    ensures
        b == flag(m@, k@),
{
    match m.get(k) {
        Some(v) => *v,
        None => false,
    }
}

/// Whether an optional id is `id`.
pub open spec fn is_id(o: Option<String>, id: Seq<char>) -> bool {
    o matches Some(x) && x@ == id
}

fn opt_is(o: &Option<String>, id: &str) -> (b: bool)
    ensures
        b == is_id(*o, id@),
{
    match o {
        Some(x) => str_eq(x.as_str(), id),
        None => false,
    }
}

/// An entry of the projects panel.
pub enum PanelItemKind {
    ProjectHeader { project_id: Option<String>, display_name: String, chevron: String, project_working: bool },
    SessionRow {
        session_id: String,
        display_title: String,
        selected: bool,
        working: bool,
        menu_open: bool,
        summary: Option<(String, String, String)>,
    },
    Spacer,
    EmptyState,
}

/// An entry of the projects panel as plain values.
pub enum ItemView {
    Header { project_id: Option<Seq<char>>, display_name: Seq<char>, chevron: Seq<char>, project_working: bool },
    Row {
        session_id: Seq<char>,
        display_title: Seq<char>,
        selected: bool,
        working: bool,
        menu_open: bool,
        summary: Option<(Seq<char>, Seq<char>, Seq<char>)>,
    },
    Spacer,
    Empty,
}

impl View for PanelItemKind {
    type V = ItemView;

    open spec fn view(&self) -> ItemView {
        match self {
            PanelItemKind::ProjectHeader { project_id, display_name, chevron, project_working } => ItemView::Header {
                project_id: match project_id {
                    Some(p) => Some(p@),
                    None => None,
                },
                display_name: display_name@,
                chevron: chevron@,
                project_working: *project_working,
            },
            PanelItemKind::SessionRow { session_id, display_title, selected, working, menu_open, summary } => ItemView::Row {
                session_id: session_id@,
                display_title: display_title@,
                selected: *selected,
                working: *working,
                menu_open: *menu_open,
                summary: match summary {
                    Some(t) => Some((t.0@, t.1@, t.2@)),
                    None => None,
                },
            },
            PanelItemKind::Spacer => ItemView::Spacer,
            PanelItemKind::EmptyState => ItemView::Empty,
        }
    }
}

/// The views of a list of panel entries.
pub open spec fn item_views(v: Seq<PanelItemKind>) -> Seq<ItemView> {
    v.map_values(|i: PanelItemKind| i@)
}

/// What the projects panel knows and shows.
pub struct ProjectsPanel {
    pub projects: Vec<Project>,
    pub sessions: Vec<Session>,
    pub selected_session_id: Option<String>,
    pub working_by_session: StrMap<bool>,
    pub items: Vec<PanelItemKind>,
    pub dirty: bool,
    /// Which projects are folded, by id.
    pub collapsed_projects: StrMap<bool>,
    /// Whether the group of sessions without a known project is folded.
    pub other_collapsed: bool,
    pub open_menu_session_id: Option<String>,
    /// When false, only project headers are shown.
    pub show_sessions: bool,
    /// The name of the directory that a "." worktree stands for.
    pub current_dir_name: String,
}

/// The title of a session row: the session's title trimmed, cut to 45
/// characters and followed by an ellipsis when longer, or "Untitled session".
pub open spec fn row_title(s: Session) -> Seq<char> {
    let t = trim(session_title(s));
    if t.len() == 0 {
        "Untitled session"@
    } else if t.len() > 45 {
        t.take(45) + "…"@
    } else {
        t
    }
}

/// Whether every session's change counts can be added up.
pub open spec fn summaries_fit(ss: Seq<Session>) -> bool {
    forall|k: int| 0 <= k < ss.len() ==> ((#[trigger] ss[k]).summary matches Some(sm) ==> stats_fit(sm))
}

/// The row of a session.
pub open spec fn session_row(panel: ProjectsPanel, s: Session) -> ItemView {
    ItemView::Row {
        session_id: s.id@,
        display_title: row_title(s),
        selected: is_id(panel.selected_session_id, s.id@),
        working: flag(panel.working_by_session@, s.id@),
        menu_open: is_id(panel.open_menu_session_id, s.id@),
        summary: match s.summary {
            Some(sm) => diff_stats(sm),
            None => None,
        },
    }
}

/// The sessions of the project `pid`, in order.
pub open spec fn sessions_of(ss: Seq<Session>, pid: Seq<char>) -> Seq<Session>
    decreases ss.len(),
{
    if ss.len() == 0 {
        ss
    } else if ss.last().project_id@ == pid {
        sessions_of(ss.drop_last(), pid).push(ss.last())
    } else {
        sessions_of(ss.drop_last(), pid)
    }
}

/// Whether some project has the id `pid`.
pub open spec fn known_project(ps: Seq<Project>, pid: Seq<char>) -> bool {
    exists|j: int| 0 <= j < ps.len() && (#[trigger] ps[j]).id@ == pid
}

/// The sessions of no known project, in order.
pub open spec fn ungrouped_sessions(ss: Seq<Session>, ps: Seq<Project>) -> Seq<Session>
    decreases ss.len(),
{
    if ss.len() == 0 {
        ss
    } else if !known_project(ps, ss.last().project_id@) {
        ungrouped_sessions(ss.drop_last(), ps).push(ss.last())
    } else {
        ungrouped_sessions(ss.drop_last(), ps)
    }
}

/// A session is under "Other" in the projects panel exactly when it is one of
/// the panel's sessions and no project has its project id.
pub proof fn law_ungrouped_are_the_sessions_of_no_project(ss: Seq<Session>, ps: Seq<Project>, s: Session)
    ensures
        ungrouped_sessions(ss, ps).contains(s) <==> ss.contains(s) && !known_project(ps, s.project_id@),
    decreases ss.len(),
{
    if ss.len() > 0 {
        law_ungrouped_are_the_sessions_of_no_project(ss.drop_last(), ps, s);
        let r = ungrouped_sessions(ss.drop_last(), ps);
        let u = ungrouped_sessions(ss, ps);
        if ss.drop_last().contains(s) {
            let k = choose|k: int| 0 <= k < ss.drop_last().len() && ss.drop_last()[k] == s;
            assert(ss[k] == s);
        }
        if ss.contains(s) && s != ss.last() {
            let k = choose|k: int| 0 <= k < ss.len() && ss[k] == s;
            assert(ss.drop_last()[k] == s);
        }
        if !known_project(ps, ss.last().project_id@) {
            assert(u == r.push(ss.last()));
            assert(u[r.len() as int] == ss.last());
            if r.contains(s) {
                let k = choose|k: int| 0 <= k < r.len() && r[k] == s;
                assert(u[k] == s);
            }
            if u.contains(s) && s != ss.last() {
                let k = choose|k: int| 0 <= k < u.len() && u[k] == s;
                assert(r[k] == s);
            }
        }
    }
}

/// Whether some session of the list is working.
pub open spec fn any_working(panel: ProjectsPanel, ss: Seq<Session>) -> bool
    decreases ss.len(),
{
    if ss.len() == 0 {
        false
    } else {
        any_working(panel, ss.drop_last()) || flag(panel.working_by_session@, ss.last().id@)
    }
}

/// The rows of the sessions of a list.
pub open spec fn session_rows(panel: ProjectsPanel, ss: Seq<Session>) -> Seq<ItemView> {
    ss.map_values(|s: Session| session_row(panel, s))
}

/// The chevron of a folded or unfolded group.
pub open spec fn chevron(collapsed: bool) -> Seq<char> {
    if collapsed { ">"@ } else { "v"@ }
}

/// The entries of one project: nothing for the global project ("/") or one
/// without worktree; else its header, its sessions unless folded or hidden, and
/// a spacer.
pub open spec fn project_block(panel: ProjectsPanel, p: Project) -> Seq<ItemView> {
    if p.worktree@ == "/"@ || p.worktree@.len() == 0 {
        Seq::empty()
    } else {
        let name = project_name(p, panel.current_dir_name@, false);
        let collapsed = flag(panel.collapsed_projects@, p.id@);
        let ss = sessions_of(panel.sessions@, p.id@);
        seq![ItemView::Header {
            project_id: Some(p.id@),
            display_name: if trim(name).len() == 0 { "(project)"@ } else { name },
            chevron: chevron(collapsed),
            project_working: any_working(panel, ss),
        }] + (if !collapsed && panel.show_sessions { session_rows(panel, ss) } else { Seq::empty() })
            + seq![ItemView::Spacer]
    }
}

/// The entries of the projects of a list, one after the other.
pub open spec fn project_blocks(panel: ProjectsPanel, ps: Seq<Project>) -> Seq<ItemView>
    decreases ps.len(),
{
    if ps.len() == 0 {
        Seq::empty()
    } else {
        project_blocks(panel, ps.drop_last()) + project_block(panel, ps.last())
    }
}

/// The entries of the panel: each project's block, then "Other" with the
/// sessions of no known project, if any; a note that there is nothing when
/// there is nothing.
pub open spec fn panel_items(panel: ProjectsPanel) -> Seq<ItemView> {
    let a = project_blocks(panel, panel.projects@);
    let u = ungrouped_sessions(panel.sessions@, panel.projects@);
    let b = if u.len() > 0 {
        seq![ItemView::Header {
            project_id: None,
            display_name: "Other"@,
            chevron: chevron(panel.other_collapsed),
            project_working: any_working(panel, u),
        }] + (if !panel.other_collapsed && panel.show_sessions { session_rows(panel, u) } else { Seq::empty() })
    } else {
        Seq::empty()
    };
    if a.len() + b.len() == 0 { seq![ItemView::Empty] } else { a + b }
}

/// The title of a session row.
fn row_title_of(s: &Session) -> (r: String)
    ensures
        r@ == row_title(*s),
{
    let title = get_session_title(s);
    let t = trim_chars(&chars_of(title.as_str()));
    if t.len() == 0 {
        String::from_str("Untitled session")
    } else if t.len() > 45 {
        let mut out: Vec<char> = Vec::new();
        let mut k: usize = 0;
        while k < 45
            invariant
                k <= 45 < t.len(),
                out@ == t@.take(k as int),
            decreases 45 - k,
        {
            out.push(t[k]);
            proof {
                assert(out@ =~= t@.take(k + 1));
            }
            k += 1;
        }
        push_str(&mut out, "…");
        string_of(out.as_slice())
    } else {
        string_of(t.as_slice())
    }
}

impl ProjectsPanel {
    /// The name shown for a project: its name when it has one, else the last
    /// component of its worktree.
    pub fn derive_project_name(project: &Project, current_dir_name: &str) -> (r: String)
        ensures
            r@ == project_name(*project, current_dir_name@, false),
    {
        project_name_of(project, current_dir_name, false)
    }

    /// The file count, additions and deletions shown for a session's changes.
    pub fn session_diff_stats(summary: &SessionSummary) -> (r: Option<(String, String, String)>)
        requires
            stats_fit(*summary),
        ensures
            match r {
                Some(t) => diff_stats(*summary) == Some((t.0@, t.1@, t.2@)),
                None => diff_stats(*summary) is None,
            },
    {
        session_diff_stats(summary)
    }

    fn row_of(&self, s: &Session) -> (r: PanelItemKind)
        requires
            s.summary matches Some(sm) ==> stats_fit(sm),
        ensures
            r@ == session_row(*self, *s),
    {
        let summary = match &s.summary {
            Some(sm) => session_diff_stats(sm),
            None => None,
        };
        PanelItemKind::SessionRow {
            session_id: s.id.clone(),
            display_title: row_title_of(s),
            selected: opt_is(&self.selected_session_id, s.id.as_str()),
            working: flag_of(&self.working_by_session, s.id.as_str()),
            menu_open: opt_is(&self.open_menu_session_id, s.id.as_str()),
            summary,
        }
    }
}

impl ProjectsPanel {
    /// Whether some project has the id `pid`.
    fn is_known_project(&self, pid: &str) -> (b: bool)
        ensures
            b == known_project(self.projects@, pid@),
    {
        let mut j: usize = 0;
        while j < self.projects.len()
            invariant
                j <= self.projects.len(),
                forall|l: int| 0 <= l < j ==> (#[trigger] self.projects@[l]).id@ != pid@,
            decreases self.projects.len() - j,
        {
            if str_eq(self.projects[j].id.as_str(), pid) {
                return true;
            }
            j += 1;
        }
        false
    }

    /// The block of entries of one project.
    fn push_project_block(&self, items: &mut Vec<PanelItemKind>, p: &Project)
        requires
            summaries_fit(self.sessions@),
        ensures
            item_views(final(items)@) == item_views(old(items)@) + project_block(*self, *p),
    {
        let ghost i0 = item_views(items@);
        if str_eq(p.worktree.as_str(), "/") || p.worktree.as_str().is_empty() {
            assert(item_views(items@) =~= i0 + project_block(*self, *p));
            return;
        }
        let ghost ss = self.sessions@;
        let name = project_name_of(p, self.current_dir_name.as_str(), false);
        let collapsed = flag_of(&self.collapsed_projects, p.id.as_str());
        let display_name = if trim_chars(&chars_of(name.as_str())).len() == 0 { String::from_str("(project)") } else { name };
        let mut working = false;
        let mut k: usize = 0;
        proof {
            assert(ss.take(0) =~= Seq::<Session>::empty());
        }
        while k < self.sessions.len()
            invariant
                k <= self.sessions.len(),
                ss == self.sessions@,
                working == any_working(*self, sessions_of(ss.take(k as int), p.id@)),
            decreases self.sessions.len() - k,
        {
            let s = &self.sessions[k];
            proof {
                assert(ss.take(k + 1).drop_last() =~= ss.take(k as int));
                assert(ss.take(k + 1).last() == *s);
            }
            let ghost prev = sessions_of(ss.take(k as int), p.id@);
            if str_eq(s.project_id.as_str(), p.id.as_str()) {
                proof {
                    assert(sessions_of(ss.take(k + 1), p.id@) == prev.push(*s));
                    assert(prev.push(*s).drop_last() =~= prev);
                }
                if flag_of(&self.working_by_session, s.id.as_str()) {
                    working = true;
                }
            }
            k += 1;
        }
        proof {
            assert(ss.take(ss.len() as int) =~= ss);
        }
        items.push(PanelItemKind::ProjectHeader {
            project_id: Some(p.id.clone()),
            display_name,
            chevron: if collapsed { String::from_str(">") } else { String::from_str("v") },
            project_working: working,
        });
        let ghost i1 = item_views(items@);
        proof {
            assert(i1 =~= i0.push(items@.last()@));
        }
        if !collapsed && self.show_sessions {
            let mut k: usize = 0;
            proof {
                assert(session_rows(*self, sessions_of(ss.take(0), p.id@)) =~= Seq::<ItemView>::empty());
                assert(i1 =~= i1 + Seq::<ItemView>::empty());
            }
            while k < self.sessions.len()
                invariant
                    k <= self.sessions.len(),
                    ss == self.sessions@,
                    summaries_fit(ss),
                    item_views(items@) == i1 + session_rows(*self, sessions_of(ss.take(k as int), p.id@)),
                decreases self.sessions.len() - k,
            {
                let s = &self.sessions[k];
                proof {
                    assert(ss.take(k + 1).drop_last() =~= ss.take(k as int));
                    assert(ss.take(k + 1).last() == *s);
                    assert(ss[k as int] == *s);
                }
                if str_eq(s.project_id.as_str(), p.id.as_str()) {
                    let row = self.row_of(s);
                    let ghost b = item_views(items@);
                    items.push(row);
                    proof {
                        let prev = sessions_of(ss.take(k as int), p.id@);
                        assert(session_rows(*self, prev.push(*s)) =~= session_rows(*self, prev).push(session_row(*self, *s)));
                        assert(item_views(items@) =~= b.push(row@));
                    }
                }
                k += 1;
            }
            proof {
                assert(ss.take(ss.len() as int) =~= ss);
            }
        } else {
            assert(item_views(items@) =~= i1 + Seq::<ItemView>::empty());
        }
        let ghost i2 = item_views(items@);
        items.push(PanelItemKind::Spacer);
        proof {
            assert(item_views(items@) =~= i2.push(ItemView::Spacer));
            assert(item_views(items@) =~= i0 + project_block(*self, *p));
        }
    }

    /// The entries of the panel.
    fn build_items(&self) -> (r: Vec<PanelItemKind>)
        requires
            summaries_fit(self.sessions@),
        ensures
            item_views(r@) == panel_items(*self),
    {
        let ghost ps = self.projects@;
        let ghost ss = self.sessions@;
        let mut items: Vec<PanelItemKind> = Vec::new();
        let mut i: usize = 0;
        proof {
            assert(ps.take(0) =~= Seq::<Project>::empty());
            assert(item_views(items@) =~= Seq::<ItemView>::empty());
        }
        while i < self.projects.len()
            invariant
                i <= self.projects.len(),
                ps == self.projects@,
                summaries_fit(self.sessions@),
                item_views(items@) == project_blocks(*self, ps.take(i as int)),
            decreases self.projects.len() - i,
        {
            proof {
                assert(ps.take(i + 1).drop_last() =~= ps.take(i as int));
                assert(ps.take(i + 1).last() == self.projects@[i as int]);
            }
            self.push_project_block(&mut items, &self.projects[i]);
            i += 1;
        }
        proof {
            assert(ps.take(ps.len() as int) =~= ps);
        }
        let ghost a = item_views(items@);
        let mut any = false;
        let mut working = false;
        let mut k: usize = 0;
        proof {
            assert(ss.take(0) =~= Seq::<Session>::empty());
        }
        while k < self.sessions.len()
            invariant
                k <= self.sessions.len(),
                ss == self.sessions@,
                ps == self.projects@,
                any == (ungrouped_sessions(ss.take(k as int), ps).len() > 0),
                working == any_working(*self, ungrouped_sessions(ss.take(k as int), ps)),
            decreases self.sessions.len() - k,
        {
            let s = &self.sessions[k];
            proof {
                assert(ss.take(k + 1).drop_last() =~= ss.take(k as int));
                assert(ss.take(k + 1).last() == *s);
            }
            let ghost prev = ungrouped_sessions(ss.take(k as int), ps);
            if !self.is_known_project(s.project_id.as_str()) {
                proof {
                    assert(ungrouped_sessions(ss.take(k + 1), ps) == prev.push(*s));
                    assert(prev.push(*s).drop_last() =~= prev);
                }
                any = true;
                if flag_of(&self.working_by_session, s.id.as_str()) {
                    working = true;
                }
            }
            k += 1;
        }
        proof {
            assert(ss.take(ss.len() as int) =~= ss);
        }
        let ghost u = ungrouped_sessions(ss, ps);
        if any {
            items.push(PanelItemKind::ProjectHeader {
                project_id: None,
                display_name: String::from_str("Other"),
                chevron: if self.other_collapsed { String::from_str(">") } else { String::from_str("v") },
                project_working: working,
            });
            let ghost a1 = item_views(items@);
            proof {
                assert(a1 =~= a.push(items@.last()@));
            }
            if !self.other_collapsed && self.show_sessions {
                let mut k: usize = 0;
                proof {
                    assert(session_rows(*self, ungrouped_sessions(ss.take(0), ps)) =~= Seq::<ItemView>::empty());
                    assert(a1 =~= a1 + Seq::<ItemView>::empty());
                }
                while k < self.sessions.len()
                    invariant
                        k <= self.sessions.len(),
                        ss == self.sessions@,
                        ps == self.projects@,
                        summaries_fit(ss),
                        item_views(items@) == a1 + session_rows(*self, ungrouped_sessions(ss.take(k as int), ps)),
                    decreases self.sessions.len() - k,
                {
                    let s = &self.sessions[k];
                    proof {
                        assert(ss.take(k + 1).drop_last() =~= ss.take(k as int));
                        assert(ss.take(k + 1).last() == *s);
                        assert(ss[k as int] == *s);
                    }
                    if !self.is_known_project(s.project_id.as_str()) {
                        let row = self.row_of(s);
                        let ghost b = item_views(items@);
                        items.push(row);
                        proof {
                            let prev = ungrouped_sessions(ss.take(k as int), ps);
                            assert(session_rows(*self, prev.push(*s)) =~= session_rows(*self, prev).push(session_row(*self, *s)));
                            assert(item_views(items@) =~= b.push(row@));
                        }
                    }
                    k += 1;
                }
                proof {
                    assert(ss.take(ss.len() as int) =~= ss);
                }
            } else {
                assert(item_views(items@) =~= a1 + Seq::<ItemView>::empty());
            }
        }
        if items.len() == 0 {
            items.push(PanelItemKind::EmptyState);
            proof {
                assert(item_views(items@) =~= seq![ItemView::Empty]);
            }
        } else {
            proof {
                if u.len() == 0 {
                    assert(item_views(items@) =~= a + Seq::<ItemView>::empty());
                }
            }
        }
        items
    }

    /// Rebuilds the panel's entries from its projects and sessions.
    pub fn rebuild_items(&mut self)
        requires
            summaries_fit(old(self).sessions@),
        ensures
            item_views(final(self).items@) == panel_items(*old(self)),
            !final(self).dirty,
            *final(self) == (ProjectsPanel { items: final(self).items, dirty: false, ..*old(self) }),
    {
        let items = self.build_items();
        self.items = items;
        self.dirty = false;
    }
}

/// The longest start of `s` whose UTF-8 encoding takes at most `n` bytes.
pub open spec fn byte_cut(s: Seq<char>, n: nat) -> Seq<char> {
    s.take(choose|k: int| 0 <= k <= s.len() && utf8_len(#[trigger] s.take(k)) <= n
        && (k == s.len() || utf8_len(s.take(k + 1)) > n))
}

proof fn lemma_take_bytes_grow(s: Seq<char>, k1: int, k2: int)
    requires
        0 <= k1 <= k2 <= s.len(),
    ensures
        utf8_len(s.take(k1)) <= utf8_len(s.take(k2)),
        k1 < k2 ==> utf8_len(s.take(k1)) < utf8_len(s.take(k2)),
    decreases k2 - k1,
{
    if k1 < k2 {
        assert(s.take(k2).drop_last() =~= s.take(k2 - 1));
        lemma_take_bytes_grow(s, k1, k2 - 1);
    }
}

/// The longest start of `s` that takes at most `n` bytes.
pub(crate) fn cut_to_bytes(s: &Vec<char>, n: u64) -> (r: Vec<char>)
    requires
        n <= 4096,
    ensures
        r@ == byte_cut(s@, n as nat),
{
    let mut total: u64 = 0;
    let mut k: usize = 0;
    let mut out: Vec<char> = Vec::new();
    proof {
        assert(s@.take(0) =~= Seq::<char>::empty());
    }
    while k < s.len() && total + char_len_utf8(s[k]) <= n
        invariant
            k <= s.len(),
            n <= 4096,
            total <= n,
            total == utf8_len(s@.take(k as int)),
            out@ == s@.take(k as int),
        decreases s.len() - k,
    {
        proof {
            assert(s@.take(k + 1).drop_last() =~= s@.take(k as int));
        }
        total = total + char_len_utf8(s[k]);
        out.push(s[k]);
        proof {
            assert(out@ =~= s@.take(k + 1));
        }
        k += 1;
    }
    proof {
        if k < s.len() {
            assert(s@.take(k + 1).drop_last() =~= s@.take(k as int));
        }
        let w = choose|j: int| 0 <= j <= s@.len() && utf8_len(#[trigger] s@.take(j)) <= n
            && (j == s@.len() || utf8_len(s@.take(j + 1)) > n);
        assert(0 <= k <= s@.len() && utf8_len(s@.take(k as int)) <= n
            && (k == s@.len() || utf8_len(s@.take(k + 1)) > n));
        if w < k {
            lemma_take_bytes_grow(s@, w + 1, k as int);
        } else if k < w {
            lemma_take_bytes_grow(s@, k + 1, w);
        }
        assert(w == k);
    }
    out
}

/// What the sessions panel knows about the sessions it shows.
pub struct SessionsPanel {
    pub projects: Vec<Project>,
    pub sessions: Vec<Session>,
    pub selected_session_id: Option<String>,
    pub working_by_session: StrMap<bool>,
    /// The name of the directory that a "." worktree stands for.
    pub current_dir_name: String,
    pub dirty: bool,
    /// The tree groups of the listed projects.
    pub cached_projects: Vec<CachedProject>,
    /// The tree entries under "Other".
    pub cached_other_sessions: Vec<CachedSession>,
}

/// The title in a session's label: its title trimmed, or "Untitled session".
pub open spec fn label_title(s: Session) -> Seq<char> {
    let t = trim(session_title(s));
    if t.len() == 0 { "Untitled session"@ } else { t }
}

/// The label of a session in the sessions panel: its title (cut to 40 bytes and
/// an ellipsis when longer than 60 bytes), its change counts, a dot while it is
/// working and "(selected)" when it is selected.
pub open spec fn session_label(panel: SessionsPanel, s: Session) -> Seq<char> {
    let t = label_title(s);
    let title = if utf8_len(t) > 60 { byte_cut(t, 40) + "…"@ } else { t };
    let stats = match s.summary {
        Some(sm) => match diff_stats(sm) {
            Some((f, a, d)) => "   "@ + f + "  "@ + a + "  "@ + d,
            None => Seq::empty(),
        },
        None => Seq::empty(),
    };
    let working = if flag(panel.working_by_session@, s.id@) { "   ●"@ } else { Seq::empty() };
    let selected = if is_id(panel.selected_session_id, s.id@) { "   (selected)"@ } else { Seq::empty() };
    title + stats + working + selected
}

impl ProjectsPanel {
    /// Takes in new projects, sessions, selection and working flags; the
    /// entries are rebuilt before they are next drawn.
    pub fn set_data(
        &mut self,
        projects: Vec<Project>,
        sessions: Vec<Session>,
        selected_session_id: Option<String>,
        working_by_session: StrMap<bool>,
    )
        ensures
            *final(self) == (ProjectsPanel {
                projects,
                sessions,
                selected_session_id,
                working_by_session,
                dirty: true,
                ..*old(self)
            }),
    {
        self.projects = projects;
        self.sessions = sessions;
        self.selected_session_id = selected_session_id;
        self.working_by_session = working_by_session;
        self.dirty = true;
    }

    /// Shows the session rows, or only the project headers; the entries are
    /// rebuilt when this changes anything.
    pub fn set_show_sessions(&mut self, show: bool)
        ensures
            *final(self) == (ProjectsPanel {
                show_sessions: show,
                dirty: old(self).dirty || old(self).show_sessions != show,
                ..*old(self)
            }),
    {
        if self.show_sessions != show {
            self.show_sessions = show;
            self.dirty = true;
        }
    }

    /// Folds the group of a project when it is unfolded, and unfolds it when
    /// folded; no id stands for the "Other" group.
    pub fn toggle_project(&mut self, project_id: Option<&str>)
        ensures
            match project_id {
                Some(p) => final(self).collapsed_projects@ == old(self).collapsed_projects@.insert(
                    p@,
                    !flag(old(self).collapsed_projects@, p@),
                ) && final(self).other_collapsed == old(self).other_collapsed,
                None => final(self).other_collapsed == !old(self).other_collapsed
                    && final(self).collapsed_projects == old(self).collapsed_projects,
            },
            final(self).dirty,
            final(self).projects == old(self).projects,
            final(self).sessions == old(self).sessions,
            final(self).items == old(self).items,
            final(self).selected_session_id == old(self).selected_session_id,
            final(self).working_by_session == old(self).working_by_session,
            final(self).open_menu_session_id == old(self).open_menu_session_id,
            final(self).show_sessions == old(self).show_sessions,
            final(self).current_dir_name == old(self).current_dir_name,
    {
        match project_id {
            Some(p) => {
                let collapsed = flag_of(&self.collapsed_projects, p);
                self.collapsed_projects.insert(String::from_str(p), !collapsed);
            },
            None => {
                self.other_collapsed = !self.other_collapsed;
            },
        }
        self.dirty = true;
    }

    /// Folding a group twice leaves every group as folded as it was.
    pub proof fn law_toggle_twice_restores(m: Map<Seq<char>, bool>, p: Seq<char>, q: Seq<char>)
        ensures
            ({
                let once = m.insert(p, !flag(m, p));
                let twice = once.insert(p, !flag(once, p));
                flag(twice, q) == flag(m, q)
            }),
    {
    }

    /// Closes the menu of a session row.
    pub fn close_menu(&mut self)
        ensures
            *final(self) == (ProjectsPanel { open_menu_session_id: None, ..*old(self) }),
    {
        self.open_menu_session_id = None;
    }
}

impl SessionsPanel {
    /// The name shown for a project: its name when it is not blank, else the
    /// last component of its worktree.
    pub fn derive_project_name(project: &Project, current_dir_name: &str) -> (r: String)
        ensures
            r@ == project_name(*project, current_dir_name@, true),
    {
        project_name_of(project, current_dir_name, true)
    }

    /// The file count, additions and deletions shown for a session's changes.
    pub fn session_diff_stats(summary: &SessionSummary) -> (r: Option<(String, String, String)>)
        requires
            stats_fit(*summary),
        ensures
            match r {
                Some(t) => diff_stats(*summary) == Some((t.0@, t.1@, t.2@)),
                None => diff_stats(*summary) is None,
            },
    {
        session_diff_stats(summary)
    }

    /// The label of a session in the panel.
    pub fn session_display_label(&self, session: &Session) -> (r: String)
        requires
            session.summary matches Some(sm) ==> stats_fit(sm),
        ensures
            r@ == session_label(*self, *session),
    {
        let mut label = shown_label_title(session);
        let ghost l0 = label@;
        push_stats(&mut label, session);
        let ghost l1 = label@;
        if flag_of(&self.working_by_session, session.id.as_str()) {
            push_str(&mut label, "   ●");
        }
        let ghost l2 = label@;
        if opt_is(&self.selected_session_id, session.id.as_str()) {
            push_str(&mut label, "   (selected)");
        }
        proof {
            let t = label_title(*session);
            let title = if utf8_len(t) > 60 { byte_cut(t, 40) + "…"@ } else { t };
            assert(l0 == title);
            let working = if flag(self.working_by_session@, session.id@) { "   ●"@ } else { Seq::<char>::empty() };
            let selected = if is_id(self.selected_session_id, session.id@) { "   (selected)"@ } else { Seq::<char>::empty() };
            assert(l2 =~= l1 + working);
            assert(label@ =~= l2 + selected);
        }
        string_of(label.as_slice())
    }
}

/// The title part of a session's label.
fn shown_label_title(session: &Session) -> (r: Vec<char>)
    ensures
        r@ == (if utf8_len(label_title(*session)) > 60 {
            byte_cut(label_title(*session), 40) + "…"@
        } else {
            label_title(*session)
        }),
{
    let title = get_session_title(session);
    let trimmed = trim_chars(&chars_of(title.as_str()));
    let t: Vec<char> = if trimmed.len() == 0 { chars_of("Untitled session") } else { trimmed };
    if utf8_len_exceeds(&t, 60) {
        let mut cut = cut_to_bytes(&t, 40);
        push_str(&mut cut, "…");
        cut
    } else {
        t
    }
}

/// Appends the change counts of a session's label.
fn push_stats(label: &mut Vec<char>, session: &Session)
    requires
        session.summary matches Some(sm) ==> stats_fit(sm),
    ensures
        final(label)@ == old(label)@ + match session.summary {
            Some(sm) => match diff_stats(sm) {
                Some((f, a, d)) => "   "@ + f + "  "@ + a + "  "@ + d,
                None => Seq::<char>::empty(),
            },
            None => Seq::<char>::empty(),
        },
{
    let ghost l0 = label@;
    match &session.summary {
        Some(sm) => match session_diff_stats(sm) {
            Some((files, adds, dels)) => {
                push_str(label, "   ");
                push_str(label, files.as_str());
                push_str(label, "  ");
                push_str(label, adds.as_str());
                push_str(label, "  ");
                push_str(label, dels.as_str());
                proof {
                    assert(label@ =~= l0 + ("   "@ + files@ + "  "@ + adds@ + "  "@ + dels@));
                }
            },
            None => {
                assert(label@ =~= l0 + Seq::<char>::empty());
            },
        },
        None => {
            assert(label@ =~= l0 + Seq::<char>::empty());
        },
    }
}

} // verus!
