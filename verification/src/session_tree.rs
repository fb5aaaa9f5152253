//! The sessions panel's tree: the listed projects with their sessions, then
//! the sessions of no listed project under "Other".
use vstd::prelude::*;
use crate::panels::{project_name, session_label, sessions_of, stats_fit, summaries_fit, SessionsPanel};
use crate::strmap::StrMap;
use crate::text::{str_eq, views};
use crate::types::{Project, Session};

verus! {

/// A session of the tree: its id and its label.
pub struct CachedSession {
    pub id: String,
    pub label: String,
}

/// A group of the tree: the project's id (none for "Other"), its name and its sessions.
pub struct CachedProject {
    pub id: Option<String>,
    pub name: String,
    pub sessions: Vec<CachedSession>,
}

/// A group of the tree as plain values.
pub struct CachedProjectView {
    pub id: Option<Seq<char>>,
    pub name: Seq<char>,
    pub sessions: Seq<(Seq<char>, Seq<char>)>,
}

/// The (id, label) pairs of a list of tree sessions.
pub open spec fn cached_session_views(v: Seq<CachedSession>) -> Seq<(Seq<char>, Seq<char>)> {
    v.map_values(|c: CachedSession| (c.id@, c.label@))
}

/// The views of a list of tree groups.
pub open spec fn cached_project_views(v: Seq<CachedProject>) -> Seq<CachedProjectView> {
    v.map_values(|c: CachedProject| CachedProjectView {
        id: match c.id {
            Some(i) => Some(i@),
            None => None,
        },
        name: c.name@,
        sessions: cached_session_views(c.sessions@),
    })
}

/// Whether the tree lists a project: not the global project ("/"), not one
/// without a worktree.
pub open spec fn listed(p: Project) -> bool {
    p.worktree@ != "/"@ && p.worktree@.len() > 0
}

/// Whether some listed project has the id `pid`.
pub open spec fn listed_id(ps: Seq<Project>, pid: Seq<char>) -> bool {
    exists|j: int| 0 <= j < ps.len() && listed(#[trigger] ps[j]) && ps[j].id@ == pid
}

/// The (id, label) pairs of a list of sessions, as the panel labels them.
pub open spec fn session_entries(panel: SessionsPanel, ss: Seq<Session>) -> Seq<(Seq<char>, Seq<char>)> {
    ss.map_values(|s: Session| (s.id@, session_label(panel, s)))
}

/// The groups of the listed projects, in project order, each with the
/// sessions of its project in session order.
pub open spec fn project_groups(panel: SessionsPanel, ps: Seq<Project>) -> Seq<CachedProjectView>
    decreases ps.len(),
{
    if ps.len() == 0 {
        Seq::empty()
    } else {
        let rest = project_groups(panel, ps.drop_last());
        let p = ps.last();
        if listed(p) {
            rest.push(CachedProjectView {
                id: Some(p.id@),
                name: project_name(p, panel.current_dir_name@, true),
                sessions: session_entries(panel, sessions_of(panel.sessions@, p.id@)),
            })
        } else {
            rest
        }
    }
}

/// The project ids of the sessions that no listed project owns, each once, in
/// the order in which they first occur.
pub open spec fn other_ids(ss: Seq<Session>, ps: Seq<Project>) -> Seq<Seq<char>>
    decreases ss.len(),
{
    if ss.len() == 0 {
        Seq::empty()
    } else {
        let rest = other_ids(ss.drop_last(), ps);
        let pid = ss.last().project_id@;
        if !listed_id(ps, pid) && !rest.contains(pid) {
            rest.push(pid)
        } else {
            rest
        }
    }
}

/// The sessions of each project id of a list, id after id.
pub open spec fn sessions_of_ids(ss: Seq<Session>, ids: Seq<Seq<char>>) -> Seq<Session>
    decreases ids.len(),
{
    if ids.len() == 0 {
        Seq::empty()
    } else {
        sessions_of_ids(ss, ids.drop_last()) + sessions_of(ss, ids.last())
    }
}

/// The sessions under "Other": those of no listed project, grouped by project
/// id in the order in which the ids first occur.
pub open spec fn other_sessions(ss: Seq<Session>, ps: Seq<Project>) -> Seq<Session> {
    sessions_of_ids(ss, other_ids(ss, ps))
}

/// Whether some listed project of the list has the id `pid`.
fn is_listed_id(projects: &Vec<Project>, pid: &str) -> (b: bool)
    ensures
        b == listed_id(projects@, pid@),
{
    let mut j: usize = 0;
    while j < projects.len()
        invariant
            j <= projects.len(),
            forall|l: int| 0 <= l < j ==> !(listed(#[trigger] projects@[l]) && projects@[l].id@ == pid@),
        decreases projects.len() - j,
    {
        let p = &projects[j];
        let w = p.worktree.as_str();
        if !str_eq(w, "/") && !w.is_empty() && str_eq(p.id.as_str(), pid) {
            return true;
        }
        j += 1;
    }
    false
}

/// Whether a list of strings holds `x`.
fn holds(v: &Vec<String>, x: &str) -> (b: bool)
    ensures
        b == views(v@).contains(x@),
{
    let mut j: usize = 0;
    while j < v.len()
        invariant
            j <= v.len(),
            forall|l: int| 0 <= l < j ==> views(v@)[l] != x@,
        decreases v.len() - j,
    {
        if str_eq(v[j].as_str(), x) {
            assert(views(v@)[j as int] == x@);
            return true;
        }
        j += 1;
    }
    false
}

impl SessionsPanel {
    /// The tree entries of the sessions of the project `pid`, in session order.
    fn entries_of_project(&self, pid: &str) -> (r: Vec<CachedSession>)
        requires
            summaries_fit(self.sessions@),
        ensures
            cached_session_views(r@) == session_entries(*self, sessions_of(self.sessions@, pid@)),
    {
        let mut out: Vec<CachedSession> = Vec::new();
        let mut k: usize = 0;
        proof {
            assert(self.sessions@.take(0) =~= Seq::<Session>::empty());
        }
        while k < self.sessions.len()
            invariant
                k <= self.sessions.len(),
                summaries_fit(self.sessions@),
                cached_session_views(out@) == session_entries(*self, sessions_of(self.sessions@.take(k as int), pid@)),
            decreases self.sessions.len() - k,
        {
            let s = &self.sessions[k];
            let ghost before = sessions_of(self.sessions@.take(k as int), pid@);
            proof {
                assert(self.sessions@.take(k + 1).drop_last() =~= self.sessions@.take(k as int));
                assert(self.sessions@.take(k + 1).last() == *s);
            }
            if str_eq(s.project_id.as_str(), pid) {
                proof {
                    assert(summaries_fit(self.sessions@) ==> (self.sessions@[k as int].summary matches Some(sm) ==> stats_fit(sm)));
                }
                let label = self.session_display_label(s);
                let ghost o0 = cached_session_views(out@);
                out.push(CachedSession { id: s.id.clone(), label });
                proof {
                    assert(sessions_of(self.sessions@.take(k + 1), pid@) == before.push(*s));
                    assert(cached_session_views(out@) =~= o0.push((s.id@, session_label(*self, *s))));
                    assert(session_entries(*self, before.push(*s)) =~= session_entries(*self, before).push((s.id@, session_label(*self, *s))));
                }
            }
            k += 1;
        }
        proof {
            assert(self.sessions@.take(k as int) =~= self.sessions@);
        }
        out
    }

    /// The project ids under "Other", each once, in the order in which they first occur.
    fn other_project_ids(&self) -> (r: Vec<String>)
        ensures
            views(r@) == other_ids(self.sessions@, self.projects@),
    {
        let mut ids: Vec<String> = Vec::new();
        let mut k: usize = 0;
        proof {
            assert(self.sessions@.take(0) =~= Seq::<Session>::empty());
        }
        while k < self.sessions.len()
            invariant
                k <= self.sessions.len(),
                views(ids@) == other_ids(self.sessions@.take(k as int), self.projects@),
            decreases self.sessions.len() - k,
        {
            let s = &self.sessions[k];
            proof {
                assert(self.sessions@.take(k + 1).drop_last() =~= self.sessions@.take(k as int));
                assert(self.sessions@.take(k + 1).last() == *s);
            }
            if !is_listed_id(&self.projects, s.project_id.as_str()) && !holds(&ids, s.project_id.as_str()) {
                let ghost i0 = views(ids@);
                ids.push(s.project_id.clone());
                assert(views(ids@) =~= i0.push(s.project_id@));
            }
            k += 1;
        }
        proof {
            assert(self.sessions@.take(k as int) =~= self.sessions@);
        }
        ids
    }

    /// Rebuilds the tree from the projects and sessions the panel holds: one
    /// group per listed project with its sessions, then the sessions of no
    /// listed project under "Other".
    pub fn rebuild_cache(&mut self)
        requires
            summaries_fit(old(self).sessions@),
        ensures
            cached_project_views(final(self).cached_projects@) == project_groups(*old(self), old(self).projects@),
            cached_session_views(final(self).cached_other_sessions@) == session_entries(
                *old(self),
                other_sessions(old(self).sessions@, old(self).projects@),
            ),
            !final(self).dirty,
            final(self).projects == old(self).projects,
            final(self).sessions == old(self).sessions,
            final(self).selected_session_id == old(self).selected_session_id,
            final(self).working_by_session == old(self).working_by_session,
            final(self).current_dir_name == old(self).current_dir_name,
    {
        let mut groups: Vec<CachedProject> = Vec::new();
        let mut i: usize = 0;
        proof {
            assert(self.projects@.take(0) =~= Seq::<Project>::empty());
        }
        while i < self.projects.len()
            invariant
                i <= self.projects.len(),
                summaries_fit(self.sessions@),
                cached_project_views(groups@) == project_groups(*self, self.projects@.take(i as int)),
            decreases self.projects.len() - i,
        {
            let p = &self.projects[i];
            proof {
                assert(self.projects@.take(i + 1).drop_last() =~= self.projects@.take(i as int));
                assert(self.projects@.take(i + 1).last() == *p);
            }
            let w = p.worktree.as_str();
            if !str_eq(w, "/") && !w.is_empty() {
                let name = SessionsPanel::derive_project_name(p, self.current_dir_name.as_str());
                let sessions = self.entries_of_project(p.id.as_str());
                let ghost g0 = cached_project_views(groups@);
                groups.push(CachedProject { id: Some(p.id.clone()), name, sessions });
                proof {
                    assert(cached_project_views(groups@) =~= g0.push(cached_project_views(groups@).last()));
                }
            }
            i += 1;
        }
        proof {
            assert(self.projects@.take(i as int) =~= self.projects@);
        }
        let ids = self.other_project_ids();
        let mut others: Vec<CachedSession> = Vec::new();
        let mut j: usize = 0;
        while j < ids.len()
            invariant
                j <= ids.len(),
                summaries_fit(self.sessions@),
                views(ids@) == other_ids(self.sessions@, self.projects@),
                cached_session_views(others@) == session_entries(*self, sessions_of_ids(self.sessions@, views(ids@).take(j as int))),
            decreases ids.len() - j,
        {
            let more = self.entries_of_project(ids[j].as_str());
            let ghost o0 = others@;
            let mut more_mut = more;
            others.append(&mut more_mut);
            proof {
                let vs = views(ids@);
                assert(vs.take(j + 1).drop_last() =~= vs.take(j as int));
                assert(vs.take(j + 1).last() == ids@[j as int]@);
                let a = sessions_of_ids(self.sessions@, vs.take(j as int));
                let b = sessions_of(self.sessions@, ids@[j as int]@);
                assert(session_entries(*self, a + b) =~= session_entries(*self, a) + session_entries(*self, b));
                assert(cached_session_views(others@) =~= cached_session_views(o0) + cached_session_views(more@));
            }
            j += 1;
        }
        proof {
            assert(views(ids@).take(j as int) =~= views(ids@));
        }
        self.cached_projects = groups;
        self.cached_other_sessions = others;
        self.dirty = false;
    }

    /// Selects the session `session_id` after a click on it; the tree is
    /// rebuilt before it is next drawn.
    pub fn select_session(&mut self, session_id: String)
        ensures
            *final(self) == (SessionsPanel { selected_session_id: Some(session_id), dirty: true, ..*old(self) }),
    {
        self.selected_session_id = Some(session_id);
        self.dirty = true;
    }

    /// Whether the session `session_id` is working, as its context menu needs to know.
    pub fn session_working(&self, session_id: &str) -> (b: bool)
        ensures
            b == crate::panels::flag(self.working_by_session@, session_id@),
    {
        match self.working_by_session.get(session_id) {
            Some(w) => *w,
            None => false,
        }
    }

    /// Takes in new projects, sessions, selection and working flags; the tree
    /// is rebuilt before it is next drawn.
    pub fn set_data(
        &mut self,
        projects: Vec<Project>,
        sessions: Vec<Session>,
        selected_session_id: Option<String>,
        working_by_session: StrMap<bool>,
    )
        ensures
            final(self).projects == projects,
            final(self).sessions == sessions,
            final(self).selected_session_id == selected_session_id,
            final(self).working_by_session == working_by_session,
            final(self).dirty,
            final(self).current_dir_name == old(self).current_dir_name,
            final(self).cached_projects == old(self).cached_projects,
            final(self).cached_other_sessions == old(self).cached_other_sessions,
    {
        self.projects = projects;
        self.sessions = sessions;
        self.selected_session_id = selected_session_id;
        self.working_by_session = working_by_session;
        self.dirty = true;
    }
}

proof fn lemma_sessions_of_holds(ss: Seq<Session>, pid: Seq<char>, s: Session)
    ensures
        sessions_of(ss, pid).contains(s) <==> ss.contains(s) && s.project_id@ == pid,
    decreases ss.len(),
{
    if ss.len() > 0 {
        lemma_sessions_of_holds(ss.drop_last(), pid, s);
        assert(ss =~= ss.drop_last().push(ss.last()));
        if ss.drop_last().contains(s) {
            let k = choose|k: int| 0 <= k < ss.drop_last().len() && ss.drop_last()[k] == s;
            assert(ss[k] == s);
        }
        if ss.contains(s) && s != ss.last() {
            let k = choose|k: int| 0 <= k < ss.len() && ss[k] == s;
            assert(ss.drop_last()[k] == s);
        }
        let r = sessions_of(ss.drop_last(), pid);
        if ss.last().project_id@ == pid {
            assert(sessions_of(ss, pid) == r.push(ss.last()));
            assert(sessions_of(ss, pid)[r.len() as int] == ss.last());
            if r.contains(s) {
                let k = choose|k: int| 0 <= k < r.len() && r[k] == s;
                assert(sessions_of(ss, pid)[k] == s);
            }
            if sessions_of(ss, pid).contains(s) && s != ss.last() {
                let k = choose|k: int| 0 <= k < r.len() + 1 && sessions_of(ss, pid)[k] == s;
                assert(r[k] == s);
            }
        }
    }
}

proof fn lemma_sessions_of_ids_holds(ss: Seq<Session>, ids: Seq<Seq<char>>, s: Session)
    ensures
        sessions_of_ids(ss, ids).contains(s) <==> ss.contains(s) && ids.contains(s.project_id@),
    decreases ids.len(),
{
    if ids.len() > 0 {
        lemma_sessions_of_ids_holds(ss, ids.drop_last(), s);
        lemma_sessions_of_holds(ss, ids.last(), s);
        let a = sessions_of_ids(ss, ids.drop_last());
        let b = sessions_of(ss, ids.last());
        assert(sessions_of_ids(ss, ids) == a + b);
        if a.contains(s) {
            let k = choose|k: int| 0 <= k < a.len() && a[k] == s;
            assert((a + b)[k] == s);
        }
        if b.contains(s) {
            let k = choose|k: int| 0 <= k < b.len() && b[k] == s;
            assert((a + b)[a.len() + k] == s);
        }
        if (a + b).contains(s) {
            let k = choose|k: int| 0 <= k < (a + b).len() && (a + b)[k] == s;
            if k < a.len() {
                assert(a[k] == s);
            } else {
                assert(b[k - a.len()] == s);
            }
        }
        if ids.drop_last().contains(s.project_id@) {
            let k = choose|k: int| 0 <= k < ids.drop_last().len() && ids.drop_last()[k] == s.project_id@;
            assert(ids[k] == s.project_id@);
        }
        if ids.contains(s.project_id@) && ids.last() != s.project_id@ {
            let k = choose|k: int| 0 <= k < ids.len() && ids[k] == s.project_id@;
            assert(ids.drop_last()[k] == s.project_id@);
        }
    }
}

proof fn lemma_other_ids_holds(ss: Seq<Session>, ps: Seq<Project>, pid: Seq<char>)
    ensures
        other_ids(ss, ps).contains(pid) <==> !listed_id(ps, pid) && exists|k: int| 0 <= k < ss.len() && (#[trigger] ss[k]).project_id@ == pid,
    decreases ss.len(),
{
    if ss.len() > 0 {
        lemma_other_ids_holds(ss.drop_last(), ps, pid);
        let r = other_ids(ss.drop_last(), ps);
        let o = other_ids(ss, ps);
        if exists|k: int| 0 <= k < ss.drop_last().len() && (#[trigger] ss.drop_last()[k]).project_id@ == pid {
            let k = choose|k: int| 0 <= k < ss.drop_last().len() && (#[trigger] ss.drop_last()[k]).project_id@ == pid;
            assert(ss[k].project_id@ == pid);
        }
        if exists|k: int| 0 <= k < ss.len() && (#[trigger] ss[k]).project_id@ == pid {
            let k = choose|k: int| 0 <= k < ss.len() && (#[trigger] ss[k]).project_id@ == pid;
            if k < ss.len() - 1 {
                assert(ss.drop_last()[k].project_id@ == pid);
            }
        }
        if o != r {
            assert(o == r.push(ss.last().project_id@));
            assert(o[r.len() as int] == ss.last().project_id@);
            if r.contains(pid) {
                let k = choose|k: int| 0 <= k < r.len() && r[k] == pid;
                assert(o[k] == pid);
            }
            if o.contains(pid) && pid != ss.last().project_id@ {
                let k = choose|k: int| 0 <= k < o.len() && o[k] == pid;
                assert(r[k] == pid);
            }
        }
    }
}

/// A session is under "Other" exactly when it is one of the panel's sessions
/// and no listed project has its project id: the sessions of a listed project
/// are shown in its group only, and no session of the panel goes missing.
pub proof fn law_other_holds_the_unlisted_sessions(ss: Seq<Session>, ps: Seq<Project>, s: Session)
    ensures
        other_sessions(ss, ps).contains(s) <==> ss.contains(s) && !listed_id(ps, s.project_id@),
{
    lemma_sessions_of_ids_holds(ss, other_ids(ss, ps), s);
    lemma_other_ids_holds(ss, ps, s.project_id@);
    if ss.contains(s) {
        let k = choose|k: int| 0 <= k < ss.len() && ss[k] == s;
        assert(ss[k].project_id@ == s.project_id@);
    }
}

/// The project ids under "Other" are distinct: each such project is one group.
pub proof fn law_other_ids_are_distinct(ss: Seq<Session>, ps: Seq<Project>)
    ensures
        other_ids(ss, ps).no_duplicates(),
    decreases ss.len(),
{
    if ss.len() > 0 {
        law_other_ids_are_distinct(ss.drop_last(), ps);
    }
}

} // verus!
