//! The file tree of a project: which directory entries it shows, and in what order.
use vstd::prelude::*;
use crate::models::{label_less, label_lt, lemma_label_lt_total, lemma_label_lt_transitive};
use crate::secret::{lowercase, to_lowercase};
use crate::strmap::StrMap;
use crate::text::{chars_of, str_eq};

verus! {

/// An entry of a directory as the file tree shows it.
pub struct DirEntry {
    pub name: String,
    pub is_dir: bool,
    pub full_path: String,
}

/// A directory entry as plain values.
pub struct DirEntryView {
    pub name: Seq<char>,
    pub is_dir: bool,
    pub full_path: Seq<char>,
}

impl View for DirEntry {
    type V = DirEntryView;

    open spec fn view(&self) -> DirEntryView {
        DirEntryView { name: self.name@, is_dir: self.is_dir, full_path: self.full_path@ }
    }
}

/// The views of a list of entries.
pub open spec fn entry_views(v: Seq<DirEntry>) -> Seq<DirEntryView> {
    v.map_values(|e: DirEntry| e@)
}

/// The views of a directory listing of (name, is a directory) pairs.
pub open spec fn listing_views(v: Seq<(String, bool)>) -> Seq<(Seq<char>, bool)> {
    v.map_values(|e: (String, bool)| (e.0@, e.1))
}

/// Directories the tree never shows: version control, dependencies, build output.
pub open spec fn ignored_dir(name: Seq<char>) -> bool {
    ||| name == ".git"@
    ||| name == "node_modules"@
    ||| name == "target"@
    ||| name == "__pycache__"@
    ||| name == ".venv"@
    ||| name == "venv"@
    ||| name == "dist"@
    ||| name == "build"@
}

/// Whether the tree shows an entry: hidden names are left out (but ".git"),
/// and so are the ignored directories.
pub open spec fn entry_shown(name: Seq<char>, is_dir: bool) -> bool {
    &&& !(name.len() > 0 && name[0] == '.' && name != ".git"@)
    &&& !(is_dir && ignored_dir(name))
}

/// The path of `name` inside the directory `dir`, as std's `Path::join` makes it.
pub uninterp spec fn path_joined(dir: Seq<char>, name: Seq<char>) -> Seq<char>;

/// std's `Path::join`, read back with `to_string_lossy`. How the separator is
/// placed is not stated here; the result is named by `path_joined`.
#[verifier::external_body]
fn join_path(dir: &str, name: &str) -> (r: String)
    ensures
        r@ == path_joined(dir@, name@),
{
    std::path::Path::new(dir).join(name).to_string_lossy().to_string()
}

/// The entries of a listing that the tree shows, in listing order.
pub open spec fn shown_entries(dir: Seq<char>, listing: Seq<(Seq<char>, bool)>) -> Seq<DirEntryView>
    decreases listing.len(),
{
    if listing.len() == 0 {
        Seq::empty()
    } else {
        let rest = shown_entries(dir, listing.drop_last());
        let (name, is_dir) = listing.last();
        if entry_shown(name, is_dir) {
            rest.push(DirEntryView { name, is_dir, full_path: path_joined(dir, name) })
        } else {
            rest
        }
    }
}

/// Whether `a` comes before `b` in the tree: folders before files, then by
/// name without regard to case.
pub open spec fn entry_lt(a: DirEntryView, b: DirEntryView) -> bool {
    ||| a.is_dir && !b.is_dir
    ||| a.is_dir == b.is_dir && label_lt(lowercase(a.name), lowercase(b.name))
}

/// Where `x` goes among `sorted`: before the first entry that it comes before,
/// so that entries that compare equal keep their order.
pub open spec fn entry_insertion_point(sorted: Seq<DirEntryView>, x: DirEntryView) -> int {
    if exists|k: int| 0 <= k < sorted.len() && entry_lt(x, sorted[k]) {
        choose|k: int| 0 <= k < sorted.len() && entry_lt(x, sorted[k]) && forall|l: int| 0 <= l < k ==> !entry_lt(x, sorted[l])
    } else {
        sorted.len() as int
    }
}

/// The entries in tree order, stably: entries that compare equal keep their order.
pub open spec fn sort_entries(s: Seq<DirEntryView>) -> Seq<DirEntryView>
    decreases s.len(),
{
    if s.len() == 0 {
        s
    } else {
        let sorted = sort_entries(s.drop_last());
        sorted.insert(entry_insertion_point(sorted, s.last()), s.last())
    }
}

/// Whether a name is one of the ignored directories.
fn is_ignored_dir(name: &str) -> (b: bool)
    ensures
        b == ignored_dir(name@),
{
    str_eq(name, ".git") || str_eq(name, "node_modules") || str_eq(name, "target") || str_eq(name, "__pycache__")
        || str_eq(name, ".venv") || str_eq(name, "venv") || str_eq(name, "dist") || str_eq(name, "build")
}

/// Whether the tree shows the entry `name`.
pub fn is_entry_shown(name: &str, is_dir: bool) -> (b: bool)
    ensures
        b == entry_shown(name@, is_dir),
{
    let cs = chars_of(name);
    let hidden = cs.len() > 0 && cs[0] == '.' && !str_eq(name, ".git");
    !hidden && !(is_dir && is_ignored_dir(name))
}

/// Whether the entry `a` comes before the entry `b` in the tree.
pub fn entry_less(a: &DirEntry, b: &DirEntry) -> (r: bool)
    ensures
        r == entry_lt(a@, b@),
{
    if a.is_dir != b.is_dir {
        a.is_dir
    } else {
        let la = to_lowercase(a.name.as_str());
        let lb = to_lowercase(b.name.as_str());
        label_less(la.as_str(), lb.as_str())
    }
}

fn insert_entry(sorted: &mut Vec<DirEntry>, x: DirEntry)
    ensures
        entry_views(final(sorted)@) == entry_views(old(sorted)@).insert(
            entry_insertion_point(entry_views(old(sorted)@), x@),
            x@,
        ),
{
    let ghost s = entry_views(sorted@);
    let mut k: usize = 0;
    while k < sorted.len()
        invariant
            k <= sorted.len(),
            s == entry_views(sorted@),
            s == entry_views(old(sorted)@),
            forall|l: int| 0 <= l < k ==> !entry_lt(x@, s[l]),
        decreases sorted.len() - k,
    {
        if entry_less(&x, &sorted[k]) {
            proof {
                let w = choose|j: int| 0 <= j < s.len() && entry_lt(x@, s[j]) && forall|l: int| 0 <= l < j ==> !entry_lt(x@, s[l]);
                assert(entry_lt(x@, s[k as int]));
                if w > k {
                    assert(!entry_lt(x@, s[k as int]));
                }
                assert(entry_insertion_point(s, x@) == k);
            }
            let ghost xv = x@;
            sorted.insert(k, x);
            assert(entry_views(sorted@) =~= s.insert(k as int, xv));
            return;
        }
        k += 1;
    }
    let ghost xv = x@;
    sorted.push(x);
    assert(entry_views(sorted@) =~= s.insert(s.len() as int, xv));
}

/// The entries of the directory `dir_path` that the tree shows, given what the
/// directory holds as (name, is a directory) pairs: hidden names and ignored
/// directories are left out, folders come first, then names in order without
/// regard to case; each entry carries its full path.
pub fn get_dir_entries(dir_path: &str, listing: Vec<(String, bool)>) -> (r: Vec<DirEntry>)
    ensures
        entry_views(r@) == sort_entries(shown_entries(dir_path@, listing_views(listing@))),
{
    let ghost lv = listing_views(listing@);
    let mut sorted: Vec<DirEntry> = Vec::new();
    let mut rest = listing;
    let n = rest.len();
    let mut i: usize = 0;
    proof {
        assert(lv.take(0) =~= Seq::<(Seq<char>, bool)>::empty());
    }
    while rest.len() > 0
        invariant
            i + rest@.len() == n,
            n == lv.len(),
            listing_views(rest@) == lv.skip(i as int),
            entry_views(sorted@) == sort_entries(shown_entries(dir_path@, lv.take(i as int))),
        decreases rest@.len(),
    {
        let ghost r0 = rest@;
        let (name, is_dir) = rest.remove(0);
        proof {
            assert(listing_views(r0)[0] == (name@, is_dir));
            assert(lv.skip(i as int)[0] == lv[i as int]);
            assert(listing_views(rest@) =~= listing_views(r0).drop_first());
            assert(lv.take(i + 1).drop_last() =~= lv.take(i as int));
            assert(lv.take(i + 1).last() == (name@, is_dir));
        }
        let ghost prev = shown_entries(dir_path@, lv.take(i as int));
        if is_entry_shown(name.as_str(), is_dir) {
            let full_path = join_path(dir_path, name.as_str());
            let e = DirEntry { name, is_dir, full_path };
            proof {
                assert(shown_entries(dir_path@, lv.take(i + 1)) == prev.push(e@));
                assert(prev.push(e@).drop_last() =~= prev);
            }
            insert_entry(&mut sorted, e);
        } else {
            assert(shown_entries(dir_path@, lv.take(i + 1)) == prev);
        }
        i += 1;
        proof {
            assert(listing_views(rest@) =~= lv.skip(i as int));
        }
    }
    assert(lv.take(i as int) =~= lv);
    sorted
}

/// Of two entries, at most one comes before the other.
proof fn lemma_entry_lt_asymmetric(a: DirEntryView, b: DirEntryView)
    ensures
        !(entry_lt(a, b) && entry_lt(b, a)),
{
    lemma_label_lt_total(lowercase(a.name), lowercase(b.name));
}

/// The tree order is transitive.
proof fn lemma_entry_lt_transitive(a: DirEntryView, b: DirEntryView, c: DirEntryView)
    requires
        entry_lt(a, b),
        entry_lt(b, c),
    ensures
        entry_lt(a, c),
{
    if a.is_dir == b.is_dir && b.is_dir == c.is_dir {
        lemma_label_lt_transitive(lowercase(a.name), lowercase(b.name), lowercase(c.name));
    }
}

/// Whether a list of entries is in tree order.
pub open spec fn sorted_entries(s: Seq<DirEntryView>) -> bool {
    forall|i: int, j: int| 0 <= i < j < s.len() ==> !entry_lt(#[trigger] s[j], #[trigger] s[i])
}

proof fn lemma_first_entry_after(sorted: Seq<DirEntryView>, x: DirEntryView, w: int)
    requires
        0 <= w < sorted.len(),
        entry_lt(x, sorted[w]),
    ensures
        exists|k: int| 0 <= k < sorted.len() && entry_lt(x, sorted[k])
            && forall|l: int| 0 <= l < k ==> !entry_lt(x, sorted[l]),
    decreases w,
{
    if exists|l: int| 0 <= l < w && entry_lt(x, sorted[l]) {
        let l = choose|l: int| 0 <= l < w && entry_lt(x, sorted[l]);
        lemma_first_entry_after(sorted, x, l);
    }
}

proof fn lemma_insert_entry_sorted(sorted: Seq<DirEntryView>, x: DirEntryView)
    requires
        sorted_entries(sorted),
    ensures
        sorted_entries(sorted.insert(entry_insertion_point(sorted, x), x)),
        0 <= entry_insertion_point(sorted, x) <= sorted.len(),
{
    if exists|k: int| 0 <= k < sorted.len() && entry_lt(x, sorted[k]) {
        let w = choose|k: int| 0 <= k < sorted.len() && entry_lt(x, sorted[k]);
        lemma_first_entry_after(sorted, x, w);
    }
    let p = entry_insertion_point(sorted, x);
    let r = sorted.insert(p, x);
    assert forall|i: int, j: int| 0 <= i < j < r.len() implies !entry_lt(#[trigger] r[j], #[trigger] r[i]) by {
        if i < p && j == p {
            assert(!entry_lt(x, sorted[i]));
        } else if i == p && j > p {
            let z = sorted[j - 1];
            let y = sorted[p];
            assert(entry_lt(x, y));
            if j - 1 > p {
                assert(!entry_lt(z, y));
                if entry_lt(z, x) {
                    lemma_entry_lt_transitive(z, x, y);
                }
            } else {
                lemma_entry_lt_asymmetric(x, y);
            }
        } else if i < p && j < p {
            assert(r[i] == sorted[i] && r[j] == sorted[j]);
        } else if i < p && j > p {
            assert(r[i] == sorted[i] && r[j] == sorted[j - 1]);
        } else {
            assert(r[i] == sorted[i - 1] && r[j] == sorted[j - 1]);
        }
    }
}

/// The tree shows a directory's entries in tree order (folders first, then by
/// name without regard to case), and it shows each shown entry as many times
/// as the listing holds it.
pub proof fn law_dir_entries_are_sorted(s: Seq<DirEntryView>)
    ensures
        sorted_entries(sort_entries(s)),
        sort_entries(s).to_multiset() == s.to_multiset(),
    decreases s.len(),
{
    broadcast use vstd::seq_lib::group_to_multiset_ensures;
    if s.len() > 0 {
        law_dir_entries_are_sorted(s.drop_last());
        let sorted = sort_entries(s.drop_last());
        lemma_insert_entry_sorted(sorted, s.last());
        assert(s =~= s.drop_last().push(s.last()));
        assert(s.to_multiset() == s.drop_last().to_multiset().insert(s.last()));
    }
}

/// Every entry the tree shows passes the filter: no hidden name but ".git",
/// no ignored directory.
pub proof fn law_shown_entries_pass_the_filter(dir: Seq<char>, listing: Seq<(Seq<char>, bool)>)
    ensures
        forall|k: int| 0 <= k < shown_entries(dir, listing).len()
            ==> entry_shown(#[trigger] shown_entries(dir, listing)[k].name, shown_entries(dir, listing)[k].is_dir),
    decreases listing.len(),
{
    if listing.len() > 0 {
        law_shown_entries_pass_the_filter(dir, listing.drop_last());
        let rest = shown_entries(dir, listing.drop_last());
        let all = shown_entries(dir, listing);
        assert forall|k: int| 0 <= k < all.len() implies entry_shown(#[trigger] all[k].name, all[k].is_dir) by {
            if k < rest.len() {
                assert(all[k] == rest[k]);
                assert(entry_shown(rest[k].name, rest[k].is_dir));
            }
        }
    }
}

/// The entries of the directories that the file tree has listed, by project and
/// directory, so that each directory is read once until the projects change.
pub struct DirCache {
    by_project: StrMap<StrMap<Vec<DirEntry>>>,
}

impl View for DirCache {
    type V = Map<(Seq<char>, Seq<char>), Seq<DirEntryView>>;

    /// The entries listed for each (project id, directory path).
    closed spec fn view(&self) -> Map<(Seq<char>, Seq<char>), Seq<DirEntryView>> {
        Map::new(
            |k: (Seq<char>, Seq<char>)| self.by_project@.contains_key(k.0) && self.by_project@[k.0]@.contains_key(k.1),
            |k: (Seq<char>, Seq<char>)| entry_views(self.by_project@[k.0]@[k.1]@),
        )
    }
}

impl DirCache {
    /// A cache that holds no directory.
    pub fn new() -> (c: Self)
        ensures
            c@ == Map::<(Seq<char>, Seq<char>), Seq<DirEntryView>>::empty(),
    {
        let c = DirCache { by_project: StrMap::new() };
        assert(c@ =~= Map::<(Seq<char>, Seq<char>), Seq<DirEntryView>>::empty());
        c
    }

    /// Forgets every directory, as when new project data comes in.
    pub fn clear(&mut self)
        ensures
            final(self)@ == Map::<(Seq<char>, Seq<char>), Seq<DirEntryView>>::empty(),
    {
        self.by_project = StrMap::new();
        assert(self@ =~= Map::<(Seq<char>, Seq<char>), Seq<DirEntryView>>::empty());
    }

    /// The entries remembered for the directory `dir_path` of the project
    /// `project_id`, if it was listed.
    pub fn cached(&self, project_id: &str, dir_path: &str) -> (r: Option<&Vec<DirEntry>>)
        ensures
            match r {
                Some(v) => self@.contains_key((project_id@, dir_path@)) && entry_views(v@) == self@[(project_id@, dir_path@)],
                None => !self@.contains_key((project_id@, dir_path@)),
            },
    {
        match self.by_project.get(project_id) {
            Some(inner) => inner.get(dir_path),
            None => None,
        }
    }

    /// Lists the directory `dir_path` of the project `project_id` from what it
    /// holds, as `get_dir_entries` does, and remembers the entries.
    pub fn remember(&mut self, project_id: String, dir_path: String, listing: Vec<(String, bool)>)
        ensures
            final(self)@ == old(self)@.insert(
                (project_id@, dir_path@),
                sort_entries(shown_entries(dir_path@, listing_views(listing@))),
            ),
    {
        let ghost before = self.by_project@;
        let ghost key = (project_id@, dir_path@);
        let entries = get_dir_entries(dir_path.as_str(), listing);
        match self.by_project.index_of(project_id.as_str()) {
            Some(i) => {
                let mut inner = self.by_project.replace_at(i, StrMap::new());
                assert(inner == before[project_id@]);
                inner.insert(dir_path, entries);
                self.by_project.replace_at(i, inner);
            },
            None => {
                let mut inner = StrMap::new();
                inner.insert(dir_path, entries);
                self.by_project.insert(project_id, inner);
            },
        }
        proof {
            assert(self.by_project@ == before.insert(key.0, self.by_project@[key.0]));
        }
        assert(self@ =~= old(self)@.insert(key, sort_entries(shown_entries(dir_path@, listing_views(listing@)))));
    }
}

} // verus!
