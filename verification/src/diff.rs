//! Line diffs of file contents: splitting into lines, a longest-common-subsequence
//! edit script, and the unified text shown for a change.
use vstd::prelude::*;
use crate::text::{
    chars_eq, chars_of, has_prefix, int_decimal, nat_decimal, push_int_decimal, push_nat_decimal, push_str, starts_with, string_of,
};
use crate::types::FileDiff;

verus! {

/// `line` without one trailing carriage return.
pub open spec fn strip_cr(line: Seq<char>) -> Seq<char> {
    if line.len() > 0 && line.last() == '\r' {
        line.drop_last()
    } else {
        line
    }
}

/// The lines still to come when `cur` has been read of the current line and
/// `rest` is left: a line ends at a line feed, which it does not keep, nor one
/// carriage return before it; a last line without a line feed is kept whole,
/// and an empty one is no line.
pub open spec fn lines_after(cur: Seq<char>, rest: Seq<char>) -> Seq<Seq<char>>
    decreases rest.len(),
{
    if rest.len() == 0 {
        if cur.len() == 0 {
            Seq::empty()
        } else {
            seq![cur]
        }
    } else if rest[0] == '\n' {
        seq![strip_cr(cur)] + lines_after(Seq::empty(), rest.drop_first())
    } else {
        lines_after(cur.push(rest[0]), rest.drop_first())
    }
}

/// The lines of a text, as std's `str::lines` yields them.
pub open spec fn lines_of(s: Seq<char>) -> Seq<Seq<char>> {
    lines_after(Seq::empty(), s)
}

/// The views of a list of character vectors.
pub open spec fn char_views(v: Seq<Vec<char>>) -> Seq<Seq<char>> {
    v.map_values(|l: Vec<char>| l@)
}

/// Splits a text into its lines.
pub fn split_lines(s: &Vec<char>) -> (r: Vec<Vec<char>>)
    ensures
        char_views(r@) == lines_of(s@),
{
    let mut out: Vec<Vec<char>> = Vec::new();
    let mut cur: Vec<char> = Vec::new();
    let mut i: usize = 0;
    proof {
        assert(s@.skip(0) =~= s@);
        assert(cur@ =~= Seq::<char>::empty());
        assert(char_views(out@) + lines_of(s@) =~= lines_of(s@));
    }
    while i < s.len()
        invariant
            i <= s.len(),
            char_views(out@) + lines_after(cur@, s@.skip(i as int)) == lines_of(s@),
        decreases s.len() - i,
    {
        let c = s[i];
        proof {
            assert(s@.skip(i as int).drop_first() =~= s@.skip(i + 1));
            assert(s@.skip(i as int)[0] == c);
        }
        if c == '\n' {
            let mut line = cur;
            if line.len() > 0 && line[line.len() - 1] == '\r' {
                line.pop();
            }
            proof {
                assert(line@ == strip_cr(cur@));
                assert(char_views(out@.push(line)) =~= char_views(out@).push(line@));
            }
            out.push(line);
            cur = Vec::new();
            proof {
                assert(cur@ =~= Seq::<char>::empty());
                assert(char_views(out@) + lines_after(cur@, s@.skip(i + 1)) =~= char_views(out@).drop_last() + (seq![char_views(out@).last()] + lines_after(Seq::empty(), s@.skip(i + 1))));
            }
        } else {
            cur.push(c);
        }
        i += 1;
    }
    proof {
        assert(s@.skip(i as int) =~= Seq::<char>::empty());
    }
    if cur.len() > 0 {
        proof {
            assert(char_views(out@.push(cur)) =~= char_views(out@).push(cur@));
        }
        out.push(cur);
    } else {
        proof {
            assert(char_views(out@) + Seq::<Seq<char>>::empty() =~= char_views(out@));
        }
    }
    out
}

/// One step of an edit script that turns the old lines into the new ones: a line
/// kept (its position in the old and in the new lines), a line of the old ones
/// removed, or a line of the new ones added.
#[derive(Clone, Copy)]
pub enum DiffOp {
    Equal(usize, usize),
    Delete(usize),
    Insert(usize),
}

/// A step of an edit script, with positions as integers.
pub enum Edit {
    Keep(int, int),
    Remove(int),
    Add(int),
}

impl DiffOp {
    pub open spec fn edit(self) -> Edit {
        match self {
            DiffOp::Equal(i, j) => Edit::Keep(i as int, j as int),
            DiffOp::Delete(i) => Edit::Remove(i as int),
            DiffOp::Insert(j) => Edit::Add(j as int),
        }
    }
}

/// The edits of a list of steps.
pub open spec fn edits(ops: Seq<DiffOp>) -> Seq<Edit> {
    ops.map_values(|o: DiffOp| o.edit())
}

/// The length of a longest common subsequence of `a` and `b`.
pub open spec fn lcs_len(a: Seq<Seq<char>>, b: Seq<Seq<char>>) -> nat
    decreases a.len() + b.len(),
{
    if a.len() == 0 || b.len() == 0 {
        0
    } else if a.last() == b.last() {
        lcs_len(a.drop_last(), b.drop_last()) + 1
    } else {
        let x = lcs_len(a.drop_last(), b);
        let y = lcs_len(a, b.drop_last());
        if x >= y { x } else { y }
    }
}

/// The edit script read back from the longest common subsequence of `a` and `b`,
/// from their ends: a common last line is kept; otherwise the last new line is
/// added when dropping it keeps a longest common subsequence at least as long as
/// dropping the last old line does, and the last old line is removed if not.
pub open spec fn lcs_script(a: Seq<Seq<char>>, b: Seq<Seq<char>>) -> Seq<Edit>
    decreases a.len() + b.len(),
{
    if a.len() == 0 && b.len() == 0 {
        Seq::empty()
    } else if a.len() > 0 && b.len() > 0 && a.last() == b.last() {
        lcs_script(a.drop_last(), b.drop_last()).push(Edit::Keep(a.len() - 1, b.len() - 1))
    } else if b.len() > 0 && (a.len() == 0 || lcs_len(a, b.drop_last()) >= lcs_len(a.drop_last(), b)) {
        lcs_script(a, b.drop_last()).push(Edit::Add(b.len() - 1))
    } else {
        lcs_script(a.drop_last(), b).push(Edit::Remove(a.len() - 1))
    }
}

/// The old lines that a script keeps or removes, in its order.
pub open spec fn old_side(es: Seq<Edit>, a: Seq<Seq<char>>) -> Seq<Seq<char>>
    decreases es.len(),
{
    if es.len() == 0 {
        Seq::empty()
    } else {
        let rest = old_side(es.drop_last(), a);
        match es.last() {
            Edit::Keep(i, _) => rest.push(a[i]),
            Edit::Remove(i) => rest.push(a[i]),
            Edit::Add(_) => rest,
        }
    }
}

/// The new lines that a script keeps or adds, in its order.
pub open spec fn new_side(es: Seq<Edit>, b: Seq<Seq<char>>) -> Seq<Seq<char>>
    decreases es.len(),
{
    if es.len() == 0 {
        Seq::empty()
    } else {
        let rest = new_side(es.drop_last(), b);
        match es.last() {
            Edit::Keep(_, j) => rest.push(b[j]),
            Edit::Add(j) => rest.push(b[j]),
            Edit::Remove(_) => rest,
        }
    }
}

/// How many lines a script keeps.
pub open spec fn kept(es: Seq<Edit>) -> nat
    decreases es.len(),
{
    if es.len() == 0 {
        0
    } else {
        kept(es.drop_last()) + if es.last() is Keep { 1nat } else { 0nat }
    }
}

/// A longest common subsequence is no longer than either list.
pub proof fn lemma_lcs_len_bound(a: Seq<Seq<char>>, b: Seq<Seq<char>>)
    ensures
        lcs_len(a, b) <= a.len(),
        lcs_len(a, b) <= b.len(),
    decreases a.len() + b.len(),
{
    if a.len() > 0 && b.len() > 0 {
        if a.last() == b.last() {
            lemma_lcs_len_bound(a.drop_last(), b.drop_last());
        } else {
            lemma_lcs_len_bound(a.drop_last(), b);
            lemma_lcs_len_bound(a, b.drop_last());
        }
    }
}

/// Every old position that `es` names is one of the `n` old lines.
pub open spec fn old_in_range(es: Seq<Edit>, n: int) -> bool {
    forall|k: int| 0 <= k < es.len() ==> match #[trigger] es[k] {
        Edit::Keep(i, _) => 0 <= i < n,
        Edit::Remove(i) => 0 <= i < n,
        Edit::Add(_) => true,
    }
}

/// Every new position that `es` names is one of the `m` new lines.
pub open spec fn new_in_range(es: Seq<Edit>, m: int) -> bool {
    forall|k: int| 0 <= k < es.len() ==> match #[trigger] es[k] {
        Edit::Keep(_, j) => 0 <= j < m,
        Edit::Add(j) => 0 <= j < m,
        Edit::Remove(_) => true,
    }
}

/// Every position in `es` is a position of the old lines (`n` of them) or of the
/// new lines (`m` of them), as its step says.
pub open spec fn in_range(es: Seq<Edit>, n: int, m: int) -> bool {
    old_in_range(es, n) && new_in_range(es, m)
}

/// Every kept line is the same in `a` and `b`.
pub open spec fn keeps_equal(es: Seq<Edit>, a: Seq<Seq<char>>, b: Seq<Seq<char>>) -> bool {
    forall|k: int| 0 <= k < es.len() ==> (#[trigger] es[k] matches Edit::Keep(i, j) ==> a[i] == b[j])
}

/// The script read back from the longest common subsequence turns `a` into `b`:
/// the lines it keeps or removes are `a`, the lines it keeps or adds are `b`,
/// every kept line is the same on both sides, and it keeps as many lines as a
/// longest common subsequence has.
pub proof fn law_lcs_script_turns_old_into_new(a: Seq<Seq<char>>, b: Seq<Seq<char>>)
    ensures
        old_side(lcs_script(a, b), a) == a,
        new_side(lcs_script(a, b), b) == b,
        in_range(lcs_script(a, b), a.len() as int, b.len() as int),
        keeps_equal(lcs_script(a, b), a, b),
        kept(lcs_script(a, b)) == lcs_len(a, b),
    decreases a.len() + b.len(),
{
    let s = lcs_script(a, b);
    if a.len() == 0 && b.len() == 0 {
    } else {
        let (a1, b1) = if a.len() > 0 && b.len() > 0 && a.last() == b.last() {
            (a.drop_last(), b.drop_last())
        } else if b.len() > 0 && (a.len() == 0 || lcs_len(a, b.drop_last()) >= lcs_len(a.drop_last(), b)) {
            (a, b.drop_last())
        } else {
            (a.drop_last(), b)
        };
        law_lcs_script_turns_old_into_new(a1, b1);
        let s1 = lcs_script(a1, b1);
        assert(s.drop_last() == s1);
        assert(a1 =~= a.take(a1.len() as int));
        assert(b1 =~= b.take(b1.len() as int));
        lemma_old_side_prefix(s1, a1, a);
        lemma_new_side_prefix(s1, b1, b);
        assert forall|k: int| 0 <= k < s.len() implies match #[trigger] s[k] {
            Edit::Keep(i, _) => 0 <= i < a.len(),
            Edit::Remove(i) => 0 <= i < a.len(),
            Edit::Add(_) => true,
        } by {
            if k < s.len() - 1 {
                assert(s[k] == s1[k]);
            }
        }
        assert forall|k: int| 0 <= k < s.len() implies match #[trigger] s[k] {
            Edit::Keep(_, j) => 0 <= j < b.len(),
            Edit::Add(j) => 0 <= j < b.len(),
            Edit::Remove(_) => true,
        } by {
            if k < s.len() - 1 {
                assert(s[k] == s1[k]);
            }
        }
        assert forall|k: int| 0 <= k < s.len() implies (#[trigger] s[k] matches Edit::Keep(i, j) ==> a[i] == b[j]) by {
            if k < s.len() - 1 {
                assert(s[k] == s1[k]);
                if let Edit::Keep(i, j) = s1[k] {
                    assert(a1[i] == a[i]);
                    assert(b1[j] == b[j]);
                }
            }
        }
        if a.len() > 0 && b.len() > 0 && a.last() == b.last() {
            assert(old_side(s, a) =~= a1.push(a.last()));
            assert(new_side(s, b) =~= b1.push(b.last()));
        } else if b.len() > 0 && (a.len() == 0 || lcs_len(a, b.drop_last()) >= lcs_len(a.drop_last(), b)) {
            assert(new_side(s, b) =~= b1.push(b.last()));
        } else {
            assert(old_side(s, a) =~= a1.push(a.last()));
        }
    }
}

/// Reading a script's old side over `a` gives what it gives over `a1`, a prefix
/// of `a` that holds all the old positions the script names.
pub proof fn lemma_old_side_prefix(es: Seq<Edit>, a1: Seq<Seq<char>>, a: Seq<Seq<char>>)
    requires
        a1.len() <= a.len(),
        a1 == a.take(a1.len() as int),
        old_in_range(es, a1.len() as int),
    ensures
        old_side(es, a) == old_side(es, a1),
    decreases es.len(),
{
    if es.len() > 0 {
        assert(es.drop_last().len() < es.len());
        assert forall|k: int| 0 <= k < es.drop_last().len() implies match #[trigger] es.drop_last()[k] {
            Edit::Keep(i, _) => 0 <= i < a1.len(),
            Edit::Remove(i) => 0 <= i < a1.len(),
            Edit::Add(_) => true,
        } by {
            assert(es.drop_last()[k] == es[k]);
        }
        lemma_old_side_prefix(es.drop_last(), a1, a);
        let e = es[es.len() - 1];
        match e {
            Edit::Keep(i, _) => { assert(a1[i] == a[i]); },
            Edit::Remove(i) => { assert(a1[i] == a[i]); },
            Edit::Add(_) => {},
        }
    }
}

/// Reading a script's new side over `b` gives what it gives over `b1`, a prefix
/// of `b` that holds all the new positions the script names.
pub proof fn lemma_new_side_prefix(es: Seq<Edit>, b1: Seq<Seq<char>>, b: Seq<Seq<char>>)
    requires
        b1.len() <= b.len(),
        b1 == b.take(b1.len() as int),
        new_in_range(es, b1.len() as int),
    ensures
        new_side(es, b) == new_side(es, b1),
    decreases es.len(),
{
    if es.len() > 0 {
        assert forall|k: int| 0 <= k < es.drop_last().len() implies match #[trigger] es.drop_last()[k] {
            Edit::Keep(_, j) => 0 <= j < b1.len(),
            Edit::Add(j) => 0 <= j < b1.len(),
            Edit::Remove(_) => true,
        } by {
            assert(es.drop_last()[k] == es[k]);
        }
        lemma_new_side_prefix(es.drop_last(), b1, b);
        let e = es[es.len() - 1];
        match e {
            Edit::Keep(_, j) => { assert(b1[j] == b[j]); },
            Edit::Add(j) => { assert(b1[j] == b[j]); },
            Edit::Remove(_) => {},
        }
    }
}

/// The length of the longest common subsequence of every pair of prefixes.
fn lcs_table(old: &Vec<Vec<char>>, new: &Vec<Vec<char>>) -> (t: Vec<Vec<u32>>)
    requires
        old.len() * new.len() <= 4_000_000,
    ensures
        t@.len() == old.len() + 1,
        forall|i: int| 0 <= i <= old.len() ==> (#[trigger] t@[i])@.len() == new.len() + 1,
        forall|i: int, j: int| 0 <= i <= old.len() && 0 <= j <= new.len() ==> (#[trigger] t@[i]@[j]) as nat
            == lcs_len(char_views(old@).take(i), char_views(new@).take(j)),
{
    let ghost a = char_views(old@);
    let ghost b = char_views(new@);
    let n = old.len();
    let m = new.len();
    let mut t: Vec<Vec<u32>> = Vec::new();
    let mut first: Vec<u32> = Vec::new();
    first.push(0);
    let mut j: usize = 0;
    while j < m
        invariant
            j <= m,
            m == new.len(),
            first@.len() == j + 1,
            forall|k: int| 0 <= k <= j ==> first@[k] == 0,
        decreases m - j,
    {
        first.push(0);
        j += 1;
    }
    proof {
        assert forall|k: int| 0 <= k <= m implies (first@[k] as nat) == lcs_len(a.take(0), b.take(k)) by {
            assert(a.take(0).len() == 0);
        }
    }
    t.push(first);
    let mut i: usize = 0;
    while i < n
        invariant
            i <= n,
            n == old.len(),
            m == new.len(),
            n * m <= 4_000_000,
            a == char_views(old@),
            b == char_views(new@),
            t@.len() == i + 1,
            forall|r: int| 0 <= r <= i ==> (#[trigger] t@[r])@.len() == m + 1,
            forall|r: int, k: int| 0 <= r <= i && 0 <= k <= m ==> (#[trigger] t@[r]@[k]) as nat
                == lcs_len(a.take(r), b.take(k)),
        decreases n - i,
    {
        proof {
            assert(m <= n * m) by (nonlinear_arith)
                requires i < n;
        }
        let prev = &t[i];
        assert(prev@.len() == m + 1);
        let mut row: Vec<u32> = Vec::new();
        row.push(0);
        proof {
            assert(b.take(0).len() == 0);
        }
        let mut j: usize = 0;
        while j < m
            invariant
                i < n,
                j <= m,
                n == old.len(),
                m == new.len(),
                m <= 4_000_000,
                a == char_views(old@),
                b == char_views(new@),
                prev@.len() == m + 1,
                forall|k: int| 0 <= k <= m ==> (#[trigger] prev@[k]) as nat == lcs_len(a.take(i as int), b.take(k)),
                row@.len() == j + 1,
                forall|k: int| 0 <= k <= j ==> (#[trigger] row@[k]) as nat == lcs_len(a.take(i + 1), b.take(k)),
            decreases m - j,
        {
            let ghost ai = a.take(i + 1);
            let ghost bj = b.take(j + 1);
            proof {
                assert(ai.drop_last() =~= a.take(i as int));
                assert(bj.drop_last() =~= b.take(j as int));
                assert(ai.last() == old@[i as int]@);
                assert(bj.last() == new@[j as int]@);
                lemma_lcs_len_bound(a.take(i as int), b.take(j as int));
            }
            let v: u32 = if chars_eq(&old[i], &new[j]) {
                prev[j] + 1
            } else {
                let up = prev[j + 1];
                let left = row[j];
                if up >= left { up } else { left }
            };
            row.push(v);
            j += 1;
        }
        t.push(row);
        i += 1;
    }
    t
}

/// Appending a step appends its edit.
pub proof fn lemma_edits_push(ops: Seq<DiffOp>, x: DiffOp)
    ensures
        edits(ops.push(x)) == edits(ops).push(x.edit()),
{
    assert(edits(ops.push(x)) =~= edits(ops).push(x.edit()));
}

/// The steps of `ops` in reverse order.
fn reversed(ops: &Vec<DiffOp>) -> (r: Vec<DiffOp>)
    ensures
        edits(r@) == edits(ops@).reverse(),
{
    let mut r: Vec<DiffOp> = Vec::new();
    let mut k: usize = ops.len();
    while k > 0
        invariant
            k <= ops.len(),
            edits(r@) == edits(ops@).reverse().take(ops.len() - k),
        decreases k,
    {
        k -= 1;
        let ghost r0 = r@;
        r.push(ops[k]);
        proof {
            assert(edits(r@) =~= edits(r0).push(ops@[k as int].edit()));
            assert(edits(ops@).reverse()[ops.len() - k - 1] == edits(ops@)[k as int]);
            assert(edits(r@) =~= edits(ops@).reverse().take(ops.len() - k));
        }
    }
    proof {
        assert(edits(ops@).reverse().take(ops.len() as int) =~= edits(ops@).reverse());
    }
    r
}

/// The edit script read back from the longest common subsequence of the lines.
fn lcs_ops(old: &Vec<Vec<char>>, new: &Vec<Vec<char>>) -> (r: Vec<DiffOp>)
    requires
        old.len() * new.len() <= 4_000_000,
    ensures
        edits(r@) == lcs_script(char_views(old@), char_views(new@)),
{
    let ghost a = char_views(old@);
    let ghost b = char_views(new@);
    let t = lcs_table(old, new);
    let mut rev: Vec<DiffOp> = Vec::new();
    let mut i: usize = old.len();
    let mut j: usize = new.len();
    proof {
        assert(a.take(i as int) =~= a);
        assert(b.take(j as int) =~= b);
        assert(edits(rev@).reverse() =~= Seq::<Edit>::empty());
        assert(lcs_script(a, b) + Seq::<Edit>::empty() =~= lcs_script(a, b));
    }
    while i > 0 || j > 0
        invariant
            i <= old.len(),
            j <= new.len(),
            a == char_views(old@),
            b == char_views(new@),
            t@.len() == old.len() + 1,
            forall|r: int| 0 <= r <= old.len() ==> (#[trigger] t@[r])@.len() == new.len() + 1,
            forall|r: int, k: int| 0 <= r <= old.len() && 0 <= k <= new.len() ==> (#[trigger] t@[r]@[k]) as nat
                == lcs_len(a.take(r), b.take(k)),
            lcs_script(a, b) == lcs_script(a.take(i as int), b.take(j as int)) + edits(rev@).reverse(),
        decreases i + j,
    {
        let ghost ai = a.take(i as int);
        let ghost bj = b.take(j as int);
        let ghost before = edits(rev@).reverse();
        if i > 0 && j > 0 && chars_eq(&old[i - 1], &new[j - 1]) {
            proof {
                assert(ai.drop_last() =~= a.take(i - 1));
                assert(bj.drop_last() =~= b.take(j - 1));
                assert(ai.last() == old@[i - 1]@);
                assert(bj.last() == new@[j - 1]@);
            }
            rev.push(DiffOp::Equal(i - 1, j - 1));
            proof {
                assert(edits(rev@).reverse() =~= seq![Edit::Keep(i - 1, j - 1)] + before);
                assert(lcs_script(ai, bj) == lcs_script(a.take(i - 1), b.take(j - 1)).push(Edit::Keep(i - 1, j - 1)));
                assert(lcs_script(a.take(i - 1), b.take(j - 1)).push(Edit::Keep(i - 1, j - 1)) + before
                    =~= lcs_script(a.take(i - 1), b.take(j - 1)) + (seq![Edit::Keep(i - 1, j - 1)] + before));
            }
            i -= 1;
            j -= 1;
        } else if j > 0 && (i == 0 || t[i][j - 1] >= t[i - 1][j]) {
            proof {
                assert(bj.drop_last() =~= b.take(j - 1));
                if i > 0 {
                    assert(ai.drop_last() =~= a.take(i - 1));
                    assert(ai.last() == old@[i - 1]@);
                    assert(bj.last() == new@[j - 1]@);
                }
            }
            rev.push(DiffOp::Insert(j - 1));
            proof {
                assert(edits(rev@).reverse() =~= seq![Edit::Add(j - 1)] + before);
                assert(lcs_script(ai, bj) == lcs_script(ai, b.take(j - 1)).push(Edit::Add(j - 1)));
                assert(lcs_script(ai, b.take(j - 1)).push(Edit::Add(j - 1)) + before
                    =~= lcs_script(ai, b.take(j - 1)) + (seq![Edit::Add(j - 1)] + before));
            }
            j -= 1;
        } else {
            proof {
                assert(ai.drop_last() =~= a.take(i - 1));
                if j > 0 {
                    assert(bj.drop_last() =~= b.take(j - 1));
                    assert(ai.last() == old@[i - 1]@);
                    assert(bj.last() == new@[j - 1]@);
                }
            }
            rev.push(DiffOp::Delete(i - 1));
            proof {
                assert(edits(rev@).reverse() =~= seq![Edit::Remove(i - 1)] + before);
                assert(lcs_script(ai, bj) == lcs_script(a.take(i - 1), bj).push(Edit::Remove(i - 1)));
                assert(lcs_script(a.take(i - 1), bj).push(Edit::Remove(i - 1)) + before
                    =~= lcs_script(a.take(i - 1), bj) + (seq![Edit::Remove(i - 1)] + before));
            }
            i -= 1;
        }
    }
    proof {
        assert(lcs_script(a.take(0), b.take(0)) =~= Seq::<Edit>::empty());
        assert(Seq::<Edit>::empty() + edits(rev@).reverse() =~= edits(rev@).reverse());
    }
    reversed(&rev)
}

/// `p` is the length of the longest common prefix of `a` and `b`.
pub open spec fn is_common_prefix_len(a: Seq<Seq<char>>, b: Seq<Seq<char>>, p: int) -> bool {
    &&& 0 <= p <= a.len()
    &&& p <= b.len()
    &&& forall|k: int| 0 <= k < p ==> a[k] == b[k]
    &&& (p == a.len() || p == b.len() || a[p] != b[p])
}

/// The line `k` places before the end of `a` (the last one for 0).
pub open spec fn nth_last(a: Seq<Seq<char>>, k: int) -> Seq<char> {
    a[a.len() - 1 - k]
}

/// `s` is the length of the longest common suffix of `a` and `b`.
pub open spec fn is_common_suffix_len(a: Seq<Seq<char>>, b: Seq<Seq<char>>, s: int) -> bool {
    &&& 0 <= s <= a.len()
    &&& s <= b.len()
    &&& forall|k: int| 0 <= k < s ==> #[trigger] nth_last(a, k) == nth_last(b, k)
    &&& (s == a.len() || s == b.len() || nth_last(a, s) != nth_last(b, s))
}

/// The length of the longest common prefix of `a` and `b`.
pub open spec fn common_prefix_len(a: Seq<Seq<char>>, b: Seq<Seq<char>>) -> int {
    choose|p: int| is_common_prefix_len(a, b, p)
}

/// The length of the longest common suffix of `a` and `b`.
pub open spec fn common_suffix_len(a: Seq<Seq<char>>, b: Seq<Seq<char>>) -> int {
    choose|s: int| is_common_suffix_len(a, b, s)
}

/// Only one length is that of the longest common prefix.
pub proof fn lemma_common_prefix_len(a: Seq<Seq<char>>, b: Seq<Seq<char>>, p: int)
    requires
        is_common_prefix_len(a, b, p),
    ensures
        common_prefix_len(a, b) == p,
{
    let q = common_prefix_len(a, b);
    assert(is_common_prefix_len(a, b, q));
    if q < p {
        assert(a[q] == b[q]);
    } else if p < q {
        assert(a[p] == b[p]);
    }
}

/// Only one length is that of the longest common suffix.
pub proof fn lemma_common_suffix_len(a: Seq<Seq<char>>, b: Seq<Seq<char>>, s: int)
    requires
        is_common_suffix_len(a, b, s),
    ensures
        common_suffix_len(a, b) == s,
{
    let q = common_suffix_len(a, b);
    assert(is_common_suffix_len(a, b, q));
    if q < s {
        assert(nth_last(a, q) == nth_last(b, q));
    } else if s < q {
        assert(nth_last(a, s) == nth_last(b, s));
    }
}

/// The script for texts too large for the table: the common first lines kept,
/// then every other old line removed, every other new line added, and the
/// common last lines (of what follows the common first ones) kept.
pub open spec fn simple_script(a: Seq<Seq<char>>, b: Seq<Seq<char>>) -> Seq<Edit> {
    let p = common_prefix_len(a, b);
    let s = common_suffix_len(a.skip(p), b.skip(p));
    let n = a.len() as int;
    let m = b.len() as int;
    Seq::new(p as nat, |k: int| Edit::Keep(k, k))
        + Seq::new((n - s - p) as nat, |k: int| Edit::Remove(p + k))
        + Seq::new((m - s - p) as nat, |k: int| Edit::Add(p + k))
        + Seq::new(s as nat, |k: int| Edit::Keep(n - s + k, m - s + k))
}

/// Keeps the common first and last lines and replaces the rest wholesale.
fn simple_diff(old: &Vec<Vec<char>>, new: &Vec<Vec<char>>) -> (r: Vec<DiffOp>)
    ensures
        edits(r@) == simple_script(char_views(old@), char_views(new@)),
{
    let ghost a = char_views(old@);
    let ghost b = char_views(new@);
    let n = old.len();
    let m = new.len();
    let mut p: usize = 0;
    while p < n && p < m && chars_eq(&old[p], &new[p])
        invariant
            p <= n,
            p <= m,
            n == old.len(),
            m == new.len(),
            a == char_views(old@),
            b == char_views(new@),
            forall|k: int| 0 <= k < p ==> a[k] == b[k],
        decreases n - p,
    {
        p += 1;
    }
    proof {
        lemma_common_prefix_len(a, b, p as int);
    }
    let mut s: usize = 0;
    while s < n - p && s < m - p && chars_eq(&old[n - 1 - s], &new[m - 1 - s])
        invariant
            p <= n,
            p <= m,
            s <= n - p,
            s <= m - p,
            n == old.len(),
            m == new.len(),
            a == char_views(old@),
            b == char_views(new@),
            forall|k: int| 0 <= k < s ==> #[trigger] nth_last(a, k) == nth_last(b, k),
        decreases n - p - s,
    {
        s += 1;
    }
    proof {
        let (ap, bp) = (a.skip(p as int), b.skip(p as int));
        assert forall|k: int| 0 <= k < s implies #[trigger] nth_last(ap, k) == nth_last(bp, k) by {
            assert(nth_last(ap, k) == nth_last(a, k));
            assert(nth_last(bp, k) == nth_last(b, k));
        }
        if !(s == ap.len() || s == bp.len()) {
            assert(nth_last(ap, s as int) == nth_last(a, s as int));
            assert(nth_last(bp, s as int) == nth_last(b, s as int));
        }
        lemma_common_suffix_len(ap, bp, s as int);
    }
    let ghost e1 = Seq::new(p as nat, |k: int| Edit::Keep(k, k));
    let ghost e2 = Seq::new((n - s - p) as nat, |k: int| Edit::Remove(p + k));
    let ghost e3 = Seq::new((m - s - p) as nat, |k: int| Edit::Add(p + k));
    let ghost e4 = Seq::new(s as nat, |k: int| Edit::Keep(n - s + k, m - s + k));
    let mut ops: Vec<DiffOp> = Vec::new();
    let mut k: usize = 0;
    while k < p
        invariant
            k <= p,
            edits(ops@) == e1.take(k as int),
            e1 == Seq::new(p as nat, |k: int| Edit::Keep(k, k)),
        decreases p - k,
    {
        proof {
            lemma_edits_push(ops@, DiffOp::Equal(k, k));
        }
        ops.push(DiffOp::Equal(k, k));
        proof {
            assert(edits(ops@) =~= e1.take(k + 1));
        }
        k += 1;
    }
    assert(e1.take(p as int) =~= e1);
    let mut k: usize = p;
    while k < n - s
        invariant
            p <= k <= n - s,
            s <= n - p,
            edits(ops@) == e1 + e2.take(k - p),
            e2 == Seq::new((n - s - p) as nat, |k: int| Edit::Remove(p + k)),
        decreases n - s - k,
    {
        proof {
            lemma_edits_push(ops@, DiffOp::Delete(k));
        }
        ops.push(DiffOp::Delete(k));
        proof {
            assert(edits(ops@) =~= e1 + e2.take(k + 1 - p));
        }
        k += 1;
    }
    assert(e2.take(n - s - p) =~= e2);
    let mut k: usize = p;
    while k < m - s
        invariant
            p <= k <= m - s,
            s <= m - p,
            edits(ops@) == e1 + e2 + e3.take(k - p),
            e3 == Seq::new((m - s - p) as nat, |k: int| Edit::Add(p + k)),
        decreases m - s - k,
    {
        proof {
            lemma_edits_push(ops@, DiffOp::Insert(k));
        }
        ops.push(DiffOp::Insert(k));
        proof {
            assert(edits(ops@) =~= e1 + e2 + e3.take(k + 1 - p));
        }
        k += 1;
    }
    assert(e3.take(m - s - p) =~= e3);
    let mut k: usize = 0;
    while k < s
        invariant
            k <= s,
            s <= n,
            s <= m,
            edits(ops@) == e1 + e2 + e3 + e4.take(k as int),
            e4 == Seq::new(s as nat, |k: int| Edit::Keep(n - s + k, m - s + k)),
        decreases s - k,
    {
        proof {
            lemma_edits_push(ops@, DiffOp::Equal((n - s + k) as usize, (m - s + k) as usize));
        }
        ops.push(DiffOp::Equal(n - s + k, m - s + k));
        proof {
            assert(edits(ops@) =~= e1 + e2 + e3 + e4.take(k + 1));
        }
        k += 1;
    }
    assert(e4.take(s as int) =~= e4);
    ops
}

proof fn lemma_prefix_exists_from(a: Seq<Seq<char>>, b: Seq<Seq<char>>, p: int)
    requires
        0 <= p <= a.len(),
        p <= b.len(),
        forall|k: int| 0 <= k < p ==> a[k] == b[k],
    ensures
        is_common_prefix_len(a, b, common_prefix_len(a, b)),
    decreases a.len() - p,
{
    if p == a.len() || p == b.len() || a[p] != b[p] {
        assert(is_common_prefix_len(a, b, p));
    } else {
        lemma_prefix_exists_from(a, b, p + 1);
    }
}

proof fn lemma_suffix_exists_from(a: Seq<Seq<char>>, b: Seq<Seq<char>>, s: int)
    requires
        0 <= s <= a.len(),
        s <= b.len(),
        forall|k: int| 0 <= k < s ==> #[trigger] nth_last(a, k) == nth_last(b, k),
    ensures
        is_common_suffix_len(a, b, common_suffix_len(a, b)),
    decreases a.len() - s,
{
    if s == a.len() || s == b.len() || nth_last(a, s) != nth_last(b, s) {
        assert(is_common_suffix_len(a, b, s));
    } else {
        lemma_suffix_exists_from(a, b, s + 1);
    }
}

/// The old and new sides of two scripts one after the other.
pub proof fn lemma_sides_append(x: Seq<Edit>, y: Seq<Edit>, a: Seq<Seq<char>>, b: Seq<Seq<char>>)
    ensures
        old_side(x + y, a) == old_side(x, a) + old_side(y, a),
        new_side(x + y, b) == new_side(x, b) + new_side(y, b),
    decreases y.len(),
{
    if y.len() == 0 {
        assert(x + y =~= x);
        assert(old_side(x, a) + old_side(y, a) =~= old_side(x, a));
        assert(new_side(x, b) + new_side(y, b) =~= new_side(x, b));
    } else {
        lemma_sides_append(x, y.drop_last(), a, b);
        assert((x + y).drop_last() =~= x + y.drop_last());
        assert((x + y).last() == y.last());
        match y.last() {
            Edit::Keep(i, j) => {
                assert(old_side(x, a) + old_side(y, a) =~= (old_side(x, a) + old_side(y.drop_last(), a)).push(a[i]));
                assert(new_side(x, b) + new_side(y, b) =~= (new_side(x, b) + new_side(y.drop_last(), b)).push(b[j]));
            },
            Edit::Remove(i) => {
                assert(old_side(x, a) + old_side(y, a) =~= (old_side(x, a) + old_side(y.drop_last(), a)).push(a[i]));
            },
            Edit::Add(j) => {
                assert(new_side(x, b) + new_side(y, b) =~= (new_side(x, b) + new_side(y.drop_last(), b)).push(b[j]));
            },
        }
    }
}

proof fn lemma_keep_run(a: Seq<Seq<char>>, b: Seq<Seq<char>>, o: int, w: int, len: nat)
    requires
        0 <= o,
        o + len <= a.len(),
        0 <= w,
        w + len <= b.len(),
    ensures
        old_side(Seq::new(len, |k: int| Edit::Keep(o + k, w + k)), a) == a.subrange(o, o + len),
        new_side(Seq::new(len, |k: int| Edit::Keep(o + k, w + k)), b) == b.subrange(w, w + len),
    decreases len,
{
    let es = Seq::new(len, |k: int| Edit::Keep(o + k, w + k));
    if len > 0 {
        lemma_keep_run(a, b, o, w, (len - 1) as nat);
        assert(es.drop_last() =~= Seq::new((len - 1) as nat, |k: int| Edit::Keep(o + k, w + k)));
        assert(a.subrange(o, o + len) =~= a.subrange(o, o + len - 1).push(a[o + len - 1]));
        assert(b.subrange(w, w + len) =~= b.subrange(w, w + len - 1).push(b[w + len - 1]));
    } else {
        assert(a.subrange(o, o) =~= Seq::<Seq<char>>::empty());
        assert(b.subrange(w, w) =~= Seq::<Seq<char>>::empty());
    }
}

proof fn lemma_remove_run(a: Seq<Seq<char>>, b: Seq<Seq<char>>, o: int, len: nat)
    requires
        0 <= o,
        o + len <= a.len(),
    ensures
        old_side(Seq::new(len, |k: int| Edit::Remove(o + k)), a) == a.subrange(o, o + len),
        new_side(Seq::new(len, |k: int| Edit::Remove(o + k)), b) == Seq::<Seq<char>>::empty(),
    decreases len,
{
    let es = Seq::new(len, |k: int| Edit::Remove(o + k));
    if len > 0 {
        lemma_remove_run(a, b, o, (len - 1) as nat);
        assert(es.drop_last() =~= Seq::new((len - 1) as nat, |k: int| Edit::Remove(o + k)));
        assert(a.subrange(o, o + len) =~= a.subrange(o, o + len - 1).push(a[o + len - 1]));
    } else {
        assert(a.subrange(o, o) =~= Seq::<Seq<char>>::empty());
    }
}

proof fn lemma_add_run(a: Seq<Seq<char>>, b: Seq<Seq<char>>, w: int, len: nat)
    requires
        0 <= w,
        w + len <= b.len(),
    ensures
        old_side(Seq::new(len, |k: int| Edit::Add(w + k)), a) == Seq::<Seq<char>>::empty(),
        new_side(Seq::new(len, |k: int| Edit::Add(w + k)), b) == b.subrange(w, w + len),
    decreases len,
{
    let es = Seq::new(len, |k: int| Edit::Add(w + k));
    if len > 0 {
        lemma_add_run(a, b, w, (len - 1) as nat);
        assert(es.drop_last() =~= Seq::new((len - 1) as nat, |k: int| Edit::Add(w + k)));
        assert(b.subrange(w, w + len) =~= b.subrange(w, w + len - 1).push(b[w + len - 1]));
    } else {
        assert(b.subrange(w, w) =~= Seq::<Seq<char>>::empty());
    }
}

/// The bounds of the common prefix and suffix that the large-text script uses.
proof fn lemma_simple_bounds(a: Seq<Seq<char>>, b: Seq<Seq<char>>)
    ensures
        ({
            let p = common_prefix_len(a, b);
            let s = common_suffix_len(a.skip(p), b.skip(p));
            &&& 0 <= p && 0 <= s
            &&& p + s <= a.len() && p + s <= b.len()
            &&& forall|k: int| 0 <= k < p ==> a[k] == b[k]
            &&& forall|t: int| 0 <= t < s ==> #[trigger] nth_last(a, t) == nth_last(b, t)
        }),
{
    lemma_prefix_exists_from(a, b, 0);
    let p = common_prefix_len(a, b);
    let (ap, bp) = (a.skip(p), b.skip(p));
    lemma_suffix_exists_from(ap, bp, 0);
    let s = common_suffix_len(ap, bp);
    assert forall|t: int| 0 <= t < s implies #[trigger] nth_last(a, t) == nth_last(b, t) by {
        assert(nth_last(ap, t) == nth_last(bp, t));
    }
}

/// The script for large texts turns `a` into `b` too: the lines it keeps or
/// removes are `a`, the lines it keeps or adds are `b`, and every kept line is
/// the same on both sides.
pub proof fn law_simple_script_turns_old_into_new(a: Seq<Seq<char>>, b: Seq<Seq<char>>)
    ensures
        old_side(simple_script(a, b), a) == a,
        new_side(simple_script(a, b), b) == b,
        in_range(simple_script(a, b), a.len() as int, b.len() as int),
        keeps_equal(simple_script(a, b), a, b),
{
    lemma_simple_bounds(a, b);
    lemma_simple_sides(a, b);
    lemma_simple_steps(a, b);
}

proof fn lemma_simple_sides(a: Seq<Seq<char>>, b: Seq<Seq<char>>)
    requires
        ({
            let p = common_prefix_len(a, b);
            let s = common_suffix_len(a.skip(p), b.skip(p));
            &&& 0 <= p && 0 <= s
            &&& p + s <= a.len() && p + s <= b.len()
        }),
    ensures
        old_side(simple_script(a, b), a) == a,
        new_side(simple_script(a, b), b) == b,
{
    let p = common_prefix_len(a, b);
    let s = common_suffix_len(a.skip(p), b.skip(p));
    let n = a.len() as int;
    let m = b.len() as int;
    let e1 = Seq::new(p as nat, |k: int| Edit::Keep(k, k));
    let e2 = Seq::new((n - s - p) as nat, |k: int| Edit::Remove(p + k));
    let e3 = Seq::new((m - s - p) as nat, |k: int| Edit::Add(p + k));
    let e4 = Seq::new(s as nat, |k: int| Edit::Keep(n - s + k, m - s + k));
    lemma_keep_run(a, b, 0, 0, p as nat);
    assert(e1 =~= Seq::new(p as nat, |k: int| Edit::Keep(0 + k, 0 + k)));
    lemma_remove_run(a, b, p, (n - s - p) as nat);
    lemma_add_run(a, b, p, (m - s - p) as nat);
    lemma_keep_run(a, b, n - s, m - s, s as nat);
    lemma_sides_append(e1, e2, a, b);
    lemma_sides_append(e1 + e2, e3, a, b);
    lemma_sides_append(e1 + e2 + e3, e4, a, b);
    assert(a =~= a.subrange(0, p) + a.subrange(p, n - s) + Seq::<Seq<char>>::empty() + a.subrange(n - s, n));
    assert(b =~= b.subrange(0, p) + Seq::<Seq<char>>::empty() + b.subrange(p, m - s) + b.subrange(m - s, m));
}

proof fn lemma_simple_steps(a: Seq<Seq<char>>, b: Seq<Seq<char>>)
    requires
        ({
            let p = common_prefix_len(a, b);
            let s = common_suffix_len(a.skip(p), b.skip(p));
            &&& 0 <= p && 0 <= s
            &&& p + s <= a.len() && p + s <= b.len()
            &&& forall|k: int| 0 <= k < p ==> a[k] == b[k]
            &&& forall|t: int| 0 <= t < s ==> #[trigger] nth_last(a, t) == nth_last(b, t)
        }),
    ensures
        in_range(simple_script(a, b), a.len() as int, b.len() as int),
        keeps_equal(simple_script(a, b), a, b),
{
    let p = common_prefix_len(a, b);
    let s = common_suffix_len(a.skip(p), b.skip(p));
    let n = a.len() as int;
    let m = b.len() as int;
    let sc = simple_script(a, b);
    let d = n - s - p;
    let i = m - s - p;
    assert(sc.len() == p + d + i + s);
    assert forall|k: int| 0 <= k < sc.len() implies sc[k] == (if k < p {
        Edit::Keep(k, k)
    } else if k < p + d {
        Edit::Remove(k)
    } else if k < p + d + i {
        Edit::Add(k - d)
    } else {
        Edit::Keep(n - s + (k - p - d - i), m - s + (k - p - d - i))
    }) by {}
    assert forall|k: int| 0 <= k < sc.len() implies (#[trigger] sc[k] matches Edit::Keep(x, y) ==> a[x] == b[y]) by {
        if k >= p + d + i {
            let t = k - p - d - i;
            assert(nth_last(a, s - 1 - t) == nth_last(b, s - 1 - t));
        }
    }
}

/// The edit script used between `a` and `b`: read back from the longest common
/// subsequence, or, when the table for it would have more than four million
/// cells, the script that keeps only the common first and last lines.
pub open spec fn diff_script(a: Seq<Seq<char>>, b: Seq<Seq<char>>) -> Seq<Edit> {
    if a.len() * b.len() > 4_000_000 {
        simple_script(a, b)
    } else {
        lcs_script(a, b)
    }
}

/// Whichever way it is computed, the script turns `a` into `b`: the lines it
/// keeps or removes are `a`, the lines it keeps or adds are `b`, and every kept
/// line is the same on both sides.
pub proof fn law_diff_script_turns_old_into_new(a: Seq<Seq<char>>, b: Seq<Seq<char>>)
    ensures
        old_side(diff_script(a, b), a) == a,
        new_side(diff_script(a, b), b) == b,
        in_range(diff_script(a, b), a.len() as int, b.len() as int),
        keeps_equal(diff_script(a, b), a, b),
{
    if a.len() * b.len() > 4_000_000 {
        law_simple_script_turns_old_into_new(a, b);
    } else {
        law_lcs_script_turns_old_into_new(a, b);
    }
}

/// The edit script between the old and the new lines.
pub fn compute_diff_ops(old: &Vec<Vec<char>>, new: &Vec<Vec<char>>) -> (r: Vec<DiffOp>)
    ensures
        edits(r@) == diff_script(char_views(old@), char_views(new@)),
{
    match old.len().checked_mul(new.len()) {
        Some(cells) => {
            if cells > 4_000_000 {
                simple_diff(old, new)
            } else {
                lcs_ops(old, new)
            }
        },
        None => simple_diff(old, new),
    }
}

/// Whether a step changes something (removes or adds a line).
pub open spec fn is_change(e: Edit) -> bool {
    !(e is Keep)
}

/// Whether step `k` of `es` lies within `c` steps of a change.
pub open spec fn near_change(es: Seq<Edit>, c: int, k: int) -> bool {
    exists|d: int| 0 <= d < es.len() && #[trigger] is_change(es[d]) && k - c <= d <= k + c
}

/// The line printed for a step: a space, a minus or a plus, the line, a line feed.
pub open spec fn shown_line(e: Edit, a: Seq<Seq<char>>, b: Seq<Seq<char>>) -> Seq<char> {
    match e {
        Edit::Keep(i, _) => seq![' '] + a[i] + seq!['\n'],
        Edit::Remove(i) => seq!['-'] + a[i] + seq!['\n'],
        Edit::Add(j) => seq!['+'] + b[j] + seq!['\n'],
    }
}

/// The line that separates two hunks.
pub open spec fn hunk_separator() -> Seq<char> {
    seq!['.', '.', '.', '\n']
}

/// What step `k` contributes to the unified text: nothing unless it lies within
/// `c` steps of a change; its line otherwise, after a separator when it starts a
/// hunk other than at the very first step.
pub open spec fn hunk_piece(es: Seq<Edit>, a: Seq<Seq<char>>, b: Seq<Seq<char>>, c: int, k: int) -> Seq<char> {
    if near_change(es, c, k) {
        (if k > 0 && !near_change(es, c, k - 1) {
            hunk_separator()
        } else {
            Seq::empty()
        }) + shown_line(es[k], a, b)
    } else {
        Seq::empty()
    }
}

/// What the first `upto` steps contribute to the unified text.
pub open spec fn hunks_text(es: Seq<Edit>, a: Seq<Seq<char>>, b: Seq<Seq<char>>, c: int, upto: int) -> Seq<char>
    decreases upto,
{
    if upto <= 0 {
        Seq::empty()
    } else {
        hunks_text(es, a, b, c, upto - 1) + hunk_piece(es, a, b, c, upto - 1)
    }
}

/// The unified diff of two texts with `c` lines of context around each change.
pub open spec fn unified_diff(before: Seq<char>, after: Seq<char>, c: int) -> Seq<char> {
    let a = lines_of(before);
    let b = lines_of(after);
    let es = diff_script(a, b);
    if es.len() == 0 {
        " (no changes)\n"@
    } else {
        hunks_text(es, a, b, c, es.len() as int)
    }
}

/// Steps far from every change add nothing to the text.
proof fn lemma_hunks_text_flat(es: Seq<Edit>, a: Seq<Seq<char>>, b: Seq<Seq<char>>, c: int, x: int, y: int)
    requires
        0 <= x <= y,
        forall|k: int| x <= k < y ==> !near_change(es, c, k),
    ensures
        hunks_text(es, a, b, c, y) == hunks_text(es, a, b, c, x),
    decreases y - x,
{
    if y > x {
        lemma_hunks_text_flat(es, a, b, c, x, y - 1);
        assert(!near_change(es, c, y - 1));
        assert(hunks_text(es, a, b, c, y) =~= hunks_text(es, a, b, c, y - 1));
    }
}

/// Appends the line shown for one step.
fn push_shown_line(out: &mut Vec<char>, op: DiffOp, old_lines: &Vec<Vec<char>>, new_lines: &Vec<Vec<char>>)
    requires
        match op {
            DiffOp::Equal(i, _) => i < old_lines.len(),
            DiffOp::Delete(i) => i < old_lines.len(),
            DiffOp::Insert(j) => j < new_lines.len(),
        },
    ensures
        final(out)@ == old(out)@ + shown_line(op.edit(), char_views(old_lines@), char_views(new_lines@)),
{
    let ghost o0 = out@;
    match op {
        DiffOp::Equal(i, _) => {
            out.push(' ');
            let mut line = old_lines[i].clone();
            out.append(&mut line);
        },
        DiffOp::Delete(i) => {
            out.push('-');
            let mut line = old_lines[i].clone();
            out.append(&mut line);
        },
        DiffOp::Insert(j) => {
            out.push('+');
            let mut line = new_lines[j].clone();
            out.append(&mut line);
        },
    }
    out.push('\n');
    proof {
        let e = op.edit();
        match e {
            Edit::Keep(i, _) => { assert(out@ =~= o0 + shown_line(e, char_views(old_lines@), char_views(new_lines@))); },
            Edit::Remove(i) => { assert(out@ =~= o0 + shown_line(e, char_views(old_lines@), char_views(new_lines@))); },
            Edit::Add(j) => { assert(out@ =~= o0 + shown_line(e, char_views(old_lines@), char_views(new_lines@))); },
        }
    }
}

/// Whether a step keeps a line.
fn is_equal_op(op: DiffOp) -> (b: bool)
    ensures
        b == !is_change(op.edit()),
{
    match op {
        DiffOp::Equal(_, _) => true,
        _ => false,
    }
}

/// Where the hunk that starts with the change at `i` ends: after its last
/// change and up to `context` lines kept after it, once more than twice
/// `context` kept lines follow or the steps run out.
fn hunk_end(ops: &Vec<DiffOp>, i: usize, context: usize) -> (h: usize)
    requires
        i < ops.len(),
        is_change(edits(ops@)[i as int]),
    ensures
        i < h <= ops.len(),
        forall|k: int| i <= k < h ==> near_change(edits(ops@), context as int, k),
        h == ops.len() || ({
            &&& forall|d: int| 0 <= d < h && #[trigger] is_change(edits(ops@)[d]) && d >= i ==> d + context < h
            &&& forall|d: int| h <= d < ops.len() && #[trigger] is_change(edits(ops@)[d]) ==> d > h + context
        }),
{
    let ghost es = edits(ops@);
    let ghost c = context as int;
    let total = ops.len();
    let mut h: usize = i;
    let mut done = false;
    while h < total && !done
        invariant
            i <= h <= total,
            total == ops.len(),
            es == edits(ops@),
            c == context as int,
            is_change(es[i as int]),
            forall|k: int| i <= k < h ==> near_change(es, c, k),
            !done ==> (h < total ==> is_change(es[h as int]) || (h > i && is_change(es[h - 1]))),
            done ==> i < h,
            done ==> h == total || ({
                &&& forall|d: int| 0 <= d < h && #[trigger] is_change(es[d]) && d >= i ==> d + c < h
                &&& forall|d: int| h <= d < total && #[trigger] is_change(es[d]) ==> d > h + c
            }),
        decreases total - h, (if done { 0int } else { 1int }),
    {
        proof {
            assert(es[h as int] == ops@[h as int].edit());
        }
        if is_equal_op(ops[h]) {
            let eq_start = h;
            while h < total && is_equal_op(ops[h])
                invariant
                    eq_start <= h <= total,
                    total == ops.len(),
                    es == edits(ops@),
                    forall|k: int| eq_start <= k < h ==> !is_change(#[trigger] es[k]),
                decreases total - h,
            {
                proof {
                    assert(es[h as int] == ops@[h as int].edit());
                }
                h += 1;
            }
            let eq_count = h - eq_start;
            proof {
                let last = eq_start - 1;
                assert(is_change(es[last]));
                assert forall|k: int| eq_start <= k < h && k - last <= c implies near_change(es, c, k) by {
                    assert(is_change(es[last]));
                }
                if h < total {
                    assert(es[h as int] == ops@[h as int].edit());
                    assert(is_change(es[h as int]));
                    assert forall|k: int| eq_start <= k < h && h - k <= c implies near_change(es, c, k) by {
                        assert(is_change(es[h as int]));
                    }
                }
            }
            if h < total && eq_count > context && eq_count - context > context {
                let run_end = h;
                h = eq_start + context;
                done = true;
                proof {
                    assert forall|d: int| h <= d < total && #[trigger] is_change(es[d]) implies d > h + c by {
                        assert(d >= run_end);
                    }
                }
            } else if h >= total {
                h = if total - eq_start < context { total } else { eq_start + context };
                done = true;
            }
        } else {
            proof {
                assert(is_change(es[h as int]));
                assert(near_change(es, c, h as int));
            }
            h += 1;
        }
    }
    h
}

/// The unified diff of two texts with `context` lines kept around each change:
/// " (no changes)" when both have no lines, else the hunks of the line diff.
pub fn compute_unified_diff(before: &str, after: &str, context: usize) -> (r: String)
    ensures
        r@ == unified_diff(before@, after@, context as int),
{
    let old_lines = split_lines(&chars_of(before));
    let new_lines = split_lines(&chars_of(after));
    let ops = compute_diff_ops(&old_lines, &new_lines);
    let ghost a = char_views(old_lines@);
    let ghost b = char_views(new_lines@);
    let ghost es = edits(ops@);
    let ghost c = context as int;
    proof {
        law_diff_script_turns_old_into_new(a, b);
    }
    if ops.len() == 0 {
        return String::from_str(" (no changes)\n");
    }
    let total = ops.len();
    let mut out: Vec<char> = Vec::new();
    let mut i: usize = 0;
    let ghost mut p: int = 0;
    while i < total
        invariant
            0 <= p <= i <= total,
            total == ops.len(),
            es == edits(ops@),
            a == char_views(old_lines@),
            b == char_views(new_lines@),
            c == context as int,
            in_range(es, a.len() as int, b.len() as int),
            out@ == hunks_text(es, a, b, c, p),
            forall|k: int| p <= k < i ==> !is_change(#[trigger] es[k]),
            p < total ==> forall|d: int| 0 <= d < p && #[trigger] is_change(es[d]) ==> d + c < p,
            0 < p < total ==> forall|d: int| p <= d < total && #[trigger] is_change(es[d]) ==> d > p + c,
        decreases total - i,
    {
        proof {
            assert(es[i as int] == ops@[i as int].edit());
        }
        if is_equal_op(ops[i]) {
            i += 1;
        } else {
            let cs = if i >= context { i - context } else { 0 };
            let h = hunk_end(&ops, i, context);
            proof {
                assert(p < total);
                if p > 0 {
                    assert(i > p + c);
                }
                assert(p <= cs);
                assert forall|k: int| p <= k < cs implies !near_change(es, c, k) by {
                    if near_change(es, c, k) {
                        let d = choose|d: int| 0 <= d < es.len() && #[trigger] is_change(es[d]) && k - c <= d <= k + c;
                        if d < p {
                        } else if d < i {
                        } else {
                        }
                    }
                }
                lemma_hunks_text_flat(es, a, b, c, p, cs as int);
                assert(near_change(es, c, cs as int)) by {
                    assert(is_change(es[i as int]));
                }
            }
            if cs > 0 {
                out.push('.');
                out.push('.');
                out.push('.');
                out.push('\n');
            }
            let mut j: usize = cs;
            while j < h
                invariant
                    cs <= j <= h,
                    i < h <= total,
                    cs <= i,
                    total == ops.len(),
                    es == edits(ops@),
                    a == char_views(old_lines@),
                    b == char_views(new_lines@),
                    c == context as int,
                    in_range(es, a.len() as int, b.len() as int),
                    forall|k: int| cs <= k < h ==> near_change(es, c, k),
                    cs > 0 ==> !near_change(es, c, cs - 1),
                    out@ == hunks_text(es, a, b, c, j as int) + (if j == cs && cs > 0 { hunk_separator() } else { Seq::empty() }),
                decreases h - j,
            {
                let ghost o0 = out@;
                proof {
                    assert(es[j as int] == ops@[j as int].edit());
                }
                push_shown_line(&mut out, ops[j], &old_lines, &new_lines);
                proof {
                    if j == cs && cs > 0 {
                        assert(hunk_piece(es, a, b, c, j as int) == hunk_separator() + shown_line(es[j as int], a, b));
                    } else if j > cs {
                        assert(near_change(es, c, j - 1));
                        assert(hunk_piece(es, a, b, c, j as int) =~= shown_line(es[j as int], a, b));
                    } else {
                        assert(hunk_piece(es, a, b, c, j as int) =~= shown_line(es[j as int], a, b));
                    }
                    assert(out@ =~= hunks_text(es, a, b, c, j + 1));
                }
                j += 1;
            }
            proof {
                if h == cs {
                }
            }
            i = h;
            proof {
                p = h as int;
            }
        }
    }
    proof {
        assert forall|k: int| p <= k < total implies !near_change(es, c, k) by {
            if near_change(es, c, k) {
                let d = choose|d: int| 0 <= d < es.len() && #[trigger] is_change(es[d]) && k - c <= d <= k + c;
            }
        }
        lemma_hunks_text_flat(es, a, b, c, p, total as int);
    }
    string_of(out.as_slice())
}

/// The lines added over all the files.
pub open spec fn total_additions(ds: Seq<FileDiff>) -> int
    decreases ds.len(),
{
    if ds.len() == 0 { 0 } else { total_additions(ds.drop_last()) + ds.last().additions }
}

/// The lines deleted over all the files.
pub open spec fn total_deletions(ds: Seq<FileDiff>) -> int
    decreases ds.len(),
{
    if ds.len() == 0 { 0 } else { total_deletions(ds.drop_last()) + ds.last().deletions }
}

/// Whether every running total of additions and deletions fits in an `i64`.
pub open spec fn totals_fit(ds: Seq<FileDiff>) -> bool {
    forall|k: int| 0 <= k <= ds.len() ==> i64::MIN <= #[trigger] total_additions(ds.take(k)) <= i64::MAX
        && i64::MIN <= total_deletions(ds.take(k)) <= i64::MAX
}

/// "N file changed" or "N files changed".
pub open spec fn files_changed_text(n: nat) -> Seq<char> {
    nat_decimal(n) + (if n == 1 { " file changed"@ } else { " files changed"@ })
}

/// The text shown for one file: a header with its name and counts, then its
/// unified diff with three lines of context, then an empty line.
pub open spec fn file_diff_block(d: FileDiff) -> Seq<char> {
    "── "@ + d.file@ + " (+"@ + int_decimal(d.additions as int) + " -"@ + int_decimal(d.deletions as int)
        + ") ──\n"@ + unified_diff(d.before@, d.after@, 3) + "\n"@
}

/// The blocks of all the files, one after the other.
pub open spec fn file_diff_blocks(ds: Seq<FileDiff>) -> Seq<char>
    decreases ds.len(),
{
    if ds.len() == 0 { Seq::empty() } else { file_diff_blocks(ds.drop_last()) + file_diff_block(ds.last()) }
}

/// What the change summary of a session shows.
pub struct DiffSummary {
    /// "N files changed  +A  -D".
    pub summary: String,
    /// "N files changed".
    pub files_label: String,
    /// "+A".
    pub additions_label: String,
    /// "-D".
    pub deletions_label: String,
    /// The header and unified diff of every file.
    pub diff_text: String,
}

/// The summary and the full diff text for a list of file changes; nothing when
/// there is no change to show.
pub fn summarize_diffs(diffs: &Vec<FileDiff>) -> (r: Option<DiffSummary>)
    requires
        totals_fit(diffs@),
    ensures
        diffs@.len() == 0 <==> r is None,
        r matches Some(sm) ==> {
            let n = diffs@.len();
            let adds = total_additions(diffs@);
            let dels = total_deletions(diffs@);
            &&& sm.files_label@ == files_changed_text(n)
            &&& sm.summary@ == files_changed_text(n) + "  +"@ + int_decimal(adds) + "  -"@ + int_decimal(dels)
            &&& sm.additions_label@ == "+"@ + int_decimal(adds)
            &&& sm.deletions_label@ == "-"@ + int_decimal(dels)
            &&& sm.diff_text@ == file_diff_blocks(diffs@)
        },
{
    if diffs.len() == 0 {
        return None;
    }
    let mut adds: i64 = 0;
    let mut dels: i64 = 0;
    let mut text: Vec<char> = Vec::new();
    let mut k: usize = 0;
    proof {
        assert(diffs@.take(0) =~= Seq::<FileDiff>::empty());
    }
    while k < diffs.len()
        invariant
            k <= diffs.len(),
            totals_fit(diffs@),
            adds as int == total_additions(diffs@.take(k as int)),
            dels as int == total_deletions(diffs@.take(k as int)),
            text@ == file_diff_blocks(diffs@.take(k as int)),
        decreases diffs.len() - k,
    {
        let d = &diffs[k];
        proof {
            assert(diffs@.take(k + 1).drop_last() =~= diffs@.take(k as int));
            assert(diffs@.take(k + 1).last() == diffs@[k as int]);
            assert(i64::MIN <= total_additions(diffs@.take(k + 1)) <= i64::MAX);
        }
        adds = adds + d.additions;
        dels = dels + d.deletions;
        let ghost t0 = text@;
        push_str(&mut text, "── ");
        push_str(&mut text, d.file.as_str());
        push_str(&mut text, " (+");
        push_int_decimal(d.additions, &mut text);
        push_str(&mut text, " -");
        push_int_decimal(d.deletions, &mut text);
        push_str(&mut text, ") ──\n");
        let unified = compute_unified_diff(d.before.as_str(), d.after.as_str(), 3);
        push_str(&mut text, unified.as_str());
        push_str(&mut text, "\n");
        proof {
            assert(text@ =~= t0 + file_diff_block(diffs@[k as int]));
        }
        k += 1;
    }
    proof {
        assert(diffs@.take(diffs.len() as int) =~= diffs@);
    }
    let n = diffs.len();
    let mut files: Vec<char> = Vec::new();
    push_nat_decimal(n as u64, &mut files);
    if n == 1 {
        push_str(&mut files, " file changed");
    } else {
        push_str(&mut files, " files changed");
    }
    let mut summary: Vec<char> = files.clone();
    push_str(&mut summary, "  +");
    push_int_decimal(adds, &mut summary);
    push_str(&mut summary, "  -");
    push_int_decimal(dels, &mut summary);
    let mut plus: Vec<char> = Vec::new();
    push_str(&mut plus, "+");
    push_int_decimal(adds, &mut plus);
    let mut minus: Vec<char> = Vec::new();
    push_str(&mut minus, "-");
    push_int_decimal(dels, &mut minus);
    proof {
        assert(files@ =~= files_changed_text(n as nat));
    }
    Some(DiffSummary {
        summary: string_of(summary.as_slice()),
        files_label: string_of(files.as_slice()),
        additions_label: string_of(plus.as_slice()),
        deletions_label: string_of(minus.as_slice()),
        diff_text: string_of(text.as_slice()),
    })
}

/// How a line of diff text is colored.
#[derive(Clone, Copy, Debug, PartialEq, Eq, Structural)]
pub enum DiffLineType {
    Addition,
    Deletion,
    Context,
    Header,
}

/// The kind of a line of diff text: an addition after '+', a deletion after
/// '-', a header after "──" or "...", else context.
pub open spec fn line_kind(line: Seq<char>) -> DiffLineType {
    if starts_with(line, "+"@) {
        DiffLineType::Addition
    } else if starts_with(line, "-"@) {
        DiffLineType::Deletion
    } else if starts_with(line, "──"@) || starts_with(line, "..."@) {
        DiffLineType::Header
    } else {
        DiffLineType::Context
    }
}

/// The kind of a line of diff text.
pub fn diff_line_kind(line: &Vec<char>) -> (k: DiffLineType)
    ensures
        k == line_kind(line@),
{
    if has_prefix(line, &chars_of("+")) {
        DiffLineType::Addition
    } else if has_prefix(line, &chars_of("-")) {
        DiffLineType::Deletion
    } else if has_prefix(line, &chars_of("──")) || has_prefix(line, &chars_of("...")) {
        DiffLineType::Header
    } else {
        DiffLineType::Context
    }
}

/// The lines of a diff text, each with the kind it is colored as.
pub fn classify_diff_lines(text: &str) -> (r: Vec<(String, DiffLineType)>)
    ensures
        r@.len() == lines_of(text@).len(),
        forall|k: int| 0 <= k < r@.len() ==> (#[trigger] r@[k]).0@ == lines_of(text@)[k] && r@[k].1 == line_kind(lines_of(text@)[k]),
{
    let lines = split_lines(&chars_of(text));
    let ghost ls = lines_of(text@);
    let mut out: Vec<(String, DiffLineType)> = Vec::new();
    let mut k: usize = 0;
    while k < lines.len()
        invariant
            k <= lines.len(),
            char_views(lines@) == ls,
            out@.len() == k,
            forall|j: int| 0 <= j < k ==> (#[trigger] out@[j]).0@ == ls[j] && out@[j].1 == line_kind(ls[j]),
        decreases lines.len() - k,
    {
        assert(lines@[k as int]@ == ls[k as int]);
        let kind = diff_line_kind(&lines[k]);
        out.push((string_of(lines[k].as_slice()), kind));
        k += 1;
    }
    out
}

/// The script between a list and itself keeps every line.
proof fn lemma_diff_script_self(a: Seq<Seq<char>>)
    ensures
        diff_script(a, a).len() == a.len(),
        forall|k: int| 0 <= k < a.len() ==> !is_change(#[trigger] diff_script(a, a)[k]),
{
    if a.len() * a.len() > 4_000_000 {
        assert(is_common_prefix_len(a, a, a.len() as int));
        lemma_common_prefix_len(a, a, a.len() as int);
        let e = a.skip(a.len() as int);
        assert(is_common_suffix_len(e, e, 0));
        lemma_common_suffix_len(e, e, 0);
        let sc = simple_script(a, a);
        assert forall|k: int| 0 <= k < a.len() implies !is_change(#[trigger] sc[k]) by {
            assert(sc[k] == Edit::Keep(k, k));
        }
    } else {
        lemma_lcs_script_self(a);
    }
}

proof fn lemma_lcs_script_self(a: Seq<Seq<char>>)
    ensures
        lcs_script(a, a).len() == a.len(),
        forall|k: int| 0 <= k < a.len() ==> !is_change(#[trigger] lcs_script(a, a)[k]),
    decreases a.len(),
{
    if a.len() > 0 {
        lemma_lcs_script_self(a.drop_last());
        let rest = lcs_script(a.drop_last(), a.drop_last());
        assert(lcs_script(a, a) == rest.push(Edit::Keep(a.len() - 1, a.len() - 1)));
        assert forall|k: int| 0 <= k < a.len() implies !is_change(#[trigger] lcs_script(a, a)[k]) by {
            if k < a.len() - 1 {
                assert(lcs_script(a, a)[k] == rest[k]);
            }
        }
    }
}

/// An unchanged text shows no hunk: its unified diff against itself is empty,
/// or, for a text without lines, the note that nothing changed.
pub proof fn law_unchanged_text_has_no_hunks(x: Seq<char>, c: int)
    ensures
        unified_diff(x, x, c) == (if lines_of(x).len() == 0 { " (no changes)\n"@ } else { Seq::<char>::empty() }),
{
    let a = lines_of(x);
    let es = diff_script(a, a);
    lemma_diff_script_self(a);
    if es.len() > 0 {
        assert forall|k: int| 0 <= k < es.len() implies !near_change(es, c, k) by {
            if near_change(es, c, k) {
                let d = choose|d: int| 0 <= d < es.len() && #[trigger] is_change(es[d]) && k - c <= d <= k + c;
                assert(!is_change(es[d]));
            }
        }
        lemma_hunks_text_flat(es, a, a, c, 0, es.len() as int);
    }
}

} // verus!
