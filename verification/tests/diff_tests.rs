use openpad::diff::{classify_diff_lines, DiffLineType};
use openpad::diff::{compute_diff_ops, compute_unified_diff, split_lines, summarize_diffs, DiffOp};
use openpad::types::FileDiff;

fn lines(s: &str) -> Vec<Vec<char>> {
    split_lines(&s.chars().collect())
}

fn as_strings(v: &[Vec<char>]) -> Vec<String> {
    v.iter().map(|l| l.iter().collect()).collect()
}

fn diff(file: &str, before: &str, after: &str, additions: i64, deletions: i64) -> FileDiff {
    FileDiff {
        file: file.to_string(),
        before: before.to_string(),
        after: after.to_string(),
        additions,
        deletions,
        status: None,
    }
}

#[test]
fn lines_split_like_std() {
    for text in ["", "a", "a\n", "a\n\n", "\n", "foo\r\nbar\n\nbaz\r", "x\ry\nz"] {
        let expected: Vec<String> = text.lines().map(|l| l.to_string()).collect();
        assert_eq!(as_strings(&lines(text)), expected, "text {:?}", text);
    }
}

#[test]
fn identical_texts_have_no_hunks() {
    assert_eq!(compute_unified_diff("a\nb\n", "a\nb\n", 3), "");
    assert_eq!(compute_unified_diff("", "", 3), " (no changes)\n");
}

#[test]
fn single_change_shows_context() {
    let before = "1\n2\n3\n4\n5\n6\n7\n8\n9\n";
    let after = "1\n2\n3\n4\nfive\n6\n7\n8\n9\n";
    let out = compute_unified_diff(before, after, 3);
    assert_eq!(out, "...\n 2\n 3\n 4\n-5\n+five\n 6\n 7\n 8\n");
}

#[test]
fn distant_changes_make_two_hunks() {
    let before = "a\nb\nc\nd\ne\nf\ng\nh\ni\nj\n";
    let after = "A\nb\nc\nd\ne\nf\ng\nh\ni\nJ\n";
    let out = compute_unified_diff(before, after, 1);
    assert_eq!(out, "-a\n+A\n b\n...\n i\n-j\n+J\n");
}

#[test]
fn added_lines_to_empty_text() {
    assert_eq!(compute_unified_diff("", "x\ny", 3), "+x\n+y\n");
    assert_eq!(compute_unified_diff("x\ny", "", 0), "-x\n-y\n");
}

#[test]
fn edit_script_rebuilds_both_sides() {
    let old = lines("a\nb\nc\nd\n");
    let new = lines("b\nx\nc\nd\ne\n");
    let ops = compute_diff_ops(&old, &new);
    let mut from_old = Vec::new();
    let mut from_new = Vec::new();
    let mut kept = 0;
    for op in &ops {
        match *op {
            DiffOp::Equal(i, j) => {
                assert_eq!(old[i], new[j]);
                from_old.push(old[i].clone());
                from_new.push(new[j].clone());
                kept += 1;
            }
            DiffOp::Delete(i) => from_old.push(old[i].clone()),
            DiffOp::Insert(j) => from_new.push(new[j].clone()),
        }
    }
    assert_eq!(from_old, old);
    assert_eq!(from_new, new);
    assert_eq!(kept, 3);
}

#[test]
fn large_inputs_keep_common_ends() {
    let mut a = String::new();
    let mut b = String::new();
    for i in 0..2100 {
        a.push_str(&format!("line {}\n", i));
        if i == 1000 {
            b.push_str("changed\n");
        } else {
            b.push_str(&format!("line {}\n", i));
        }
    }
    let old = lines(&a);
    let new = lines(&b);
    let ops = compute_diff_ops(&old, &new);
    assert_eq!(ops.len(), 2101);
    assert!(matches!(ops[1000], DiffOp::Delete(1000)));
    assert!(matches!(ops[1001], DiffOp::Insert(1000)));
    assert!(matches!(ops[0], DiffOp::Equal(0, 0)));
    assert!(matches!(ops[2100], DiffOp::Equal(2099, 2099)));
}

#[test]
fn summary_of_file_changes() {
    assert!(summarize_diffs(&vec![]).is_none());
    let ds = vec![diff("a.rs", "x\n", "y\n", 1, 1)];
    let s = summarize_diffs(&ds).unwrap();
    assert_eq!(s.summary, "1 file changed  +1  -1");
    assert_eq!(s.files_label, "1 file changed");
    assert_eq!(s.additions_label, "+1");
    assert_eq!(s.deletions_label, "-1");
    assert_eq!(s.diff_text, "── a.rs (+1 -1) ──\n-x\n+y\n\n");
    let ds2 = vec![diff("a", "", "", 2, 0), diff("b", "q", "q", 3, 4)];
    let s2 = summarize_diffs(&ds2).unwrap();
    assert_eq!(s2.summary, "2 files changed  +5  -4");
    assert_eq!(s2.diff_text, "── a (+2 -0) ──\n (no changes)\n\n── b (+3 -4) ──\n\n");
}

#[test]
fn diff_lines_are_colored_by_their_first_characters() {
    let lines = classify_diff_lines("── a.rs (+1 -1) ──\n@@ -1 +1 @@\n-old\n+new\n same\n...\r\n");
    let kinds: Vec<DiffLineType> = lines.iter().map(|l| l.1).collect();
    assert_eq!(
        kinds,
        vec![
            DiffLineType::Header,
            DiffLineType::Context,
            DiffLineType::Deletion,
            DiffLineType::Addition,
            DiffLineType::Context,
            DiffLineType::Header
        ]
    );
    assert_eq!(lines[5].0, "...");
    assert!(classify_diff_lines("").is_empty());
}

#[test]
fn unchanged_text_shows_no_hunk() {
    assert_eq!(compute_unified_diff("a\nb\nc\n", "a\nb\nc\n", 3), "");
    assert_eq!(compute_unified_diff("", "", 3), " (no changes)\n");
}
