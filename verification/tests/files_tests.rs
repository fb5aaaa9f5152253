use openpad::files::{get_dir_entries, is_entry_shown, DirCache};

fn listing(items: &[(&str, bool)]) -> Vec<(String, bool)> {
    items.iter().map(|(n, d)| (n.to_string(), *d)).collect()
}

#[test]
fn hidden_and_ignored_entries_are_left_out() {
    assert!(!is_entry_shown(".env", false));
    assert!(!is_entry_shown(".github", true));
    assert!(!is_entry_shown(".git", true));
    assert!(is_entry_shown(".git", false));
    assert!(!is_entry_shown("node_modules", true));
    assert!(is_entry_shown("node_modules", false));
    assert!(!is_entry_shown("target", true));
    assert!(is_entry_shown("src", true));
}

#[test]
fn folders_come_first_then_names_without_case() {
    let es = get_dir_entries(
        "/work/p",
        listing(&[("b.txt", false), ("Zeta", true), ("alpha", true), ("A.md", false), (".hidden", false), ("target", true), ("c.rs", false)]),
    );
    let names: Vec<&str> = es.iter().map(|e| e.name.as_str()).collect();
    assert_eq!(names, vec!["alpha", "Zeta", "A.md", "b.txt", "c.rs"]);
    assert!(es[0].is_dir && es[1].is_dir && !es[2].is_dir);
    assert_eq!(es[0].full_path, "/work/p/alpha");
    assert_eq!(es[4].full_path, "/work/p/c.rs");
}

#[test]
fn entries_equal_but_for_case_keep_listing_order() {
    let es = get_dir_entries("d", listing(&[("readme", false), ("README", false), ("Readme", false)]));
    let names: Vec<&str> = es.iter().map(|e| e.name.as_str()).collect();
    assert_eq!(names, vec!["readme", "README", "Readme"]);
    assert_eq!(es[1].full_path, "d/README");
}

#[test]
fn empty_listing_gives_no_entry() {
    assert!(get_dir_entries("/x", vec![]).is_empty());
    assert!(get_dir_entries("/x", listing(&[(".a", false), ("dist", true)])).is_empty());
}

#[test]
fn dir_cache_remembers_listings_per_project_until_cleared() {
    let mut cache = DirCache::new();
    assert!(cache.cached("p1", "/work/p").is_none());
    cache.remember("p1".to_string(), "/work/p".to_string(), listing(&[("b.txt", false), ("src", true), (".env", false)]));
    cache.remember("p1".to_string(), "/work/p/src".to_string(), listing(&[("lib.rs", false)]));
    let names: Vec<&str> = cache.cached("p1", "/work/p").unwrap().iter().map(|e| e.name.as_str()).collect();
    assert_eq!(names, vec!["src", "b.txt"]);
    assert_eq!(cache.cached("p1", "/work/p/src").unwrap()[0].full_path, "/work/p/src/lib.rs");
    assert!(cache.cached("p2", "/work/p").is_none());
    cache.remember("p1".to_string(), "/work/p".to_string(), listing(&[("z", false)]));
    assert_eq!(cache.cached("p1", "/work/p").unwrap().len(), 1);
    cache.clear();
    assert!(cache.cached("p1", "/work/p").is_none());
    assert!(cache.cached("p1", "/work/p/src").is_none());
}
