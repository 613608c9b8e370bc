use sci_file_viewer::{listing_before, scroll_for, sort_entries, DirectoryEntry, DirectoryModel};

fn entry(name: &str, is_dir: bool) -> DirectoryEntry {
    DirectoryEntry { name: name.to_string(), path: format!("/d/{}", name), is_dir }
}

fn names(v: &[DirectoryEntry]) -> Vec<String> {
    v.iter().map(|e| e.name.clone()).collect()
}

#[test]
fn directories_first_then_case_insensitive() {
    let items = vec![
        entry("b.txt", false),
        entry("Zeta", true),
        entry("A.dat", false),
        entry("alpha", true),
        entry("B", false),
    ];
    let sorted = sort_entries(items);
    assert_eq!(names(&sorted), vec!["alpha", "Zeta", "A.dat", "B", "b.txt"]);
}

#[test]
fn lowercase_decides_order() {
    let sorted = sort_entries(vec![entry("B", false), entry("a", false)]);
    assert_eq!(names(&sorted), vec!["a", "B"]);
}

#[test]
fn parent_row_comes_first() {
    let m = DirectoryModel::new(
        "/d".to_string(),
        Some("/".to_string()),
        vec![entry("f", false), entry("a", true)],
        10,
    );
    assert_eq!(names(&m.entries), vec!["..", "a", "f"]);
    assert_eq!(m.entries[0].path, "/");
    assert!(m.entries[0].is_dir);
    let root = DirectoryModel::new("/".to_string(), None, vec![entry("x", true)], 10);
    assert_eq!(names(&root.entries), vec!["x"]);
}

#[test]
fn scroll_follows_selection() {
    assert_eq!(scroll_for(5, 0, 3), 3);
    assert_eq!(scroll_for(2, 4, 3), 2);
    assert_eq!(scroll_for(4, 3, 3), 3);
    assert_eq!(scroll_for(0, 0, 1), 0);
}

#[test]
fn moving_down_keeps_selection_visible() {
    let items: Vec<DirectoryEntry> = (0..8).map(|i| entry(&format!("f{}", i), false)).collect();
    let mut m = DirectoryModel::new("/d".to_string(), None, items, 3);
    for _ in 0..20 {
        m.move_down();
        assert!(m.scroll <= m.selected && m.selected <= m.scroll + m.height - 1);
    }
    assert_eq!(m.selected, 7);
    assert_eq!(m.scroll, 5);
    for _ in 0..20 {
        m.move_up();
        assert!(m.scroll <= m.selected && m.selected <= m.scroll + m.height - 1);
    }
    assert_eq!(m.selected, 0);
    assert_eq!(m.scroll, 0);
}

#[test]
fn select_clamps_and_empty_is_noop() {
    let items: Vec<DirectoryEntry> = (0..4).map(|i| entry(&format!("f{}", i), false)).collect();
    let mut m = DirectoryModel::new("/d".to_string(), None, items, 2);
    m.select(99);
    assert_eq!(m.selected, 3);
    assert_eq!(m.scroll, 2);
    let mut e = DirectoryModel::new("/e".to_string(), None, Vec::new(), 2);
    e.select(3);
    assert_eq!(e.selected, 0);
    assert!(e.activate().is_none());
}

#[test]
fn refresh_keeps_or_clamps_selection() {
    let items: Vec<DirectoryEntry> = (0..6).map(|i| entry(&format!("f{}", i), false)).collect();
    let mut m = DirectoryModel::new("/d".to_string(), None, items, 3);
    m.select(4);
    m.refresh(None, (0..6).map(|i| entry(&format!("f{}", i), false)).collect());
    assert_eq!(m.selected, 4);
    m.refresh(None, (0..2).map(|i| entry(&format!("f{}", i), false)).collect());
    assert_eq!(m.selected, 1);
    assert!(m.scroll <= 1);
    m.navigate("/x".to_string(), Some("/".to_string()), vec![entry("a", false)]);
    assert_eq!(m.selected, 0);
    assert_eq!(m.current, "/x");
}

#[test]
fn activate_reports_kind_and_path() {
    let mut m = DirectoryModel::new("/d".to_string(), None, vec![entry("sub", true), entry("f", false)], 5);
    assert_eq!(m.activate(), Some((true, "/d/sub".to_string())));
    m.move_down();
    assert_eq!(m.activate(), Some((false, "/d/f".to_string())));
}

#[test]
fn zero_height_counts_as_one_row() {
    let items: Vec<DirectoryEntry> = (0..4).map(|i| entry(&format!("f{}", i), false)).collect();
    let mut m = DirectoryModel::new("/d".to_string(), None, items, 0);
    m.move_down();
    m.move_down();
    assert_eq!(m.height, 1);
    assert_eq!(m.scroll, 2);
}

fn key(s: &str) -> Vec<char> {
    s.chars().collect()
}

#[test]
fn listing_order_on_lowered_keys() {
    assert!(listing_before(true, &key("zeta"), false, &key("alpha")));
    assert!(!listing_before(false, &key("alpha"), true, &key("zeta")));
    assert!(listing_before(false, &key("a.dat"), false, &key("b")));
    assert!(!listing_before(false, &key("b.txt"), false, &key("b")));
    assert!(listing_before(false, &key("b"), false, &key("b.txt")));
    assert!(listing_before(true, &key("same"), true, &key("same")));
    assert!(listing_before(true, &key(""), true, &key("a")));
    assert!(!listing_before(true, &key("é"), true, &key("z")));
}
