use sci_file_viewer::{RecentFiles, MAX_RECENT};

#[test]
fn recording_twice_keeps_one_entry_first() {
    let mut r = RecentFiles::new();
    r.record(&"/a".to_string());
    r.record(&"/b".to_string());
    r.record(&"/a".to_string());
    assert_eq!(r.paths, vec!["/a", "/b"]);
    r.record(&"/a".to_string());
    assert_eq!(r.paths, vec!["/a", "/b"]);
}

#[test]
fn eleventh_path_evicts_oldest() {
    let mut r = RecentFiles::new();
    for i in 0..11 {
        r.record(&format!("/f{}", i));
    }
    assert_eq!(r.paths.len(), MAX_RECENT);
    assert_eq!(r.paths[0], "/f10");
    assert_eq!(r.paths[9], "/f1");
    assert!(!r.paths.contains(&"/f0".to_string()));
}

#[test]
fn reopening_moves_to_front_without_eviction() {
    let mut r = RecentFiles::new();
    for i in 0..10 {
        r.record(&format!("/f{}", i));
    }
    r.record(&"/f3".to_string());
    assert_eq!(r.paths.len(), 10);
    assert_eq!(r.paths[0], "/f3");
    assert!(r.paths.contains(&"/f0".to_string()));
}

#[test]
fn selection_wraps_both_ways() {
    let mut r = RecentFiles::new();
    r.select_previous();
    r.select_next();
    assert_eq!(r.selected, 0);
    assert_eq!(r.selected_path(), None);
    for p in ["/a", "/b", "/c"] {
        r.record(&p.to_string());
    }
    r.select_previous();
    assert_eq!(r.selected, 2);
    assert_eq!(r.selected_path(), Some("/a".to_string()));
    r.select_next();
    assert_eq!(r.selected, 0);
    r.select_next();
    assert_eq!(r.selected, 1);
    r.select_first();
    assert_eq!(r.selected, 0);
}
