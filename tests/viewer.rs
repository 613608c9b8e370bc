use sci_file_viewer::{
    decimal_text, format_size, FileMeta, FileViewer, BINARY_FILE_LINE, EMPTY_FILE_LINE,
};

fn meta(size: u64) -> FileMeta {
    FileMeta { size: Some(size), created: Some(0), modified: Some(86_400 * 365 + 61) }
}

fn viewer() -> FileViewer {
    FileViewer::new(vec!["welcome".to_string()], 3)
}

#[test]
fn empty_file_shows_placeholder() {
    let mut v = viewer();
    v.show_text("/e".to_string(), "", &meta(0), 0);
    assert_eq!(v.lines, vec![EMPTY_FILE_LINE.to_string()]);
    assert_eq!(v.lines[0], "(empty file)");
    assert_eq!(
        v.stats,
        "Size: 0 B\nCreated: 1970-01-01 00:00:00\nModified: 1971-01-01 00:01:01\nLines: 1"
    );
    assert!(!v.stats.contains("Data points"));
    assert_eq!(v.path, Some("/e".to_string()));
}

#[test]
fn chart_file_stats_count_points() {
    let mut v = viewer();
    v.show_text("/d".to_string(), "1 2\n3 4\n5 6\n", &meta(12), 3);
    assert_eq!(v.lines.len(), 3);
    assert!(v.stats.ends_with("\nLines: 3\nData points: 3"));
    v.show_text("/d".to_string(), "1 2\n", &meta(4), 1);
    assert_eq!(v.points, 0);
    assert!(v.stats.ends_with("\nLines: 1"));
}

#[test]
fn binary_file_has_metadata_only() {
    let mut v = viewer();
    v.show_binary("/b".to_string(), &FileMeta { size: Some(2048), created: None, modified: None });
    assert_eq!(v.lines, vec![BINARY_FILE_LINE.to_string()]);
    assert_eq!(
        v.stats,
        "Size: 2.00 KB\nCreated: 1970-01-01 00:00:00\nModified: 1970-01-01 00:00:00"
    );
    assert!(!v.stats.contains("Lines:"));
}

#[test]
fn sizes_for_people() {
    assert_eq!(format_size(0), "0 B");
    assert_eq!(format_size(1023), "1023 B");
    assert_eq!(format_size(1024), "1.00 KB");
    assert_eq!(format_size(1536), "1.50 KB");
    assert_eq!(format_size(1035), "1.01 KB");
    assert_eq!(format_size(1152), "1.12 KB");
    assert_eq!(format_size(1048576), "1.00 MB");
    assert_eq!(format_size(1048575), "1024.00 KB");
    assert_eq!(format_size(1073741824), "1.00 GB");
    assert_eq!(format_size(5 * 1073741824 + 536870912), "5.50 GB");
}

#[test]
fn sizes_match_float_formatting() {
    for b in [1024u64, 1100, 1152, 1408, 2047, 4095, 10_000, 123_456, 999_999, 5_000_000, 3_000_000_000] {
        let expect = if b >= 1 << 30 {
            format!("{:.2} GB", b as f64 / (1u64 << 30) as f64)
        } else if b >= 1 << 20 {
            format!("{:.2} MB", b as f64 / (1u64 << 20) as f64)
        } else {
            format!("{:.2} KB", b as f64 / 1024.0)
        };
        assert_eq!(format_size(b), expect);
    }
}

#[test]
fn decimal_digits() {
    assert_eq!(decimal_text(0), "0");
    assert_eq!(decimal_text(907), "907");
    assert_eq!(decimal_text(u64::MAX), u64::MAX.to_string());
}

#[test]
fn scrolling_is_clamped() {
    let mut v = viewer();
    let text: String = (0..10).map(|i| format!("l{}\n", i)).collect();
    v.show_text("/t".to_string(), &text, &meta(1), 0);
    v.page_down();
    assert_eq!(v.scroll, 3);
    v.page_down();
    assert_eq!(v.scroll, 6);
    v.page_down();
    assert_eq!(v.scroll, 7);
    assert!(!v.line_down());
    assert_eq!(v.scroll, 7);
    assert!(v.line_up());
    assert_eq!(v.scroll, 6);
    v.page_up();
    v.page_up();
    v.page_up();
    assert_eq!(v.scroll, 0);
    assert!(!v.line_up());
    v.to_end();
    assert_eq!(v.scroll, 7);
    v.to_start();
    assert_eq!(v.scroll, 0);
}

#[test]
fn resizing_keeps_scroll_and_next_move_clamps() {
    let mut v = viewer();
    let text: String = (0..10).map(|i| format!("l{}\n", i)).collect();
    v.show_text("/t".to_string(), &text, &meta(1), 0);
    v.to_end();
    assert_eq!(v.scroll, 7);
    v.set_height(5);
    assert_eq!(v.scroll, 7);
    assert!(v.line_down());
    assert_eq!(v.scroll, 5);
    v.set_height(20);
    assert_eq!(v.scroll, 5);
    assert!(v.line_up());
    assert_eq!(v.scroll, 0);
    v.to_end();
    assert_eq!(v.scroll, 0);
    v.set_height(2);
    v.page_down();
    assert_eq!(v.scroll, 2);
    v.set_height(9);
    assert_eq!(v.scroll, 2);
    v.page_up();
    assert_eq!(v.scroll, 0);
}

#[test]
fn epoch_time_is_written_out() {
    let mut v = viewer();
    v.show_binary("/b".to_string(), &FileMeta { size: None, created: Some(0), modified: Some(1_700_000_000) });
    assert_eq!(
        v.stats,
        "Size: 0 B\nCreated: 1970-01-01 00:00:00\nModified: 2023-11-14 22:13:20"
    );
}
