use sci_file_viewer::{
    content_title, entry_kind, line_number_width, popup_area, style_for, tree_title, visible_rows,
    EntryKind, Rgb,
};

#[test]
fn titles() {
    assert_eq!(tree_title(0, 10, 5), "Files");
    assert_eq!(tree_title(3, 10, 25), "Files [4-13/25]");
    assert_eq!(tree_title(20, 10, 25), "Files [21-25/25]");
    assert_eq!(content_title(0, 20, 0), " Content Viewer ");
    assert_eq!(content_title(0, 20, 5), " Content [1-5/5] ");
    assert_eq!(content_title(9, 20, 100), " Content [10-29/100] ");
}

#[test]
fn number_widths() {
    assert_eq!(line_number_width(0), 1);
    assert_eq!(line_number_width(9), 1);
    assert_eq!(line_number_width(10), 2);
    assert_eq!(line_number_width(1000), 4);
}

#[test]
fn rows_in_window() {
    assert_eq!(visible_rows(0, 5, 3), (0, 3));
    assert_eq!(visible_rows(2, 5, 10), (2, 7));
    assert_eq!(visible_rows(12, 5, 10), (10, 10));
}

#[test]
fn kinds_and_styles() {
    assert_eq!(entry_kind("..", true), EntryKind::Parent);
    assert_eq!(entry_kind("src", true), EntryKind::Directory);
    assert_eq!(entry_kind("mol.pdb", false), EntryKind::Science);
    assert_eq!(entry_kind("a.b.csv", false), EntryKind::Data);
    assert_eq!(entry_kind("notes.txt", false), EntryKind::Text);
    assert_eq!(entry_kind("main.rs", false), EntryKind::Code);
    assert_eq!(entry_kind(".txt", false), EntryKind::Other);
    assert_eq!(entry_kind("README", false), EntryKind::Other);
    assert_eq!(entry_kind("x.TXT", false), EntryKind::Other);
    assert_eq!(style_for(EntryKind::Data, true), ("\u{f0ce} ", Rgb { r: 152, g: 195, b: 121 }));
    assert_eq!(style_for(EntryKind::Directory, false).0, "📁 ");
}

#[test]
fn popup_geometry() {
    assert_eq!(popup_area(100, 40, 0), (25, 17, 50, 5));
    assert_eq!(popup_area(200, 40, 3), (70, 16, 60, 7));
    assert_eq!(popup_area(40, 20, 12), (5, 3, 30, 14));
}
