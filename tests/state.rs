use sci_file_viewer::{Action, AppState, DirectoryEntry, DirectoryModel, FileMeta, Key};

fn entry(name: &str, is_dir: bool) -> DirectoryEntry {
    DirectoryEntry { name: name.to_string(), path: format!("/w/{}", name), is_dir }
}

fn app() -> AppState {
    let listing = DirectoryModel::new(
        "/w".to_string(),
        Some("/".to_string()),
        vec![entry("data.dat", false), entry("sub", true)],
        10,
    );
    AppState::new(listing, "/start".to_string())
}

fn meta() -> FileMeta {
    FileMeta { size: Some(10), created: None, modified: None }
}

#[test]
fn enter_on_directory_and_file() {
    let mut a = app();
    assert!(matches!(a.handle_key(Key::Enter), Action::Navigate(p) if p == "/"));
    a.handle_key(Key::Down);
    assert!(matches!(a.handle_key(Key::Enter), Action::Navigate(p) if p == "/w/sub"));
    a.handle_key(Key::Down);
    assert!(matches!(a.handle_key(Key::Enter), Action::Open(p) if p == "/w/data.dat"));
}

#[test]
fn navigation_keys() {
    let mut a = app();
    assert!(matches!(a.handle_key(Key::Backspace), Action::Navigate(p) if p == "/"));
    assert!(matches!(a.handle_key(Key::Char('.')), Action::Navigate(p) if p == "/start"));
    assert!(matches!(a.handle_key(Key::Char('~')), Action::GoHome));
    assert!(matches!(a.handle_key(Key::Char('r')), Action::Refresh));
    assert!(matches!(a.handle_key(Key::Char('q')), Action::Quit));
    a.enter_directory("/".to_string(), None, vec![entry("w", true)]);
    assert!(matches!(a.handle_key(Key::Backspace), Action::Stay));
    assert_eq!(a.dir.current, "/");
}

#[test]
fn opening_files_records_and_dirties() {
    let mut a = app();
    assert!(!a.take_dirty());
    a.open_text("/w/data.dat".to_string(), "1 2\n3 4\n", &meta(), 2);
    assert!(a.take_dirty());
    assert!(!a.take_dirty());
    a.open_binary("/w/b.bin".to_string(), &meta());
    assert_eq!(a.recent.paths, vec!["/w/b.bin", "/w/data.dat"]);
    assert_eq!(a.viewer.path, Some("/w/b.bin".to_string()));
}

#[test]
fn popup_keys() {
    let mut a = app();
    a.open_text("/x".to_string(), "x", &meta(), 0);
    a.open_text("/y".to_string(), "y", &meta(), 0);
    a.take_dirty();
    assert!(matches!(a.handle_key(Key::Char('h')), Action::Stay));
    assert!(a.popup_open);
    assert!(matches!(a.handle_key(Key::Char('j')), Action::Stay));
    assert!(matches!(a.handle_key(Key::Char('q')), Action::Stay));
    assert!(!a.popup_open);
    a.handle_key(Key::Char('h'));
    a.handle_key(Key::Down);
    assert_eq!(a.recent.selected, 1);
    a.handle_key(Key::Down);
    assert_eq!(a.recent.selected, 0);
    a.handle_key(Key::Up);
    assert_eq!(a.recent.selected, 1);
    assert!(matches!(a.handle_key(Key::Enter), Action::Open(p) if p == "/x"));
    assert!(!a.popup_open);
}

#[test]
fn popup_without_history_stays_open_on_enter() {
    let mut a = app();
    a.handle_key(Key::Char('h'));
    assert!(matches!(a.handle_key(Key::Enter), Action::Stay));
    assert!(a.popup_open);
    a.handle_key(Key::Esc);
    assert!(!a.popup_open);
}

#[test]
fn toggles_and_scrolling_set_dirty() {
    let mut a = app();
    a.handle_key(Key::Char('c'));
    assert!(!a.chart_visible);
    assert!(a.take_dirty());
    a.handle_key(Key::Char('n'));
    assert!(!a.nerd_icons);
    assert!(a.take_dirty());
    a.set_heights(5, 2);
    let text: String = (0..6).map(|i| format!("{}\n", i)).collect();
    a.open_text("/t".to_string(), &text, &meta(), 0);
    a.take_dirty();
    a.handle_key(Key::Char('j'));
    assert_eq!(a.viewer.scroll, 1);
    assert!(a.take_dirty());
    a.handle_key(Key::Char('k'));
    a.handle_key(Key::Char('k'));
    assert_eq!(a.viewer.scroll, 0);
    a.take_dirty();
    a.handle_key(Key::Char('k'));
    assert!(!a.take_dirty());
    a.handle_key(Key::End);
    assert_eq!(a.viewer.scroll, 4);
    a.handle_key(Key::PageUp);
    assert_eq!(a.viewer.scroll, 2);
    a.handle_key(Key::Char('d'));
    assert_eq!(a.viewer.scroll, 4);
    a.handle_key(Key::Home);
    assert_eq!(a.viewer.scroll, 0);
    assert!(a.take_dirty());
}

#[test]
fn other_keys_do_nothing() {
    let mut a = app();
    assert!(matches!(a.handle_key(Key::Char('z')), Action::Stay));
    assert!(matches!(a.handle_key(Key::Other), Action::Stay));
    assert!(!a.take_dirty());
}
