use crate::directory::{scroll_for_spec, DirectoryEntry, DirectoryModel};
use crate::recent::RecentFiles;
use crate::viewer::{at_most, FileMeta, FileViewer};
use vstd::prelude::*;
use vstd::string::StringExecFns;

verus! {

/// A key press, as far as the viewer tells keys apart.
#[derive(PartialEq, Eq, Structural, Clone, Copy, Debug)]
pub enum Key {
    Up,
    Down,
    Enter,
    Backspace,
    Esc,
    PageUp,
    PageDown,
    Home,
    End,
    Char(char),
    Other,
}

/// What the state machine asks its host to do after a key press.
#[derive(Debug)]
pub enum Action {
    /// Nothing beyond drawing the new state.
    Stay,
    /// Remember the current directory and end.
    Quit,
    /// List this directory and move there.
    Navigate(String),
    /// List the current directory again.
    Refresh,
    /// Read this file and show it.
    Open(String),
    /// Move to the user's home directory, if there is one.
    GoHome,
}

/// Keys that move the viewer's window.
pub open spec fn is_scroll_key(key: Key) -> bool {
    key == Key::Char('j') || key == Key::Char('k') || key == Key::Char('u') || key == Key::Char('d')
        || key == Key::PageUp || key == Key::PageDown || key == Key::Home || key == Key::End
}

/// The whole state of the viewer: the directory listing, the opened file,
/// the recent files, and how they are shown.
pub struct AppState {
    pub dir: DirectoryModel,
    pub viewer: FileViewer,
    pub recent: RecentFiles,
    pub startup: String,
    pub chart_visible: bool,
    pub nerd_icons: bool,
    pub popup_open: bool,
    pub dirty: bool,
}

/// The text shown before any file is opened.
pub open spec fn welcome_text() -> Seq<Seq<char>> {
    seq![
        "Welcome to Scientific File Viewer!"@,
        Seq::<char>::empty(),
        "Select a file and press Enter to view its contents."@,
        Seq::<char>::empty(),
        "Supported formats: .txt, .dat, .cif, .xyz, .pdb"@,
    ]
}

/// The presentation flags and the startup directory are the same in both
/// states.
pub open spec fn same_settings(a: AppState, b: AppState) -> bool {
    &&& a.startup == b.startup
    &&& a.chart_visible == b.chart_visible
    &&& a.nerd_icons == b.nerd_icons
    &&& a.popup_open == b.popup_open
}

/// The lines shown before any file is opened.
pub fn welcome_lines() -> (r: Vec<String>)
    ensures
        crate::text::views(r@) == welcome_text(),
        r.len() == 5,
{
    let mut r: Vec<String> = Vec::new();
    r.push(String::from_str("Welcome to Scientific File Viewer!"));
    r.push(String::new());
    r.push(String::from_str("Select a file and press Enter to view its contents."));
    r.push(String::new());
    r.push(String::from_str("Supported formats: .txt, .dat, .cif, .xyz, .pdb"));
    assert(crate::text::views(r@) =~= welcome_text());
    r
}

impl AppState {
    pub open spec fn wf(&self) -> bool {
        self.dir.wf() && self.viewer.wf() && self.recent.wf()
    }

    /// The state at startup: `listing` shows the start directory, `startup`
    /// is the directory the program was started from.
    pub fn new(listing: DirectoryModel, startup: String) -> (r: Self)
        requires
            listing.wf(),
        ensures
            r.wf(),
            r.dir == listing,
            r.startup == startup,
            r.viewer.path is None,
            crate::text::views(r.viewer.lines@) == welcome_text(),
            r.viewer.stats@ == "No file selected"@,
            r.viewer.scroll == 0,
            r.viewer.height == 20,
            r.viewer.points == 0,
            r.recent.view().len() == 0,
            r.recent.selected == 0,
            r.chart_visible,
            r.nerd_icons,
            !r.popup_open,
            !r.dirty,
    {
        AppState {
            dir: listing,
            viewer: FileViewer::new(welcome_lines(), 20),
            recent: RecentFiles::new(),
            startup,
            chart_visible: true,
            nerd_icons: true,
            popup_open: false,
            dirty: false,
        }
    }

    /// What a key does while the recent-files list is open.
    pub open spec fn popup_key_spec(old_s: AppState, new_s: AppState, key: Key, a: Action) -> bool {
        &&& new_s.startup == old_s.startup
        &&& new_s.dir == old_s.dir
        &&& new_s.viewer == old_s.viewer
        &&& new_s.recent.paths == old_s.recent.paths
        &&& new_s.chart_visible == old_s.chart_visible
        &&& new_s.nerd_icons == old_s.nerd_icons
        &&& new_s.dirty == old_s.dirty
        &&& match key {
            Key::Esc | Key::Char('q') | Key::Char('h') => !new_s.popup_open && a is Stay
                && new_s.recent.selected == old_s.recent.selected,
            Key::Up => new_s.popup_open && a is Stay && new_s.recent.selected == if old_s.recent.paths.len() == 0 {
                0
            } else if old_s.recent.selected == 0 {
                old_s.recent.paths.len() - 1
            } else {
                old_s.recent.selected - 1
            },
            Key::Down => new_s.popup_open && a is Stay && new_s.recent.selected == if old_s.recent.paths.len() == 0 {
                0
            } else {
                (old_s.recent.selected + 1) % (old_s.recent.paths.len() as int)
            },
            Key::Enter => new_s.recent.selected == old_s.recent.selected && if old_s.recent.paths.len() == 0 {
                new_s.popup_open && a is Stay
            } else {
                !new_s.popup_open && (a matches Action::Open(p) && p@ == old_s.recent.view()[old_s.recent.selected as int])
            },
            _ => new_s.popup_open && a is Stay && new_s.recent.selected == old_s.recent.selected,
        }
    }

    /// Handles a key while the recent-files list is open.
    fn popup_key(&mut self, key: Key) -> (a: Action)
        requires
            old(self).wf(),
            old(self).popup_open,
        ensures
            final(self).wf(),
            Self::popup_key_spec(*old(self), *final(self), key, a),
    {
        match key {
            Key::Esc | Key::Char('q') | Key::Char('h') => {
                self.popup_open = false;
                Action::Stay
            },
            Key::Up => {
                self.recent.select_previous();
                Action::Stay
            },
            Key::Down => {
                self.recent.select_next();
                Action::Stay
            },
            Key::Enter => {
                match self.recent.selected_path() {
                    Some(p) => {
                        self.popup_open = false;
                        Action::Open(p)
                    },
                    None => Action::Stay,
                }
            },
            _ => Action::Stay,
        }
    }

    /// Handles a key press: updates the state and says what the host is to
    /// do. While the recent-files list is open only its keys count.
    pub fn handle_key(&mut self, key: Key) -> (a: Action)
        requires
            old(self).wf(),
        ensures
            final(self).wf(),
            final(self).startup == old(self).startup,
            old(self).popup_open ==> Self::popup_key_spec(*old(self), *final(self), key, a),
            !old(self).popup_open ==> {
                &&& final(self).recent.paths == old(self).recent.paths
                &&& final(self).dir.entries == old(self).dir.entries
                &&& final(self).dir.current == old(self).dir.current
                &&& final(self).viewer.lines == old(self).viewer.lines
                &&& final(self).viewer.path == old(self).viewer.path
                &&& final(self).viewer.stats == old(self).viewer.stats
                &&& final(self).viewer.points == old(self).viewer.points
                &&& final(self).viewer.height == old(self).viewer.height
                &&& final(self).dir.height == old(self).dir.height
                &&& (key != Key::Char('c') ==> final(self).chart_visible == old(self).chart_visible)
                &&& (key != Key::Char('n') ==> final(self).nerd_icons == old(self).nerd_icons)
                &&& (key != Key::Char('h') ==> !final(self).popup_open)
                &&& (key != Key::Char('h') ==> final(self).recent == old(self).recent)
                &&& (key != Key::Up && key != Key::Down ==> final(self).dir == old(self).dir)
                &&& (!is_scroll_key(key) ==> final(self).viewer == old(self).viewer)
                &&& (!is_scroll_key(key) && key != Key::Char('c') && key != Key::Char('n')
                    ==> final(self).dirty == old(self).dirty)
                &&& match key {
                    Key::Char('q') => a is Quit && final(self).dir == old(self).dir,
                    Key::Up => a is Stay && final(self).dir.selected == (if old(self).dir.selected > 0 {
                        old(self).dir.selected - 1
                    } else {
                        0
                    }) && final(self).dir.scroll == scroll_for_spec(
                        final(self).dir.selected as int,
                        old(self).dir.scroll as int,
                        old(self).dir.height as int,
                    ),
                    Key::Down => a is Stay && final(self).dir.selected == (if old(self).dir.selected + 1
                        < old(self).dir.entries.len() {
                        old(self).dir.selected + 1
                    } else {
                        old(self).dir.selected as int
                    }) && final(self).dir.scroll == scroll_for_spec(
                        final(self).dir.selected as int,
                        old(self).dir.scroll as int,
                        old(self).dir.height as int,
                    ),
                    Key::Enter => if old(self).dir.entries.len() == 0 {
                        a is Stay
                    } else {
                        let e = old(self).dir.entries@[old(self).dir.selected as int];
                        if e.is_dir {
                            a matches Action::Navigate(p) && p@ == e.path@
                        } else {
                            a matches Action::Open(p) && p@ == e.path@
                        }
                    },
                    Key::Backspace => match old(self).dir.parent {
                        Some(p) => a matches Action::Navigate(q) && q@ == p@,
                        None => a is Stay,
                    },
                    Key::Char('j') => a is Stay && final(self).viewer.scroll == at_most(
                        old(self).viewer.scroll + 1,
                        old(self).viewer.max_scroll(),
                    ) && final(self).dirty == (old(self).dirty || final(self).viewer.scroll != old(self).viewer.scroll),
                    Key::Char('k') => a is Stay && final(self).viewer.scroll == at_most(
                        if old(self).viewer.scroll > 0 {
                            old(self).viewer.scroll - 1
                        } else {
                            0
                        },
                        old(self).viewer.max_scroll(),
                    ) && final(self).dirty == (old(self).dirty || final(self).viewer.scroll != old(self).viewer.scroll),
                    Key::Char('u') | Key::PageUp => a is Stay && final(self).dirty && final(self).viewer.scroll
                        == at_most(
                        if old(self).viewer.scroll > old(self).viewer.height {
                            old(self).viewer.scroll - old(self).viewer.height
                        } else {
                            0
                        },
                        old(self).viewer.max_scroll(),
                    ),
                    Key::Char('d') | Key::PageDown => a is Stay && final(self).dirty
                        && final(self).viewer.scroll == if old(self).viewer.scroll + old(self).viewer.height
                        < old(self).viewer.max_scroll() {
                        old(self).viewer.scroll + old(self).viewer.height
                    } else {
                        old(self).viewer.max_scroll()
                    },
                    Key::Home => a is Stay && final(self).dirty && final(self).viewer.scroll == 0,
                    Key::End => a is Stay && final(self).dirty && final(self).viewer.scroll
                        == old(self).viewer.max_scroll(),
                    Key::Char('.') => a matches Action::Navigate(p) && p@ == old(self).startup@,
                    Key::Char('~') => a is GoHome,
                    Key::Char('c') => a is Stay && final(self).dirty && final(self).chart_visible
                        == !old(self).chart_visible,
                    Key::Char('n') => a is Stay && final(self).dirty && final(self).nerd_icons
                        == !old(self).nerd_icons,
                    Key::Char('r') => a is Refresh,
                    Key::Char('h') => a is Stay && final(self).popup_open && final(self).recent.selected
                        == 0,
                    _ => a is Stay && *final(self) == *old(self),
                }
            },
    {
        if self.popup_open {
            return self.popup_key(key);
        }
        match key {
            Key::Char('q') => Action::Quit,
            Key::Up => {
                self.dir.move_up();
                Action::Stay
            },
            Key::Down => {
                self.dir.move_down();
                Action::Stay
            },
            Key::Enter => match self.dir.activate() {
                Some((true, p)) => Action::Navigate(p),
                Some((false, p)) => Action::Open(p),
                None => Action::Stay,
            },
            Key::Backspace => match &self.dir.parent {
                Some(p) => Action::Navigate(p.clone()),
                None => Action::Stay,
            },
            Key::Char('j') => {
                if self.viewer.line_down() {
                    self.dirty = true;
                }
                Action::Stay
            },
            Key::Char('k') => {
                if self.viewer.line_up() {
                    self.dirty = true;
                }
                Action::Stay
            },
            Key::Char('u') | Key::PageUp => {
                self.viewer.page_up();
                self.dirty = true;
                Action::Stay
            },
            Key::Char('d') | Key::PageDown => {
                self.viewer.page_down();
                self.dirty = true;
                Action::Stay
            },
            Key::Home => {
                self.viewer.to_start();
                self.dirty = true;
                Action::Stay
            },
            Key::End => {
                self.viewer.to_end();
                self.dirty = true;
                Action::Stay
            },
            Key::Char('.') => Action::Navigate(self.startup.clone()),
            Key::Char('~') => Action::GoHome,
            Key::Char('c') => {
                self.chart_visible = !self.chart_visible;
                self.dirty = true;
                Action::Stay
            },
            Key::Char('n') => {
                self.nerd_icons = !self.nerd_icons;
                self.dirty = true;
                Action::Stay
            },
            Key::Char('r') => Action::Refresh,
            Key::Char('h') => {
                self.popup_open = true;
                self.recent.select_first();
                Action::Stay
            },
            _ => Action::Stay,
        }
    }

    /// Moves to directory `current`, listed as `items` with parent `parent`.
    pub fn enter_directory(&mut self, current: String, parent: Option<String>, items: Vec<DirectoryEntry>)
        requires
            old(self).wf(),
        ensures
            final(self).wf(),
            final(self).dir.current == current,
            final(self).dir.parent == parent,
            crate::directory::listing_of(parent, final(self).dir.entries@, items@),
            final(self).dir.selected == 0,
            final(self).dir.scroll == 0,
            final(self).dir.height == old(self).dir.height,
            final(self).viewer == old(self).viewer,
            final(self).recent == old(self).recent,
            same_settings(*final(self), *old(self)),
            final(self).dirty == old(self).dirty,
    {
        self.dir.navigate(current, parent, items);
    }

    /// Shows the current directory again, listed as `items`: the selection
    /// stays where it was, moved back onto the last row if the listing has
    /// become shorter.
    pub fn refresh_directory(&mut self, parent: Option<String>, items: Vec<DirectoryEntry>)
        requires
            old(self).wf(),
        ensures
            final(self).wf(),
            final(self).dir.current == old(self).dir.current,
            final(self).dir.parent == parent,
            crate::directory::listing_of(parent, final(self).dir.entries@, items@),
            final(self).dir.selected == if old(self).dir.selected < final(self).dir.entries.len() {
                old(self).dir.selected as int
            } else if final(self).dir.entries.len() > 0 {
                final(self).dir.entries.len() - 1
            } else {
                0
            },
            final(self).dir.scroll == scroll_for_spec(
                final(self).dir.selected as int,
                old(self).dir.scroll as int,
                old(self).dir.height as int,
            ),
            final(self).dir.height == old(self).dir.height,
            final(self).viewer == old(self).viewer,
            final(self).recent == old(self).recent,
            same_settings(*final(self), *old(self)),
            final(self).dirty == old(self).dirty,
    {
        self.dir.refresh(parent, items);
    }

    /// Shows the text file `path` with contents `text`, from which `samples`
    /// numeric samples were read, and records it as the most recent file.
    pub fn open_text(&mut self, path: String, text: &str, meta: &FileMeta, samples: usize)
        requires
            old(self).wf(),
            samples <= crate::series::candidates(crate::series::lines_of(text@)).len(),
        ensures
            final(self).wf(),
            final(self).viewer.path == Some(path),
            final(self).viewer.scroll == 0,
            final(self).viewer.height == old(self).viewer.height,
            crate::text::views(final(self).viewer.lines@) == crate::viewer::shown_lines(text@),
            final(self).viewer.points == if samples >= crate::series::MIN_CHART_SAMPLES {
                samples
            } else {
                0
            },
            final(self).viewer.stats@ == crate::viewer::text_stats(
                *meta,
                final(self).viewer.lines.len() as nat,
                final(self).viewer.points as nat,
            ),
            final(self).recent.view() == crate::recent::record_spec(old(self).recent.view(), path@),
            final(self).recent.selected == old(self).recent.selected,
            final(self).dirty,
            final(self).dir == old(self).dir,
            same_settings(*final(self), *old(self)),
    {
        self.recent.record(&path);
        self.viewer.show_text(path, text, meta, samples);
        self.dirty = true;
    }

    /// Shows the file `path`, which is not text, and records it as the most
    /// recent file.
    pub fn open_binary(&mut self, path: String, meta: &FileMeta)
        requires
            old(self).wf(),
        ensures
            final(self).wf(),
            final(self).viewer.path == Some(path),
            final(self).viewer.scroll == 0,
            final(self).viewer.height == old(self).viewer.height,
            crate::text::views(final(self).viewer.lines@) == seq![crate::viewer::BINARY_FILE_LINE@],
            final(self).viewer.points == 0,
            final(self).viewer.stats@ == crate::viewer::meta_text(*meta),
            final(self).recent.view() == crate::recent::record_spec(old(self).recent.view(), path@),
            final(self).recent.selected == old(self).recent.selected,
            final(self).dirty,
            final(self).dir == old(self).dir,
            same_settings(*final(self), *old(self)),
    {
        self.recent.record(&path);
        self.viewer.show_binary(path, meta);
        self.dirty = true;
    }

    /// Records the heights of the listing's and the viewer's windows. The
    /// listing scrolls as little as it must to keep the selection in view;
    /// the viewer stays where it is.
    pub fn set_heights(&mut self, tree_height: usize, content_height: usize)
        requires
            old(self).wf(),
        ensures
            final(self).wf(),
            final(self).dir.height == if tree_height >= 1 { tree_height } else { 1 },
            final(self).dir.entries == old(self).dir.entries,
            final(self).dir.current == old(self).dir.current,
            final(self).dir.parent == old(self).dir.parent,
            final(self).dir.selected == old(self).dir.selected,
            final(self).dir.scroll == scroll_for_spec(
                old(self).dir.selected as int,
                old(self).dir.scroll as int,
                final(self).dir.height as int,
            ),
            final(self).viewer.height == content_height,
            final(self).viewer.lines == old(self).viewer.lines,
            final(self).viewer.path == old(self).viewer.path,
            final(self).viewer.stats == old(self).viewer.stats,
            final(self).viewer.points == old(self).viewer.points,
            final(self).viewer.scroll == old(self).viewer.scroll,
            final(self).recent == old(self).recent,
            same_settings(*final(self), *old(self)),
            final(self).dirty == old(self).dirty,
    {
        self.dir.set_height(tree_height);
        self.viewer.set_height(content_height);
    }

    /// Whether the next drawing must clear the whole screen; clears the flag.
    pub fn take_dirty(&mut self) -> (r: bool)
        ensures
            r == old(self).dirty,
            !final(self).dirty,
            final(self).dir == old(self).dir,
            final(self).viewer == old(self).viewer,
            final(self).recent == old(self).recent,
            final(self).popup_open == old(self).popup_open,
    {
        let r = self.dirty;
        self.dirty = false;
        r
    }
}

} // verus!
