use crate::format::{decimal, decimal_text, format_size, size_text};
use crate::series::{candidates, is_chart_data, lines_of, split_lines, MIN_CHART_SAMPLES};
use crate::text::views;
use vstd::prelude::*;
use vstd::string::StringExecFns;

verus! {

/// A Unix time (seconds since 1970-01-01 00:00:00 UTC) as chrono writes it with
/// `%Y-%m-%d %H:%M:%S`.
pub uninterp spec fn utc_text(secs: int) -> Seq<char>;

/// Relies on chrono's `DateTime::from_timestamp` and `format`: the UTC date and
/// time of a Unix time to the second. The seconds are read as `i64` (larger
/// values wrap to negative times), and the epoch stands where chrono has no
/// date for them.
#[verifier::external_body]
fn utc_timestamp(secs: u64) -> (r: String)
    ensures
        r@ == utc_text(secs as int),
        secs == 0 ==> r@ == "1970-01-01 00:00:00"@,
{
    let t = chrono::DateTime::from_timestamp(secs as i64, 0).unwrap_or(chrono::DateTime::UNIX_EPOCH);
    t.format("%Y-%m-%d %H:%M:%S").to_string()
}

/// What the file system told of a file; `None` where it could not say.
pub struct FileMeta {
    pub size: Option<u64>,
    pub created: Option<u64>,
    pub modified: Option<u64>,
}

/// A value that the file system did not give counts as zero.
pub open spec fn or_zero(v: Option<u64>) -> nat {
    match v {
        Some(x) => x as nat,
        None => 0,
    }
}

/// Size and times of a file, one per line.
pub open spec fn meta_text(m: FileMeta) -> Seq<char> {
    "Size: "@ + size_text(or_zero(m.size)) + "\nCreated: "@ + utc_text(or_zero(m.created) as int)
        + "\nModified: "@ + utc_text(or_zero(m.modified) as int)
}

/// The summary of a text file of `lines` lines that gave `points` chart samples
/// (zero when it holds no chart data).
pub open spec fn text_stats(m: FileMeta, lines: nat, points: nat) -> Seq<char> {
    meta_text(m) + "\nLines: "@ + decimal(lines) + if points > 0 {
        "\nData points: "@ + decimal(points)
    } else {
        Seq::<char>::empty()
    }
}

/// Shown in place of the lines of an empty file.
pub const EMPTY_FILE_LINE: &'static str = "(empty file)";

/// Shown in place of the lines of a file that is not text.
pub const BINARY_FILE_LINE: &'static str = "Binary file — no text content to display";

/// The lines shown for a text.
pub open spec fn shown_lines(text: Seq<char>) -> Seq<Seq<char>> {
    if lines_of(text).len() == 0 {
        seq![EMPTY_FILE_LINE@]
    } else {
        lines_of(text)
    }
}

/// The last first row for `len` lines in a window of `height` rows (a window
/// of no rows counts as one).
pub open spec fn max_scroll_spec(len: int, height: int) -> int {
    let h = if height >= 1 {
        height
    } else {
        1
    };
    if len > h {
        len - h
    } else {
        0
    }
}

/// `v`, but no more than `max`.
pub open spec fn at_most(v: int, max: int) -> int {
    if v <= max {
        v
    } else {
        max
    }
}

/// The lines of the opened file, the window onto them, and a summary of it.
pub struct FileViewer {
    pub path: Option<String>,
    pub lines: Vec<String>,
    pub scroll: usize,
    pub height: usize,
    pub stats: String,
    pub points: usize,
}

/// The summary of the size and times of a file.
fn meta_summary(meta: &FileMeta) -> (r: String)
    ensures
        r@ == meta_text(*meta),
{
    let size = match meta.size {
        Some(s) => s,
        None => 0,
    };
    let created = match meta.created {
        Some(s) => s,
        None => 0,
    };
    let modified = match meta.modified {
        Some(s) => s,
        None => 0,
    };
    let r = String::from_str("Size: ").concat(format_size(size).as_str()).concat("\nCreated: ").concat(
        utc_timestamp(created).as_str(),
    ).concat("\nModified: ").concat(utc_timestamp(modified).as_str());
    assert(r@ =~= meta_text(*meta));
    r
}

impl FileViewer {
    pub open spec fn wf(&self) -> bool {
        &&& self.lines.len() >= 1
        &&& self.scroll < self.lines.len()
    }

    pub open spec fn max_scroll(&self) -> int {
        max_scroll_spec(self.lines.len() as int, self.height as int)
    }

    /// A viewer that shows `welcome` until a file is opened.
    pub fn new(welcome: Vec<String>, height: usize) -> (r: Self)
        requires
            welcome.len() >= 1,
        ensures
            r.wf(),
            r.path is None,
            r.lines == welcome,
            r.scroll == 0,
            r.height == height,
            r.points == 0,
            r.stats@ == "No file selected"@,
    {
        FileViewer {
            path: None,
            lines: welcome,
            scroll: 0,
            height,
            stats: String::from_str("No file selected"),
            points: 0,
        }
    }

    /// Shows the text file `path` with contents `text`, from which `samples`
    /// numeric samples were read.
    pub fn show_text(&mut self, path: String, text: &str, meta: &FileMeta, samples: usize)
        requires
            samples <= candidates(lines_of(text@)).len(),
        ensures
            final(self).wf(),
            final(self).path == Some(path),
            views(final(self).lines@) == shown_lines(text@),
            final(self).scroll == 0,
            final(self).height == old(self).height,
            final(self).points == if samples >= MIN_CHART_SAMPLES {
                samples
            } else {
                0
            },
            final(self).stats@ == text_stats(
                *meta,
                final(self).lines.len() as nat,
                final(self).points as nat,
            ),
            text@.len() == 0 ==> views(final(self).lines@) == seq![EMPTY_FILE_LINE@]
                && final(self).points == 0 && final(self).stats@ == text_stats(*meta, 1, 0),
    {
        proof {
            if text@.len() == 0 {
                assert(lines_of(text@) =~= Seq::<Seq<char>>::empty());
            }
        }
        let mut lines = split_lines(text);
        if lines.len() == 0 {
            lines.push(String::from_str(EMPTY_FILE_LINE));
            assert(views(lines@) =~= seq![EMPTY_FILE_LINE@]);
        }
        self.points = if is_chart_data(samples) {
            samples
        } else {
            0
        };
        let mut stats = meta_summary(meta).concat("\nLines: ").concat(
            decimal_text(lines.len() as u64).as_str(),
        );
        if self.points > 0 {
            stats = stats.concat("\nData points: ").concat(decimal_text(self.points as u64).as_str());
        }
        assert(stats@ =~= text_stats(*meta, lines.len() as nat, self.points as nat));
        self.lines = lines;
        self.path = Some(path);
        self.scroll = 0;
        self.stats = stats;
    }

    /// Shows the file `path`, whose contents are not text: one line that says
    /// so, and its size and times.
    pub fn show_binary(&mut self, path: String, meta: &FileMeta)
        ensures
            final(self).wf(),
            final(self).path == Some(path),
            views(final(self).lines@) == seq![BINARY_FILE_LINE@],
            final(self).scroll == 0,
            final(self).height == old(self).height,
            final(self).points == 0,
            final(self).stats@ == meta_text(*meta),
    {
        let mut lines: Vec<String> = Vec::new();
        lines.push(String::from_str(BINARY_FILE_LINE));
        assert(views(lines@) =~= seq![BINARY_FILE_LINE@]);
        self.lines = lines;
        self.path = Some(path);
        self.scroll = 0;
        self.points = 0;
        self.stats = meta_summary(meta);
    }

    /// The last first row: the window then ends on the last line.
    pub fn max_scroll_row(&self) -> (r: usize)
        ensures
            r == self.max_scroll(),
    {
        let h = if self.height >= 1 {
            self.height
        } else {
            1
        };
        if self.lines.len() > h {
            self.lines.len() - h
        } else {
            0
        }
    }

    /// Scrolls one line down, up to the last first row; whether it moved.
    pub fn line_down(&mut self) -> (moved: bool)
        requires
            old(self).wf(),
        ensures
            final(self).wf(),
            final(self).lines == old(self).lines,
            final(self).path == old(self).path,
            final(self).stats == old(self).stats,
            final(self).points == old(self).points,
            final(self).height == old(self).height,
            final(self).scroll == at_most(old(self).scroll + 1, old(self).max_scroll()),
            moved == (final(self).scroll != old(self).scroll),
    {
        let m = self.max_scroll_row();
        let next = if self.scroll < m {
            self.scroll + 1
        } else {
            m
        };
        let moved = next != self.scroll;
        self.scroll = next;
        moved
    }

    /// Scrolls one line up, down to the first line; whether it moved.
    pub fn line_up(&mut self) -> (moved: bool)
        requires
            old(self).wf(),
        ensures
            final(self).wf(),
            final(self).lines == old(self).lines,
            final(self).path == old(self).path,
            final(self).stats == old(self).stats,
            final(self).points == old(self).points,
            final(self).height == old(self).height,
            final(self).scroll == at_most(
                if old(self).scroll > 0 {
                    old(self).scroll - 1
                } else {
                    0
                },
                old(self).max_scroll(),
            ),
            moved == (final(self).scroll != old(self).scroll),
    {
        let m = self.max_scroll_row();
        let up = if self.scroll > 0 {
            self.scroll - 1
        } else {
            0
        };
        let next = if up <= m {
            up
        } else {
            m
        };
        let moved = next != self.scroll;
        self.scroll = next;
        moved
    }

    /// Scrolls one window up, down to the first line.
    pub fn page_up(&mut self)
        requires
            old(self).wf(),
        ensures
            final(self).wf(),
            final(self).lines == old(self).lines,
            final(self).path == old(self).path,
            final(self).stats == old(self).stats,
            final(self).points == old(self).points,
            final(self).height == old(self).height,
            final(self).scroll == at_most(
                if old(self).scroll > old(self).height {
                    old(self).scroll - old(self).height
                } else {
                    0
                },
                old(self).max_scroll(),
            ),
    {
        let m = self.max_scroll_row();
        let up = if self.scroll > self.height {
            self.scroll - self.height
        } else {
            0
        };
        self.scroll = if up <= m {
            up
        } else {
            m
        };
    }

    /// Scrolls one window down, up to the last first row.
    pub fn page_down(&mut self)
        requires
            old(self).wf(),
        ensures
            final(self).wf(),
            final(self).lines == old(self).lines,
            final(self).path == old(self).path,
            final(self).stats == old(self).stats,
            final(self).points == old(self).points,
            final(self).height == old(self).height,
            final(self).scroll == if old(self).scroll + old(self).height < old(self).max_scroll() {
                old(self).scroll + old(self).height
            } else {
                old(self).max_scroll()
            },
    {
        let m = self.max_scroll_row();
        self.scroll = if self.scroll < m && m - self.scroll > self.height {
            self.scroll + self.height
        } else {
            m
        };
    }

    /// Goes to the first line.
    pub fn to_start(&mut self)
        requires
            old(self).wf(),
        ensures
            final(self).wf(),
            final(self).lines == old(self).lines,
            final(self).path == old(self).path,
            final(self).stats == old(self).stats,
            final(self).points == old(self).points,
            final(self).height == old(self).height,
            final(self).scroll == 0,
    {
        self.scroll = 0;
    }

    /// Goes to the last first row.
    pub fn to_end(&mut self)
        requires
            old(self).wf(),
        ensures
            final(self).wf(),
            final(self).lines == old(self).lines,
            final(self).path == old(self).path,
            final(self).stats == old(self).stats,
            final(self).points == old(self).points,
            final(self).height == old(self).height,
            final(self).scroll == old(self).max_scroll(),
    {
        self.scroll = self.max_scroll_row();
    }

    /// Records the height of the window onto the lines; the window stays
    /// where it is.
    pub fn set_height(&mut self, height: usize)
        requires
            old(self).wf(),
        ensures
            final(self).wf(),
            final(self).lines == old(self).lines,
            final(self).path == old(self).path,
            final(self).stats == old(self).stats,
            final(self).points == old(self).points,
            final(self).height == height,
            final(self).scroll == old(self).scroll,
    {
        self.height = height;
    }
}

} // verus!
