use crate::format::{decimal, decimal_text};
use crate::text::chars_of;
use vstd::prelude::*;
use vstd::string::StringExecFns;

verus! {

/// Columns needed for the largest line number of a text of `total` lines.
pub open spec fn number_width(total: nat) -> nat {
    decimal(total).len()
}

/// Columns for the line numbers of a text of `total` lines.
pub fn line_number_width(total: usize) -> (r: usize)
    ensures
        r == number_width(total as nat),
{
    let t = decimal_text(total as u64);
    t.as_str().unicode_len()
}

/// The rows `[start, end)` of `total` that a window of `height` rows from row
/// `scroll` shows.
pub fn visible_rows(scroll: usize, height: usize, total: usize) -> (r: (usize, usize))
    ensures
        r.0 == if scroll < total { scroll } else { total },
        r.1 == if scroll as int + height < total { scroll + height } else { total as int },
        r.0 <= r.1 <= total,
{
    let start = if scroll < total {
        scroll
    } else {
        total
    };
    let end = if scroll < total && total - scroll > height {
        scroll + height
    } else {
        total
    };
    (start, end)
}

/// `"[a-b/n]"` for the rows `a..=b` of `n` (counted from one).
pub open spec fn range_text(first: nat, last: nat, total: nat) -> Seq<char> {
    seq!['['] + decimal(first) + seq!['-'] + decimal(last) + seq!['/'] + decimal(total) + seq![']']
}

fn range_label(first: u64, last: u64, total: u64) -> (r: String)
    ensures
        r@ == range_text(first as nat, last as nat, total as nat),
{
    proof {
        reveal_strlit("[");
        reveal_strlit("-");
        reveal_strlit("/");
        reveal_strlit("]");
    }
    let r = String::from_str("[").concat(decimal_text(first).as_str()).concat("-").concat(
        decimal_text(last).as_str(),
    ).concat("/").concat(decimal_text(total).as_str()).concat("]");
    assert(r@ =~= range_text(first as nat, last as nat, total as nat));
    r
}

/// The last row (counted from one) of a window of `height` rows from row
/// `scroll` over `total` rows.
pub open spec fn window_last(scroll: int, height: int, total: int) -> int {
    if scroll + height < total {
        scroll + height
    } else {
        total
    }
}

/// The title of the listing: its range of rows when they do not all fit.
pub fn tree_title(scroll: usize, height: usize, total: usize) -> (r: String)
    requires
        scroll < total || total <= height,
    ensures
        total > height ==> r@ == "Files "@ + range_text(
            (scroll + 1) as nat,
            window_last(scroll as int, height as int, total as int) as nat,
            total as nat,
        ),
        total <= height ==> r@ == "Files"@,
{
    if total > height {
        let last = if total - scroll > height {
            scroll + height
        } else {
            total
        };
        String::from_str("Files ").concat(
            range_label((scroll + 1) as u64, last as u64, total as u64).as_str(),
        )
    } else {
        String::from_str("Files")
    }
}

/// The title of the viewer: the range of lines shown.
pub fn content_title(scroll: usize, height: usize, total: usize) -> (r: String)
    requires
        scroll < total || total == 0,
    ensures
        total > 0 ==> r@ == " Content "@ + range_text(
            (scroll + 1) as nat,
            window_last(scroll as int, height as int, total as int) as nat,
            total as nat,
        ) + " "@,
        total == 0 ==> r@ == " Content Viewer "@,
{
    if total > 0 {
        let last = if total - scroll > height {
            scroll + height
        } else {
            total
        };
        String::from_str(" Content ").concat(
            range_label((scroll + 1) as u64, last as u64, total as u64).as_str(),
        ).concat(" ")
    } else {
        String::from_str(" Content Viewer ")
    }
}

/// What a row of the listing shows, for its glyph and colour.
#[derive(PartialEq, Eq, Structural, Clone, Copy, Debug)]
pub enum EntryKind {
    Parent,
    Directory,
    Science,
    Data,
    Text,
    Code,
    Other,
}

/// The extension of a file name: what follows its last dot, unless that dot
/// is its first character.
pub open spec fn has_extension(name: Seq<char>, ext: Seq<char>) -> bool {
    exists|k: int|
        0 < k < name.len() && name[k] == '.' && ext == name.subrange(k + 1, name.len() as int)
            && forall|j: int| k < j < name.len() ==> name[j] != '.'
}

/// The kind of a file with extension `ext`.
pub open spec fn kind_of_extension(ext: Seq<char>) -> EntryKind {
    if ext == "xyz"@ || ext == "pdb"@ || ext == "cif"@ {
        EntryKind::Science
    } else if ext == "dat"@ || ext == "csv"@ {
        EntryKind::Data
    } else if ext == "txt"@ || ext == "log"@ {
        EntryKind::Text
    } else if ext == "rs"@ || ext == "py"@ || ext == "js"@ || ext == "ts"@ {
        EntryKind::Code
    } else {
        EntryKind::Other
    }
}

fn chars_eq(a: &Vec<char>, from: usize, b: &str) -> (r: bool)
    requires
        from <= a.len(),
    ensures
        r == (a@.subrange(from as int, a.len() as int) == b@),
{
    let bc = chars_of(b);
    if a.len() - from != bc.len() {
        assert(a@.subrange(from as int, a.len() as int).len() != b@.len());
        return false;
    }
    let mut k: usize = 0;
    while k < bc.len()
        invariant
            k <= bc.len(),
            a.len() - from == bc.len(),
            bc@ == b@,
            forall|j: int| 0 <= j < k ==> a@[from + j] == bc@[j],
        decreases bc.len() - k,
    {
        if a[from + k] != bc[k] {
            assert(a@.subrange(from as int, a.len() as int)[k as int] != b@[k as int]);
            return false;
        }
        k += 1;
    }
    assert(a@.subrange(from as int, a.len() as int) =~= b@);
    true
}

/// The kind of a row of the listing, from its name and whether it is a
/// directory.
pub fn entry_kind(name: &str, is_dir: bool) -> (r: EntryKind)
    ensures
        is_dir && name@ == ".."@ ==> r == EntryKind::Parent,
        is_dir && name@ != ".."@ ==> r == EntryKind::Directory,
        !is_dir ==> (forall|ext: Seq<char>| has_extension(name@, ext) ==> r == kind_of_extension(ext)),
        !is_dir && (forall|ext: Seq<char>| !has_extension(name@, ext)) ==> r == EntryKind::Other,
{
    let c = chars_of(name);
    if is_dir {
        if chars_eq(&c, 0, "..") {
            assert(c@.subrange(0, c.len() as int) =~= name@);
            return EntryKind::Parent;
        }
        assert(c@.subrange(0, c.len() as int) =~= name@);
        return EntryKind::Directory;
    }
    let mut k: usize = c.len();
    while k > 0 && c[k - 1] != '.'
        invariant
            k <= c.len(),
            c@ == name@,
            forall|j: int| k <= j < c.len() ==> c@[j] != '.',
        decreases k,
    {
        k -= 1;
    }
    if k <= 1 {
        assert forall|ext: Seq<char>| !has_extension(name@, ext) by {
            if has_extension(name@, ext) {
                let d = choose|d: int|
                    0 < d < name@.len() && name@[d] == '.' && ext == name@.subrange(
                        d + 1,
                        name@.len() as int,
                    ) && forall|j: int| d < j < name@.len() ==> name@[j] != '.';
                if k == 1 {
                    assert(name@[0] == '.');
                    assert(d >= 1);
                }
            }
        }
        return EntryKind::Other;
    }
    let ghost ext = c@.subrange(k as int, c.len() as int);
    assert(has_extension(name@, ext));
    assert forall|e: Seq<char>| has_extension(name@, e) implies e == ext by {
        let d = choose|d: int|
            0 < d < name@.len() && name@[d] == '.' && e == name@.subrange(d + 1, name@.len() as int)
                && forall|j: int| d < j < name@.len() ==> name@[j] != '.';
        assert(d == k - 1);
    }
    proof {
        reveal_strlit("xyz");
        reveal_strlit("pdb");
        reveal_strlit("cif");
        reveal_strlit("dat");
        reveal_strlit("csv");
        reveal_strlit("txt");
        reveal_strlit("log");
        reveal_strlit("rs");
        reveal_strlit("py");
        reveal_strlit("js");
        reveal_strlit("ts");
    }
    if chars_eq(&c, k, "xyz") || chars_eq(&c, k, "pdb") || chars_eq(&c, k, "cif") {
        EntryKind::Science
    } else if chars_eq(&c, k, "dat") || chars_eq(&c, k, "csv") {
        EntryKind::Data
    } else if chars_eq(&c, k, "txt") || chars_eq(&c, k, "log") {
        EntryKind::Text
    } else if chars_eq(&c, k, "rs") || chars_eq(&c, k, "py") || chars_eq(&c, k, "js") || chars_eq(
        &c,
        k,
        "ts",
    ) {
        EntryKind::Code
    } else {
        EntryKind::Other
    }
}

/// An RGB colour.
#[derive(PartialEq, Eq, Structural, Clone, Copy, Debug)]
pub struct Rgb {
    pub r: u8,
    pub g: u8,
    pub b: u8,
}

/// The colour of each kind of row.
pub open spec fn kind_colour(kind: EntryKind) -> Rgb {
    match kind {
        EntryKind::Parent => Rgb { r: 97, g: 175, b: 239 },
        EntryKind::Directory => Rgb { r: 229, g: 192, b: 123 },
        EntryKind::Science => Rgb { r: 198, g: 120, b: 221 },
        EntryKind::Data => Rgb { r: 152, g: 195, b: 121 },
        EntryKind::Text => Rgb { r: 171, g: 178, b: 191 },
        EntryKind::Code => Rgb { r: 86, g: 182, b: 194 },
        EntryKind::Other => Rgb { r: 92, g: 99, b: 112 },
    }
}

/// The glyph of each kind of row, from an icon font or an emoji.
pub open spec fn kind_glyph(kind: EntryKind, nerd_icons: bool) -> Seq<char> {
    match kind {
        EntryKind::Parent => if nerd_icons { "\u{f062} "@ } else { "⬆️ "@ },
        EntryKind::Directory => if nerd_icons { "\u{f07b} "@ } else { "📁 "@ },
        EntryKind::Science => if nerd_icons { "\u{f0c3} "@ } else { "🔬 "@ },
        EntryKind::Data => if nerd_icons { "\u{f0ce} "@ } else { "📊 "@ },
        EntryKind::Text => if nerd_icons { "\u{f0f6} "@ } else { "📄 "@ },
        EntryKind::Code => if nerd_icons { "\u{f121} "@ } else { "💻 "@ },
        EntryKind::Other => if nerd_icons { "\u{f016} "@ } else { "📄 "@ },
    }
}

/// The glyph and colour of a row of kind `kind`, with icon-font glyphs or
/// with emoji.
pub fn style_for(kind: EntryKind, nerd_icons: bool) -> (r: (&'static str, Rgb))
    ensures
        r.0@ == kind_glyph(kind, nerd_icons),
        r.1 == kind_colour(kind),
{
    match kind {
        EntryKind::Parent => (if nerd_icons { "\u{f062} " } else { "⬆️ " }, Rgb { r: 97, g: 175, b: 239 }),
        EntryKind::Directory => (if nerd_icons { "\u{f07b} " } else { "📁 " }, Rgb { r: 229, g: 192, b: 123 }),
        EntryKind::Science => (if nerd_icons { "\u{f0c3} " } else { "🔬 " }, Rgb { r: 198, g: 120, b: 221 }),
        EntryKind::Data => (if nerd_icons { "\u{f0ce} " } else { "📊 " }, Rgb { r: 152, g: 195, b: 121 }),
        EntryKind::Text => (if nerd_icons { "\u{f0f6} " } else { "📄 " }, Rgb { r: 171, g: 178, b: 191 }),
        EntryKind::Code => (if nerd_icons { "\u{f121} " } else { "💻 " }, Rgb { r: 86, g: 182, b: 194 }),
        EntryKind::Other => (if nerd_icons { "\u{f016} " } else { "📄 " }, Rgb { r: 92, g: 99, b: 112 }),
    }
}

/// Where the recent-files list stands on a screen `width` by `height`:
/// `(x, y, w, h)`, half the width kept within 30 and 60 columns, four rows
/// more than the paths (five when there are none) up to fourteen, centred.
pub fn popup_area(width: u16, height: u16, count: usize) -> (r: (u16, u16, u16, u16))
    ensures
        r.2 == if width / 2 > 60 { 60 } else if width / 2 < 30 { 30 } else { width / 2 },
        r.3 == if count == 0 { 5 } else if count + 4 < 14 { count + 4 } else { 14 },
        r.0 == if width >= r.2 { (width - r.2) / 2 } else { 0 },
        r.1 == if height >= r.3 { (height - r.3) / 2 } else { 0 },
{
    let half = width / 2;
    let w: u16 = if half > 60 {
        60
    } else if half < 30 {
        30
    } else {
        half
    };
    let h: u16 = if count == 0 {
        5
    } else if count < 10 {
        (count + 4) as u16
    } else {
        14
    };
    let x = if width >= w {
        (width - w) / 2
    } else {
        0
    };
    let y = if height >= h {
        (height - h) / 2
    } else {
        0
    };
    (x, y, w, h)
}

} // verus!
