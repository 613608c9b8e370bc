use crate::text::{chars_of, lower_of, lowercase};
use vstd::prelude::*;
use vstd::string::StringExecFns;
use vstd::seq_lib::{to_multiset_insert, to_multiset_remove};

verus! {

/// One row of a directory listing.
pub struct DirectoryEntry {
    pub name: String,
    pub path: String,
    pub is_dir: bool,
}

/// Lexicographic order of texts by code point, as `str`'s `Ord` orders them.
pub open spec fn text_le(a: Seq<char>, b: Seq<char>) -> bool
    decreases a.len(),
{
    if a.len() == 0 {
        true
    } else if b.len() == 0 {
        false
    } else if a[0] != b[0] {
        a[0] < b[0]
    } else {
        text_le(a.drop_first(), b.drop_first())
    }
}

/// Listing order on (is a directory, lower-case name) pairs: directories
/// before files, then by name.
pub open spec fn order_le(a_dir: bool, a_key: Seq<char>, b_dir: bool, b_key: Seq<char>) -> bool {
    (a_dir && !b_dir) || (a_dir == b_dir && text_le(a_key, b_key))
}

/// Listing order: directories before files, then by lower-case name.
pub open spec fn entry_le(a: DirectoryEntry, b: DirectoryEntry) -> bool {
    order_le(a.is_dir, lower_of(a.name@), b.is_dir, lower_of(b.name@))
}

/// Every entry comes no later in listing order than the ones after it.
pub open spec fn entries_sorted(s: Seq<DirectoryEntry>) -> bool {
    forall|i: int, j: int| 0 <= i < j < s.len() ==> #[trigger] entry_le(s[i], s[j])
}

pub proof fn lemma_text_le_total(a: Seq<char>, b: Seq<char>)
    ensures
        text_le(a, b) || text_le(b, a),
    decreases a.len(),
{
    if a.len() > 0 && b.len() > 0 && a[0] == b[0] {
        lemma_text_le_total(a.drop_first(), b.drop_first());
    }
}

pub proof fn lemma_text_le_trans(a: Seq<char>, b: Seq<char>, c: Seq<char>)
    requires
        text_le(a, b),
        text_le(b, c),
    ensures
        text_le(a, c),
    decreases a.len(),
{
    if a.len() > 0 && b.len() > 0 && c.len() > 0 && a[0] == b[0] && b[0] == c[0] {
        lemma_text_le_trans(a.drop_first(), b.drop_first(), c.drop_first());
    }
}

proof fn lemma_entry_le_total(a: DirectoryEntry, b: DirectoryEntry)
    ensures
        entry_le(a, b) || entry_le(b, a),
{
    lemma_text_le_total(lower_of(a.name@), lower_of(b.name@));
}

proof fn lemma_entry_le_trans(a: DirectoryEntry, b: DirectoryEntry, c: DirectoryEntry)
    requires
        entry_le(a, b),
        entry_le(b, c),
    ensures
        entry_le(a, c),
{
    if a.is_dir == b.is_dir && b.is_dir == c.is_dir {
        lemma_text_le_trans(lower_of(a.name@), lower_of(b.name@), lower_of(c.name@));
    }
}

/// Compares two texts in code point order.
fn le_text(a: &Vec<char>, b: &Vec<char>) -> (r: bool)
    ensures
        r == text_le(a@, b@),
{
    let mut k: usize = 0;
    assert(a@.subrange(0, a.len() as int) =~= a@);
    assert(b@.subrange(0, b.len() as int) =~= b@);
    while k < a.len() && k < b.len() && a[k] == b[k]
        invariant
            k <= a.len(),
            k <= b.len(),
            text_le(a@, b@) == text_le(
                a@.subrange(k as int, a.len() as int),
                b@.subrange(k as int, b.len() as int),
            ),
        decreases a.len() - k,
    {
        assert(a@.subrange(k as int, a.len() as int).drop_first() =~= a@.subrange(
            k + 1,
            a.len() as int,
        ));
        assert(b@.subrange(k as int, b.len() as int).drop_first() =~= b@.subrange(
            k + 1,
            b.len() as int,
        ));
        k += 1;
    }
    if k == a.len() {
        true
    } else if k == b.len() {
        false
    } else {
        assert(a@.subrange(k as int, a.len() as int)[0] == a@[k as int]);
        assert(b@.subrange(k as int, b.len() as int)[0] == b@[k as int]);
        a[k] < b[k]
    }
}

/// Whether an entry comes no later in the listing than another, given for
/// each whether it is a directory and its lower-case name.
pub fn listing_before(a_dir: bool, a_key: &Vec<char>, b_dir: bool, b_key: &Vec<char>) -> (r: bool)
    ensures
        r == order_le(a_dir, a_key@, b_dir, b_key@),
{
    if a_dir != b_dir {
        a_dir
    } else {
        le_text(a_key, b_key)
    }
}

/// Compares two entries in listing order, given their lower-case names.
fn le_entry(a: &DirectoryEntry, ka: &Vec<char>, b: &DirectoryEntry, kb: &Vec<char>) -> (r: bool)
    requires
        ka@ == lower_of(a.name@),
        kb@ == lower_of(b.name@),
    ensures
        r == entry_le(*a, *b),
{
    listing_before(a.is_dir, ka, b.is_dir, kb)
}

/// Sorts entries into listing order: directories first, each group by
/// case-insensitive name.
pub fn sort_entries(items: Vec<DirectoryEntry>) -> (r: Vec<DirectoryEntry>)
    ensures
        entries_sorted(r@),
        r@.to_multiset() == items@.to_multiset(),
{
    broadcast use vstd::multiset::group_multiset_axioms;
    broadcast use vstd::seq_lib::group_to_multiset_ensures;

    let mut rest = items;
    let mut sorted: Vec<DirectoryEntry> = Vec::new();
    let mut keys: Vec<Vec<char>> = Vec::new();
    while rest.len() > 0
        invariant
            entries_sorted(sorted@),
            keys.len() == sorted.len(),
            forall|j: int| 0 <= j < keys.len() ==> (#[trigger] keys@[j])@ == lower_of(sorted@[j].name@),
            sorted@.to_multiset().add(rest@.to_multiset()) == items@.to_multiset(),
        decreases rest.len(),
    {
        proof {
            to_multiset_remove(rest@, 0);
        }
        let ghost rest0 = rest@;
        let x = rest.remove(0);
        let lower = lowercase(x.name.as_str());
        let kx = chars_of(lower.as_str());
        let mut p: usize = 0;
        while p < sorted.len() && le_entry(&sorted[p], &keys[p], &x, &kx)
            invariant
                p <= sorted.len(),
                keys.len() == sorted.len(),
                forall|j: int| 0 <= j < keys.len() ==> (#[trigger] keys@[j])@ == lower_of(sorted@[j].name@),
                kx@ == lower_of(x.name@),
                forall|i: int| 0 <= i < p ==> entry_le(#[trigger] sorted@[i], x),
            decreases sorted.len() - p,
        {
            p += 1;
        }
        let ghost s0 = sorted@;
        let ghost k0 = keys@;
        proof {
            if p < s0.len() {
                lemma_entry_le_total(s0[p as int], x);
                assert forall|i: int| p <= i < s0.len() implies entry_le(x, #[trigger] s0[i]) by {
                    if i > p {
                        assert(entry_le(s0[p as int], s0[i]));
                        lemma_entry_le_trans(x, s0[p as int], s0[i]);
                    }
                }
            }
            to_multiset_insert(s0, p as int, x);
        }
        sorted.insert(p, x);
        keys.insert(p, kx);
        proof {
            let s1 = sorted@;
            assert forall|i: int, j: int| 0 <= i < j < s1.len() implies #[trigger] entry_le(
                s1[i],
                s1[j],
            ) by {
                if j < p {
                    assert(s1[i] == s0[i] && s1[j] == s0[j]);
                } else if j == p {
                    assert(s1[i] == s0[i]);
                } else if i < p {
                    assert(s1[i] == s0[i] && s1[j] == s0[j - 1]);
                    assert(entry_le(s0[i], x));
                    lemma_entry_le_trans(s0[i], x, s0[j - 1]);
                } else if i == p {
                    assert(s1[j] == s0[j - 1]);
                } else {
                    assert(s1[i] == s0[i - 1] && s1[j] == s0[j - 1]);
                }
            }
            assert forall|j: int| 0 <= j < keys.len() implies (#[trigger] keys@[j])@ == lower_of(
                sorted@[j].name@,
            ) by {
                if j > p {
                    assert(keys@[j] == k0[j - 1]);
                }
            }
            assert(rest0[0] == x);
            assert(rest0.contains(x));
            vstd::seq_lib::to_multiset_contains(rest0, x);
            assert(rest0.to_multiset().count(x) > 0);
            assert(rest0.to_multiset() =~= rest@.to_multiset().insert(x));
            assert(sorted@.to_multiset().add(rest@.to_multiset()) =~= items@.to_multiset());
        }
    }
    assert(rest@ =~= Seq::<DirectoryEntry>::empty());
    sorted
}

/// The position of the scroll window, its first row, after the selection
/// moved to `selected`: unchanged while the selection stays in the window of
/// `height` rows, else moved just far enough to show it.
pub open spec fn scroll_for_spec(selected: int, scroll: int, height: int) -> int {
    if selected < scroll {
        selected
    } else if selected >= scroll + height {
        selected - (height - 1)
    } else {
        scroll
    }
}

/// Adjusts the first visible row so that the selected row is in the window.
pub fn scroll_for(selected: usize, scroll: usize, height: usize) -> (r: usize)
    requires
        height >= 1,
    ensures
        r == scroll_for_spec(selected as int, scroll as int, height as int),
        r <= selected,
        selected <= r + height - 1,
{
    if selected < scroll {
        selected
    } else if selected - scroll >= height {
        selected - (height - 1)
    } else {
        scroll
    }
}

/// The listing of one directory, with the selected row and the scroll window
/// of the view that shows it.
pub struct DirectoryModel {
    pub current: String,
    pub parent: Option<String>,
    pub entries: Vec<DirectoryEntry>,
    pub selected: usize,
    pub scroll: usize,
    pub height: usize,
}

/// The row that leads to the parent directory.
pub open spec fn is_parent_entry(e: DirectoryEntry, parent: String) -> bool {
    e.name@ == seq!['.', '.'] && e.path@ == parent@ && e.is_dir
}

/// Selection in range and in the scroll window, when rows are `len` and the
/// window `height` rows high.
pub open spec fn selection_ok(selected: int, scroll: int, height: int, len: int) -> bool {
    &&& height >= 1
    &&& (len > 0 ==> selected < len)
    &&& (len == 0 ==> selected == 0)
    &&& scroll <= selected <= scroll + height - 1
}

/// The listing for a directory with the given parent and contents: the row
/// for the parent first, then the contents in listing order.
pub open spec fn listing_of(
    parent: Option<String>,
    entries: Seq<DirectoryEntry>,
    items: Seq<DirectoryEntry>,
) -> bool {
    let listed = match parent {
        Some(_) => entries.drop_first(),
        None => entries,
    };
    &&& (parent matches Some(p) ==> entries.len() >= 1 && is_parent_entry(entries[0], p))
    &&& entries_sorted(listed)
    &&& listed.to_multiset() == items.to_multiset()
}

impl DirectoryModel {
    /// The rows after the one for the parent directory.
    pub open spec fn listed(&self) -> Seq<DirectoryEntry> {
        match self.parent {
            Some(_) => self.entries@.drop_first(),
            None => self.entries@,
        }
    }

    pub open spec fn wf(&self) -> bool {
        &&& (self.parent matches Some(p) ==> self.entries.len() >= 1 && is_parent_entry(
            self.entries@[0],
            p,
        ))
        &&& entries_sorted(self.listed())
        &&& selection_ok(
            self.selected as int,
            self.scroll as int,
            self.height as int,
            self.entries.len() as int,
        )
    }

    fn build_entries(parent: &Option<String>, items: Vec<DirectoryEntry>) -> (r: Vec<
        DirectoryEntry,
    >)
        ensures
            listing_of(*parent, r@, items@),
    {
        let sorted = sort_entries(items);
        match parent {
            Some(p) => {
                let mut r: Vec<DirectoryEntry> = Vec::new();
                proof {
                    reveal_strlit("..");
                }
                let name = String::from_str("..");
                assert(name@ =~= seq!['.', '.']);
                r.push(DirectoryEntry { name, path: p.clone(), is_dir: true });
                let mut s = sorted;
                r.append(&mut s);
                assert(r@.drop_first() =~= sorted@);
                assert(is_parent_entry(r@[0], *p));
                r
            },
            None => sorted,
        }
    }

    /// The listing of directory `current` with parent `parent` and contents
    /// `items`, the first row selected, shown in a window `height` rows high
    /// (a window of no rows counts as one).
    pub fn new(current: String, parent: Option<String>, items: Vec<DirectoryEntry>, height: usize) -> (r: Self)
        ensures
            r.wf(),
            r.current == current,
            r.parent == parent,
            listing_of(parent, r.entries@, items@),
            r.selected == 0,
            r.scroll == 0,
            r.height == if height >= 1 { height } else { 1 },
    {
        let entries = Self::build_entries(&parent, items);
        DirectoryModel {
            current,
            parent,
            entries,
            selected: 0,
            scroll: 0,
            height: if height >= 1 { height } else { 1 },
        }
    }

    /// Moves to directory `current`: a new listing, first row selected.
    pub fn navigate(&mut self, current: String, parent: Option<String>, items: Vec<DirectoryEntry>)
        requires
            old(self).wf(),
        ensures
            final(self).wf(),
            final(self).current == current,
            final(self).parent == parent,
            listing_of(parent, final(self).entries@, items@),
            final(self).selected == 0,
            final(self).scroll == 0,
            final(self).height == old(self).height,
    {
        self.entries = Self::build_entries(&parent, items);
        self.current = current;
        self.parent = parent;
        self.selected = 0;
        self.scroll = 0;
    }

    /// Reads the same directory again: the selection stays where it was,
    /// moved back onto the last row if the listing has become shorter.
    pub fn refresh(&mut self, parent: Option<String>, items: Vec<DirectoryEntry>)
        requires
            old(self).wf(),
        ensures
            final(self).wf(),
            final(self).current == old(self).current,
            final(self).parent == parent,
            listing_of(parent, final(self).entries@, items@),
            final(self).selected == if old(self).selected < final(self).entries.len() {
                old(self).selected as int
            } else if final(self).entries.len() > 0 {
                final(self).entries.len() - 1
            } else {
                0
            },
            final(self).scroll == scroll_for_spec(
                final(self).selected as int,
                old(self).scroll as int,
                old(self).height as int,
            ),
            final(self).height == old(self).height,
    {
        self.entries = Self::build_entries(&parent, items);
        self.parent = parent;
        let n = self.entries.len();
        if self.selected >= n {
            self.selected = if n > 0 { n - 1 } else { 0 };
        }
        self.scroll = scroll_for(self.selected, self.scroll, self.height);
    }

    /// Selects row `index`, or the last row when `index` is past it; nothing
    /// changes in an empty listing.
    pub fn select(&mut self, index: usize)
        requires
            old(self).wf(),
        ensures
            final(self).wf(),
            final(self).entries == old(self).entries,
            final(self).current == old(self).current,
            final(self).parent == old(self).parent,
            final(self).height == old(self).height,
            old(self).entries.len() == 0 ==> final(self).selected == 0 && final(self).scroll == old(self).scroll,
            old(self).entries.len() > 0 ==> final(self).selected == if index < old(self).entries.len() {
                index as int
            } else {
                old(self).entries.len() - 1
            },
            final(self).scroll == scroll_for_spec(
                final(self).selected as int,
                old(self).scroll as int,
                old(self).height as int,
            ),
    {
        let n = self.entries.len();
        if n == 0 {
            return;
        }
        self.selected = if index < n { index } else { n - 1 };
        self.scroll = scroll_for(self.selected, self.scroll, self.height);
    }

    /// Moves the selection one row up, if it is not on the first row.
    pub fn move_up(&mut self)
        requires
            old(self).wf(),
        ensures
            final(self).wf(),
            final(self).entries == old(self).entries,
            final(self).current == old(self).current,
            final(self).parent == old(self).parent,
            final(self).height == old(self).height,
            final(self).selected == if old(self).selected > 0 {
                old(self).selected - 1
            } else {
                0
            },
            final(self).scroll == scroll_for_spec(
                final(self).selected as int,
                old(self).scroll as int,
                old(self).height as int,
            ),
    {
        if self.selected > 0 {
            self.selected = self.selected - 1;
        }
        self.scroll = scroll_for(self.selected, self.scroll, self.height);
    }

    /// Moves the selection one row down, if it is not on the last row.
    pub fn move_down(&mut self)
        requires
            old(self).wf(),
        ensures
            final(self).wf(),
            final(self).entries == old(self).entries,
            final(self).current == old(self).current,
            final(self).parent == old(self).parent,
            final(self).height == old(self).height,
            final(self).selected == if old(self).selected + 1 < old(self).entries.len() {
                old(self).selected + 1
            } else {
                old(self).selected as int
            },
            final(self).scroll == scroll_for_spec(
                final(self).selected as int,
                old(self).scroll as int,
                old(self).height as int,
            ),
    {
        if self.selected + 1 < self.entries.len() {
            self.selected = self.selected + 1;
        }
        self.scroll = scroll_for(self.selected, self.scroll, self.height);
    }

    /// Records the height of the window that shows the listing (a window of
    /// no rows counts as one) and scrolls to keep the selection in it.
    pub fn set_height(&mut self, height: usize)
        requires
            old(self).wf(),
        ensures
            final(self).wf(),
            final(self).entries == old(self).entries,
            final(self).current == old(self).current,
            final(self).parent == old(self).parent,
            final(self).selected == old(self).selected,
            final(self).height == if height >= 1 { height } else { 1 },
            final(self).scroll == scroll_for_spec(
                old(self).selected as int,
                old(self).scroll as int,
                final(self).height as int,
            ),
    {
        self.height = if height >= 1 { height } else { 1 };
        self.scroll = scroll_for(self.selected, self.scroll, self.height);
    }

    /// Whether the selected row is a directory, and its path; `None` in an
    /// empty listing.
    pub fn activate(&self) -> (r: Option<(bool, String)>)
        requires
            self.wf(),
        ensures
            self.entries.len() == 0 <==> r is None,
            r matches Some(p) ==> p.0 == self.entries@[self.selected as int].is_dir && p.1@
                == self.entries@[self.selected as int].path@,
    {
        if self.selected < self.entries.len() {
            let e = &self.entries[self.selected];
            Some((e.is_dir, e.path.clone()))
        } else {
            None
        }
    }
}

} // verus!
