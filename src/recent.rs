use crate::text::views;
use vstd::prelude::*;

verus! {

/// Most paths the registry keeps.
pub const MAX_RECENT: usize = 10;

/// `s` without any occurrence of `p`, order kept.
pub open spec fn without(s: Seq<Seq<char>>, p: Seq<char>) -> Seq<Seq<char>>
    decreases s.len(),
{
    if s.len() == 0 {
        seq![]
    } else {
        let r = without(s.drop_last(), p);
        if s.last() == p {
            r
        } else {
            r.push(s.last())
        }
    }
}

/// The registry's paths after `p` was opened: `p` first, then the others in
/// their order, at most `MAX_RECENT` in all.
pub open spec fn record_spec(s: Seq<Seq<char>>, p: Seq<char>) -> Seq<Seq<char>> {
    let r = seq![p] + without(s, p);
    if r.len() > MAX_RECENT {
        r.subrange(0, MAX_RECENT as int)
    } else {
        r
    }
}

/// No path occurs twice.
pub open spec fn distinct(s: Seq<Seq<char>>) -> bool {
    forall|i: int, j: int| 0 <= i < j < s.len() ==> s[i] != s[j]
}

proof fn lemma_without(s: Seq<Seq<char>>, p: Seq<char>)
    ensures
        without(s, p).len() <= s.len(),
        forall|i: int| 0 <= i < without(s, p).len() ==> #[trigger] without(s, p)[i] != p,
        forall|i: int| 0 <= i < without(s, p).len() ==> s.contains(#[trigger] without(s, p)[i]),
        !s.contains(p) ==> without(s, p) == s,
        distinct(s) ==> distinct(without(s, p)),
        distinct(s) ==> without(s, p).len() + 1 >= s.len(),
    decreases s.len(),
{
    if s.len() > 0 {
        lemma_without(s.drop_last(), p);
        let r = without(s.drop_last(), p);
        assert forall|i: int| 0 <= i < without(s, p).len() implies s.contains(
            #[trigger] without(s, p)[i],
        ) by {
            if i < r.len() {
                let k = choose|k: int| 0 <= k < s.drop_last().len() && s.drop_last()[k] == r[i];
                assert(s[k] == r[i]);
            } else {
                assert(s[s.len() - 1] == s.last());
            }
        }
        if !s.contains(p) {
            assert(!s.drop_last().contains(p)) by {
                if s.drop_last().contains(p) {
                    let k = choose|k: int| 0 <= k < s.drop_last().len() && s.drop_last()[k] == p;
                    assert(s[k] == p);
                }
            }
            assert(s.last() != p) by {
                assert(s[s.len() - 1] == s.last());
            }
            assert(s.drop_last().push(s.last()) =~= s);
        }
        if distinct(s) {
            assert(distinct(s.drop_last())) by {
                assert forall|i: int, j: int| 0 <= i < j < s.drop_last().len() implies s.drop_last()[i]
                    != s.drop_last()[j] by {
                    assert(s[i] != s[j]);
                }
            }
            if s.last() == p {
                assert(!s.drop_last().contains(p)) by {
                    if s.drop_last().contains(p) {
                        let k = choose|k: int| 0 <= k < s.drop_last().len() && s.drop_last()[k] == p;
                        assert(s[k] == s[s.len() - 1]);
                    }
                }
            }
            if s.last() != p {
                assert forall|i: int, j: int|
                    0 <= i < j < without(s, p).len() implies without(s, p)[i] != without(s, p)[j] by {
                    if j == r.len() {
                        let k = choose|k: int| 0 <= k < s.drop_last().len() && s.drop_last()[k] == r[i];
                        assert(s[k] != s[s.len() - 1]);
                    }
                }
            }
        }
    }
}

proof fn lemma_without_concat(a: Seq<Seq<char>>, b: Seq<Seq<char>>, p: Seq<char>)
    ensures
        without(a + b, p) == without(a, p) + without(b, p),
    decreases b.len(),
{
    if b.len() == 0 {
        assert(a + b =~= a);
        assert(without(a, p) + without(b, p) =~= without(a, p));
    } else {
        assert((a + b).drop_last() =~= a + b.drop_last());
        assert((a + b).last() == b.last());
        lemma_without_concat(a, b.drop_last(), p);
        if b.last() != p {
            assert(without(a, p) + without(b, p) =~= (without(a, p) + without(b.drop_last(), p)).push(
                b.last(),
            ));
        }
    }
}

/// Recording the same path a second time changes nothing: the path stays
/// first and occurs once.
pub proof fn lemma_record_twice(s: Seq<Seq<char>>, p: Seq<char>)
    ensures
        record_spec(record_spec(s, p), p) == record_spec(s, p),
        record_spec(s, p)[0] == p,
        forall|i: int| 1 <= i < record_spec(s, p).len() ==> #[trigger] record_spec(s, p)[i] != p,
{
    lemma_without(s, p);
    let w = without(s, p);
    let x = record_spec(s, p);
    let tail = x.drop_first();
    assert(x =~= seq![p] + tail);
    assert forall|i: int| 0 <= i < tail.len() implies tail[i] != p by {
        assert(tail[i] == w[i]);
    }
    assert(!tail.contains(p));
    lemma_without(tail, p);
    lemma_without_concat(seq![p], tail, p);
    assert(seq![p].drop_last() =~= Seq::<Seq<char>>::empty());
    assert(without(seq![p], p) == without(Seq::<Seq<char>>::empty(), p));
    assert(without(seq![p], p) + tail =~= tail);
    assert forall|i: int| 1 <= i < x.len() implies #[trigger] x[i] != p by {
        assert(x[i] == tail[i - 1]);
    }
}

/// Recently opened files, most recent first, with the row selected in the
/// list that shows them.
pub struct RecentFiles {
    pub paths: Vec<String>,
    pub selected: usize,
}

impl RecentFiles {
    pub open spec fn view(&self) -> Seq<Seq<char>> {
        views(self.paths@)
    }

    pub open spec fn wf(&self) -> bool {
        &&& self.paths.len() <= MAX_RECENT
        &&& distinct(self.view())
        &&& (self.paths.len() == 0 ==> self.selected == 0)
        &&& (self.paths.len() > 0 ==> self.selected < self.paths.len())
    }

    /// An empty registry.
    pub fn new() -> (r: Self)
        ensures
            r.wf(),
            r.view() == Seq::<Seq<char>>::empty(),
            r.selected == 0,
    {
        let r = RecentFiles { paths: Vec::new(), selected: 0 };
        assert(r.view() =~= Seq::<Seq<char>>::empty());
        r
    }

    /// Records that `path` was opened: it moves to the front, or enters there,
    /// and the oldest path leaves when more than `MAX_RECENT` would remain.
    pub fn record(&mut self, path: &String)
        requires
            old(self).wf(),
        ensures
            final(self).wf(),
            final(self).view() == record_spec(old(self).view(), path@),
            final(self).view()[0] == path@,
            forall|i: int| 1 <= i < final(self).view().len() ==> #[trigger] final(self).view()[i] != path@,
            !old(self).view().contains(path@) && old(self).view().len() == MAX_RECENT
                ==> final(self).view() == seq![path@] + old(self).view().subrange(
                0,
                MAX_RECENT - 1,
            ),
            final(self).selected == old(self).selected,
    {
        let ghost s = self.view();
        let mut kept: Vec<String> = Vec::new();
        kept.push(path.clone());
        let mut k: usize = 0;
        while k < self.paths.len()
            invariant
                k <= self.paths.len(),
                s == views(self.paths@),
                views(kept@) == seq![path@] + without(s.subrange(0, k as int), path@),
            decreases self.paths.len() - k,
        {
            assert(s.subrange(0, k + 1).drop_last() =~= s.subrange(0, k as int));
            assert(s.subrange(0, k + 1).last() == self.paths@[k as int]@);
            let ghost before = kept@;
            if self.paths[k] != *path {
                kept.push(self.paths[k].clone());
                assert(views(kept@) =~= views(before).push(self.paths@[k as int]@));
            }
            k += 1;
        }
        assert(s.subrange(0, s.len() as int) =~= s);
        kept.truncate(MAX_RECENT);
        proof {
            lemma_without(s, path@);
            let w = without(s, path@);
            assert(views(kept@) =~= record_spec(s, path@));
            let r = seq![path@] + w;
            assert(distinct(r)) by {
                assert forall|i: int, j: int| 0 <= i < j < r.len() implies r[i] != r[j] by {
                    if i == 0 {
                        assert(r[j] == w[j - 1]);
                    } else {
                        assert(r[i] == w[i - 1] && r[j] == w[j - 1]);
                    }
                }
            }
            assert forall|i: int, j: int|
                0 <= i < j < views(kept@).len() implies views(kept@)[i] != views(kept@)[j] by {
                assert(views(kept@)[i] == r[i] && views(kept@)[j] == r[j]);
            }
            assert forall|i: int| 1 <= i < views(kept@).len() implies #[trigger] views(kept@)[i]
                != path@ by {
                assert(views(kept@)[i] == w[i - 1]);
            }
            if !s.contains(path@) && s.len() == MAX_RECENT {
                assert(views(kept@) =~= seq![path@] + s.subrange(0, MAX_RECENT - 1));
            }
        }
        self.paths = kept;
    }

    /// Moves the selection one row up, from the first row to the last.
    pub fn select_previous(&mut self)
        requires
            old(self).wf(),
        ensures
            final(self).wf(),
            final(self).paths == old(self).paths,
            final(self).selected == if old(self).paths.len() == 0 {
                0
            } else if old(self).selected == 0 {
                old(self).paths.len() - 1
            } else {
                old(self).selected - 1
            },
    {
        if self.paths.len() == 0 {
            return;
        }
        self.selected = if self.selected == 0 {
            self.paths.len() - 1
        } else {
            self.selected - 1
        };
    }

    /// Moves the selection one row down, from the last row to the first.
    pub fn select_next(&mut self)
        requires
            old(self).wf(),
        ensures
            final(self).wf(),
            final(self).paths == old(self).paths,
            final(self).selected == if old(self).paths.len() == 0 {
                0
            } else {
                (old(self).selected + 1) % (old(self).paths.len() as int)
            },
    {
        if self.paths.len() == 0 {
            return;
        }
        self.selected = (self.selected + 1) % self.paths.len();
    }

    /// Puts the selection on the first row.
    pub fn select_first(&mut self)
        requires
            old(self).wf(),
        ensures
            final(self).wf(),
            final(self).paths == old(self).paths,
            final(self).selected == 0,
    {
        self.selected = 0;
    }

    /// The selected path; `None` when the registry is empty.
    pub fn selected_path(&self) -> (r: Option<String>)
        requires
            self.wf(),
        ensures
            self.paths.len() == 0 <==> r is None,
            r matches Some(p) ==> p@ == self.view()[self.selected as int],
    {
        if self.selected < self.paths.len() {
            Some(self.paths[self.selected].clone())
        } else {
            None
        }
    }
}

} // verus!
