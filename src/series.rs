use crate::text::{chars_of, is_space, is_space_char, string_of, views};
use vstd::prelude::*;

verus! {

/// Fewest samples that make a file's contents chart data.
pub const MIN_CHART_SAMPLES: usize = 2;

/// `s` with a carriage return at its end removed.
pub open spec fn strip_cr(s: Seq<char>) -> Seq<char> {
    if s.len() > 0 && s.last() == '\r' {
        s.drop_last()
    } else {
        s
    }
}

/// The lines of `s`, where `cur` is the unfinished line read so far: lines end
/// at `\n` (an `\r` before it is dropped) and a last line without its `\n`
/// counts only when it is non-empty.
pub open spec fn lines_acc(s: Seq<char>, cur: Seq<char>) -> Seq<Seq<char>>
    decreases s.len(),
{
    if s.len() == 0 {
        if cur.len() > 0 {
            seq![cur]
        } else {
            seq![]
        }
    } else if s[0] == '\n' {
        seq![strip_cr(cur)] + lines_acc(s.drop_first(), seq![])
    } else {
        lines_acc(s.drop_first(), cur.push(s[0]))
    }
}

/// The lines of a text.
pub open spec fn lines_of(s: Seq<char>) -> Seq<Seq<char>> {
    lines_acc(s, seq![])
}

/// `s` without its leading white space.
pub open spec fn trim_start(s: Seq<char>) -> Seq<char>
    decreases s.len(),
{
    if s.len() > 0 && is_space(s[0]) {
        trim_start(s.drop_first())
    } else {
        s
    }
}

/// `s` without its trailing white space.
pub open spec fn trim_end(s: Seq<char>) -> Seq<char>
    decreases s.len(),
{
    if s.len() > 0 && is_space(s.last()) {
        trim_end(s.drop_last())
    } else {
        s
    }
}

/// `s` without white space at either end.
pub open spec fn trim(s: Seq<char>) -> Seq<char> {
    trim_end(trim_start(s))
}

/// Characters that separate the fields of a data line.
pub open spec fn is_separator(c: char) -> bool {
    is_space(c) || c == ','
}

/// The fields of `s`, where `cur` is the field read so far: maximal non-empty
/// runs of characters that are not separators.
pub open spec fn fields_acc(s: Seq<char>, cur: Seq<char>) -> Seq<Seq<char>>
    decreases s.len(),
{
    let done: Seq<Seq<char>> = if cur.len() > 0 {
        seq![cur]
    } else {
        seq![]
    };
    if s.len() == 0 {
        done
    } else if is_separator(s[0]) {
        done + fields_acc(s.drop_first(), seq![])
    } else {
        fields_acc(s.drop_first(), cur.push(s[0]))
    }
}

/// The fields of a line.
pub open spec fn fields(s: Seq<char>) -> Seq<Seq<char>> {
    fields_acc(s, seq![])
}

/// Whether a trimmed line is blank or a comment.
pub open spec fn is_skipped(t: Seq<char>) -> bool {
    t.len() == 0 || t[0] == '#' || t[0] == ';'
}

/// The first two fields of a data line; `None` for a blank line, a comment,
/// or a line with fewer than two fields.
pub open spec fn line_candidate(l: Seq<char>) -> Option<(Seq<char>, Seq<char>)> {
    let t = trim(l);
    if is_skipped(t) || fields(t).len() < 2 {
        None
    } else {
        Some((fields(t)[0], fields(t)[1]))
    }
}

/// The candidate pairs of a sequence of lines, in line order.
pub open spec fn candidates(ls: Seq<Seq<char>>) -> Seq<(Seq<char>, Seq<char>)>
    decreases ls.len(),
{
    if ls.len() == 0 {
        seq![]
    } else {
        let rest = candidates(ls.drop_last());
        match line_candidate(ls.last()) {
            Some(p) => rest.push(p),
            None => rest,
        }
    }
}

/// The characters of each string of each pair.
pub open spec fn pair_views(v: Seq<(String, String)>) -> Seq<(Seq<char>, Seq<char>)> {
    v.map_values(|p: (String, String)| (p.0@, p.1@))
}

/// Splits a text into lines, as `str::lines` does.
pub fn split_lines(text: &str) -> (r: Vec<String>)
    ensures
        views(r@) == lines_of(text@),
{
    let c = chars_of(text);
    let n = c.len();
    let mut r: Vec<String> = Vec::new();
    let mut start: usize = 0;
    let mut i: usize = 0;
    assert(c@.subrange(0, n as int) =~= text@);
    assert(c@.subrange(0, 0) =~= Seq::<char>::empty());
    assert(views(r@) + lines_of(text@) =~= lines_of(text@));
    while i < n
        invariant
            n == c.len(),
            c@ == text@,
            start <= i <= n,
            lines_of(text@) == views(r@) + lines_acc(c@.subrange(i as int, n as int), c@.subrange(start as int, i as int)),
        decreases n - i,
    {
        let ghost rest = c@.subrange(i as int, n as int);
        let ghost cur = c@.subrange(start as int, i as int);
        assert(rest.drop_first() =~= c@.subrange(i + 1, n as int));
        assert(rest[0] == c@[i as int]);
        if c[i] == '\n' {
            let end = if i > start && c[i - 1] == '\r' {
                i - 1
            } else {
                i
            };
            assert(c@.subrange(start as int, end as int) =~= strip_cr(cur));
            let line = string_of(&c, start, end);
            let ghost before = r@;
            r.push(line);
            assert(views(r@) =~= views(before) + seq![strip_cr(cur)]);
            assert(c@.subrange(i + 1, i + 1) =~= Seq::<char>::empty());
            start = i + 1;
        } else {
            assert(cur.push(c@[i as int]) =~= c@.subrange(start as int, i + 1));
        }
        i += 1;
    }
    if start < n {
        let line = string_of(&c, start, n);
        let ghost before = r@;
        r.push(line);
        assert(views(r@) =~= views(before) + seq![c@.subrange(start as int, n as int)]);
    }
    assert(c@.subrange(n as int, n as int) =~= Seq::<char>::empty());
    assert(views(r@) =~= lines_of(text@));
    r
}

/// The bounds `[a, b)` of `c[from..to]` without white space at either end.
fn trim_bounds(c: &Vec<char>, from: usize, to: usize) -> (r: (usize, usize))
    requires
        from <= to <= c.len(),
    ensures
        from <= r.0 <= r.1 <= to,
        c@.subrange(r.0 as int, r.1 as int) == trim(c@.subrange(from as int, to as int)),
{
    let mut a = from;
    while a < to && is_space_char(c[a])
        invariant
            from <= a <= to <= c.len(),
            trim_start(c@.subrange(from as int, to as int)) == trim_start(
                c@.subrange(a as int, to as int),
            ),
        decreases to - a,
    {
        assert(c@.subrange(a as int, to as int).drop_first() =~= c@.subrange(a + 1, to as int));
        a += 1;
    }
    assert(trim_start(c@.subrange(a as int, to as int)) == c@.subrange(a as int, to as int));
    let mut b = to;
    while b > a && is_space_char(c[b - 1])
        invariant
            from <= a <= b <= to <= c.len(),
            trim_end(c@.subrange(a as int, to as int)) == trim_end(c@.subrange(a as int, b as int)),
        decreases b - a,
    {
        assert(c@.subrange(a as int, b as int).drop_last() =~= c@.subrange(a as int, b - 1));
        b -= 1;
    }
    (a, b)
}

/// Splits `c[from..to]` into fields at runs of white space and commas.
fn split_fields(c: &Vec<char>, from: usize, to: usize) -> (r: Vec<String>)
    requires
        from <= to <= c.len(),
    ensures
        views(r@) == fields(c@.subrange(from as int, to as int)),
{
    let mut r: Vec<String> = Vec::new();
    let mut start: usize = from;
    let mut i: usize = from;
    assert(c@.subrange(from as int, from as int) =~= Seq::<char>::empty());
    assert(views(r@) + fields(c@.subrange(from as int, to as int)) =~= fields(c@.subrange(from as int, to as int)));
    while i < to
        invariant
            from <= start <= i <= to <= c.len(),
            fields(c@.subrange(from as int, to as int)) == views(r@) + fields_acc(
                c@.subrange(i as int, to as int),
                c@.subrange(start as int, i as int),
            ),
        decreases to - i,
    {
        let ghost rest = c@.subrange(i as int, to as int);
        let ghost cur = c@.subrange(start as int, i as int);
        assert(rest.drop_first() =~= c@.subrange(i + 1, to as int));
        assert(rest[0] == c@[i as int]);
        if is_space_char(c[i]) || c[i] == ',' {
            if start < i {
                let field = string_of(c, start, i);
                let ghost before = r@;
                r.push(field);
                assert(views(r@) =~= views(before) + seq![cur]);
            } else {
                assert(views(r@) =~= views(r@) + Seq::<Seq<char>>::empty());
            }
            assert(c@.subrange(i + 1, i + 1) =~= Seq::<char>::empty());
            start = i + 1;
        } else {
            assert(cur.push(c@[i as int]) =~= c@.subrange(start as int, i + 1));
        }
        i += 1;
    }
    if start < to {
        let field = string_of(c, start, to);
        let ghost before = r@;
        r.push(field);
        assert(views(r@) =~= views(before) + seq![c@.subrange(start as int, to as int)]);
    } else {
        assert(views(r@) =~= views(r@) + Seq::<Seq<char>>::empty());
    }
    r
}

/// The first two fields of `c[from..to]` read as a data line.
fn candidate_in(c: &Vec<char>, from: usize, to: usize) -> (r: Option<(String, String)>)
    requires
        from <= to <= c.len(),
    ensures
        r matches Some(p) ==> line_candidate(c@.subrange(from as int, to as int)) == Some(
            (p.0@, p.1@),
        ),
        r is None ==> line_candidate(c@.subrange(from as int, to as int)) is None,
{
    let (a, b) = trim_bounds(c, from, to);
    if a == b || c[a] == '#' || c[a] == ';' {
        return None;
    }
    let mut f = split_fields(c, a, b);
    if f.len() < 2 {
        return None;
    }
    assert(views(f@)[0] == f@[0]@ && views(f@)[1] == f@[1]@);
    let second = f.remove(1);
    let first = f.remove(0);
    Some((first, second))
}

/// The first two fields of a data line: `None` when the line, once trimmed,
/// is blank, starts with `#` or `;`, or has fewer than two fields.
pub fn data_fields(line: &str) -> (r: Option<(String, String)>)
    ensures
        r matches Some(p) ==> line_candidate(line@) == Some((p.0@, p.1@)),
        r is None ==> line_candidate(line@) is None,
{
    let c = chars_of(line);
    assert(c@.subrange(0, c.len() as int) =~= line@);
    candidate_in(&c, 0, c.len())
}

/// The first two fields of every data line of a text, in line order: the
/// pairs from which numeric samples are read.
pub fn chart_candidates(content: &str) -> (r: Vec<(String, String)>)
    ensures
        pair_views(r@) == candidates(lines_of(content@)),
{
    let lines = split_lines(content);
    let ghost ls = lines_of(content@);
    let mut r: Vec<(String, String)> = Vec::new();
    let mut k: usize = 0;
    while k < lines.len()
        invariant
            k <= lines.len(),
            views(lines@) == ls,
            pair_views(r@) == candidates(ls.subrange(0, k as int)),
        decreases lines.len() - k,
    {
        assert(ls.subrange(0, k + 1).drop_last() =~= ls.subrange(0, k as int));
        assert(ls.subrange(0, k + 1).last() == lines@[k as int]@);
        let ghost before = r@;
        match data_fields(lines[k].as_str()) {
            Some(p) => {
                r.push(p);
                assert(pair_views(r@) =~= pair_views(before).push((p.0@, p.1@)));
            },
            None => {},
        }
        k += 1;
    }
    assert(ls.subrange(0, lines.len() as int) =~= ls);
    r
}

/// Whether a file that gave `count` numeric samples holds chart data.
pub fn is_chart_data(count: usize) -> (r: bool)
    ensures
        r == (count >= MIN_CHART_SAMPLES),
{
    count >= MIN_CHART_SAMPLES
}

} // verus!
