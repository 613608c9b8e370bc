use crate::series::{lines_acc, lines_of, split_lines, strip_cr};
use vstd::prelude::*;
use vstd::string::StringExecFns;

verus! {

/// What the file that remembers the last directory holds for directory `d`.
pub open spec fn marker_text(d: Seq<char>) -> Seq<char> {
    d + seq!['\n']
}

/// The directory named by the contents of that file: its first line, or
/// `None` when it is empty.
pub open spec fn marker_read(s: Seq<char>) -> Option<Seq<char>> {
    if lines_of(s).len() > 0 {
        Some(lines_of(s)[0])
    } else {
        None
    }
}

/// The directory to start in: the remembered one while it is still a
/// directory, else the working directory.
pub open spec fn start_spec(cwd: Seq<char>, remembered: Option<Seq<char>>, is_dir: bool) -> Seq<
    char,
> {
    match remembered {
        Some(d) => if is_dir {
            d
        } else {
            cwd
        },
        None => cwd,
    }
}

/// The contents to write to remember directory `dir`.
pub fn marker_contents(dir: &String) -> (r: String)
    ensures
        r@ == marker_text(dir@),
{
    proof {
        reveal_strlit("\n");
    }
    let r = dir.clone().concat("\n");
    assert(r@ =~= marker_text(dir@));
    r
}

/// The directory that the remembered contents name.
pub fn remembered_directory(contents: &str) -> (r: Option<String>)
    ensures
        r matches Some(d) ==> marker_read(contents@) == Some(d@),
        r is None ==> marker_read(contents@) is None,
{
    let mut lines = split_lines(contents);
    if lines.len() == 0 {
        None
    } else {
        assert(crate::text::views(lines@)[0] == lines@[0]@);
        Some(lines.swap_remove(0))
    }
}

/// The directory to start in, from the working directory `cwd`, the
/// remembered directory, and whether that is still a directory.
pub fn start_directory(cwd: String, remembered: Option<String>, is_dir: bool) -> (r: String)
    ensures
        r@ == start_spec(cwd@, match remembered {
            Some(d) => Some(d@),
            None => None,
        }, is_dir),
{
    match remembered {
        Some(d) => if is_dir {
            d
        } else {
            cwd
        },
        None => cwd,
    }
}

proof fn lemma_one_line(t: Seq<char>, cur: Seq<char>)
    requires
        forall|i: int| 0 <= i < t.len() ==> t[i] != '\n',
    ensures
        lines_acc(t + seq!['\n'], cur) == seq![strip_cr(cur + t)],
    decreases t.len(),
{
    if t.len() == 0 {
        assert(t + seq!['\n'] =~= seq!['\n']);
        assert(cur + t =~= cur);
        assert(seq!['\n'].drop_first() =~= Seq::<char>::empty());
        assert(lines_acc(Seq::<char>::empty(), seq![]) =~= Seq::<Seq<char>>::empty());
        assert(seq![strip_cr(cur)] + Seq::<Seq<char>>::empty() =~= seq![strip_cr(cur)]);
    } else {
        let s = t + seq!['\n'];
        assert(s[0] == t[0]);
        assert(s.drop_first() =~= t.drop_first() + seq!['\n']);
        lemma_one_line(t.drop_first(), cur.push(t[0]));
        assert(cur.push(t[0]) + t.drop_first() =~= cur + t);
    }
}

/// Remembering a directory and reading it back at the next start: the start
/// is in that directory while it still is one, and in the working directory
/// once it is not. (A name that holds a line break, or ends in a carriage
/// return, cannot be told apart from the line's end.)
pub proof fn lemma_marker_round_trip(d: Seq<char>, cwd: Seq<char>, is_dir: bool)
    requires
        forall|i: int| 0 <= i < d.len() ==> d[i] != '\n',
        d.len() == 0 || d.last() != '\r',
    ensures
        marker_read(marker_text(d)) == Some(d),
        start_spec(cwd, marker_read(marker_text(d)), is_dir) == if is_dir {
            d
        } else {
            cwd
        },
{
    lemma_one_line(d, seq![]);
    assert(Seq::<char>::empty() + d =~= d);
}

/// With no remembered directory (no file, or an empty one) the start is in
/// the working directory, whatever the file system says.
pub proof fn lemma_no_marker_starts_in_cwd(cwd: Seq<char>, is_dir: bool)
    ensures
        marker_read(Seq::<char>::empty()) is None,
        start_spec(cwd, marker_read(Seq::<char>::empty()), is_dir) == cwd,
        start_spec(cwd, None, is_dir) == cwd,
{
    assert(lines_of(Seq::<char>::empty()) =~= Seq::<Seq<char>>::empty());
}

} // verus!
