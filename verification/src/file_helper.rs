//! Path text: the final component and the directory of a path, with `/` and
//! `\` both taken as separators, on every platform.

use vstd::prelude::*;
use crate::text::{chars_of, string_of};

verus! {

/// Whether `c` separates the components of a path.
pub open spec fn is_separator(c: char) -> bool {
    c == '/' || c == '\\'
}

/// `s` without the separators at its end.
pub open spec fn without_trailing_separators(s: Seq<char>) -> Seq<char>
    decreases s.len(),
{
    if s.len() > 0 && is_separator(s.last()) {
        without_trailing_separators(s.drop_last())
    } else {
        s
    }
}

/// The position of the last separator in `s`, -1 where it has none.
pub open spec fn last_separator(s: Seq<char>) -> int
    decreases s.len(),
{
    if s.len() == 0 {
        -1
    } else if is_separator(s.last()) {
        s.len() - 1
    } else {
        last_separator(s.drop_last())
    }
}

/// The final component of `path`: what follows the last separator, trailing
/// separators aside. There is none where that is empty, `.` or `..`.
pub open spec fn file_name_of(path: Seq<char>) -> Option<Seq<char>> {
    let p = without_trailing_separators(path);
    let name = p.skip(last_separator(p) + 1);
    if name.len() == 0 || name == "."@ || name == ".."@ {
        None
    } else {
        Some(name)
    }
}

/// The directory of `path`: what stands before the separators in front of
/// the final component. A path with a single component has the empty
/// directory, a component right under the root has the root, and an empty
/// path or a bare root has none.
pub open spec fn directory_of(path: Seq<char>) -> Option<Seq<char>> {
    let p = without_trailing_separators(path);
    if p.len() == 0 {
        None
    } else if last_separator(p) < 0 {
        Some(Seq::empty())
    } else {
        let directory = without_trailing_separators(p.take(last_separator(p)));
        if directory.len() == 0 {
            Some(p.take(1))
        } else {
            Some(directory)
        }
    }
}

/// Whether `c` separates the components of a path.
fn separates(c: char) -> (r: bool)
    ensures
        r == is_separator(c),
{
    c == '/' || c == '\\'
}

/// The length of `v[..to]` without the separators at its end.
fn end_of_components(v: &Vec<char>, to: usize) -> (n: usize)
    requires
        to <= v.len(),
    ensures
        n <= to,
        v@.take(n as int) == without_trailing_separators(v@.take(to as int)),
{
    let mut n: usize = to;
    while n > 0 && separates(v[n - 1])
        invariant
            n <= to <= v.len(),
            without_trailing_separators(v@.take(n as int)) == without_trailing_separators(
                v@.take(to as int),
            ),
        decreases n,
    {
        assert(v@.take(n as int).drop_last() == v@.take(n - 1));
        n -= 1;
    }
    n
}

/// One more than the position of the last separator in `v[..to]`, 0 where it has none.
fn after_last_separator(v: &Vec<char>, to: usize) -> (n: usize)
    requires
        to <= v.len(),
    ensures
        n <= to,
        n == last_separator(v@.take(to as int)) + 1,
{
    let mut n: usize = to;
    while n > 0 && !separates(v[n - 1])
        invariant
            n <= to <= v.len(),
            last_separator(v@.take(n as int)) == last_separator(v@.take(to as int)),
        decreases n,
    {
        assert(v@.take(n as int).drop_last() == v@.take(n - 1));
        n -= 1;
    }
    n
}

/// The final component of `path`.
pub fn get_file_name(path: &str) -> (r: Option<String>)
    ensures
        r.deep_view() == file_name_of(path@),
{
    let v = chars_of(path);
    assert(v@.take(v.len() as int) == v@);
    let end = end_of_components(&v, v.len());
    let start = after_last_separator(&v, end);
    let ghost p = v@.take(end as int);
    assert(v@.subrange(start as int, end as int) == p.skip(start as int));
    let name = string_of(&v, start, end);
    proof {
        reveal_strlit(".");
        reveal_strlit("..");
    }
    if end - start == 0 {
        None
    } else if end - start == 1 && v[start] == '.' {
        assert(name@ =~= "."@);
        None
    } else if end - start == 2 && v[start] == '.' && v[start + 1] == '.' {
        assert(name@ =~= ".."@);
        None
    } else {
        assert(name@ != "."@) by {
            if name@.len() == 1 {
                assert(name@[0] == v@[start as int]);
            }
        }
        assert(name@ != ".."@) by {
            if name@.len() == 2 {
                assert(name@[0] == v@[start as int]);
                assert(name@[1] == v@[start + 1]);
            }
        }
        Some(name)
    }
}

/// The directory of `path`.
pub fn get_directory(path: &str) -> (r: Option<String>)
    ensures
        r.deep_view() == directory_of(path@),
{
    let v = chars_of(path);
    assert(v@.take(v.len() as int) == v@);
    let end = end_of_components(&v, v.len());
    let ghost p = v@.take(end as int);
    if end == 0 {
        return None;
    }
    let start = after_last_separator(&v, end);
    if start == 0 {
        return Some(String::new());
    }
    assert(p.take(start - 1) == v@.take(start - 1));
    let stop = end_of_components(&v, start - 1);
    if stop == 0 {
        Some(string_of(&v, 0, 1))
    } else {
        Some(string_of(&v, 0, stop))
    }
}

} // verus!
