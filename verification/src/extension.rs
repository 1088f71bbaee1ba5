//! The extension filter: which paths qualify for counting.

use vstd::prelude::*;

verus! {

/// Whether `c` separates the components of a path.
pub open spec fn is_separator(c: char) -> bool {
    c == '/' || c == '\\'
}

/// The index of the last `.` of the final component of `path`: the last `.`
/// that no separator follows. `None` when the final component has no `.`.
pub open spec fn last_dot(path: Seq<char>) -> Option<int>
    decreases path.len(),
{
    if path.len() == 0 {
        None
    } else if path.last() == '.' {
        Some(path.len() - 1)
    } else if is_separator(path.last()) {
        None
    } else {
        last_dot(path.drop_last())
    }
}

/// The extension of `path`: what follows the last `.` of its final component.
/// `None` when the final component has no `.`.
pub open spec fn extension_of(path: Seq<char>) -> Option<Seq<char>> {
    match last_dot(path) {
        Some(dot) => Some(path.subrange(dot + 1, path.len() as int)),
        None => None,
    }
}

/// Whether `path` qualifies under the extension set `exts`: it has an
/// extension, and that extension is a member of the set. Membership is exact
/// equality of the characters.
pub open spec fn listed(path: Seq<char>, exts: Seq<Seq<char>>) -> bool {
    match extension_of(path) {
        Some(ext) => exts.contains(ext),
        None => false,
    }
}

/// Whether `dot` is the index of a `.` of `path` that neither another `.` nor
/// a separator follows.
pub open spec fn is_last_dot(path: Seq<char>, dot: int) -> bool {
    &&& 0 <= dot < path.len()
    &&& path[dot] == '.'
    &&& forall|j: int| dot < j < path.len() ==> path[j] != '.' && !is_separator(#[trigger] path[j])
}

fn scan(path: &str) -> (found: (Option<usize>, usize))
    ensures
        found.1 == path@.len(),
        found.0 is Some <==> last_dot(path@) is Some,
        found.0 matches Some(d) ==> last_dot(path@) == Some(d as int) && d < path@.len(),
{
    let len = path.unicode_len();
    let mut dot: Option<usize> = None;
    let mut i: usize = 0;
    for c in it: path.chars()
        invariant
            i == it.index(),
            it.seq() == path@,
            len == path@.len(),
            dot is Some <==> last_dot(path@.take(i as int)) is Some,
            dot matches Some(d) ==> last_dot(path@.take(i as int)) == Some(d as int) && d < i,
    {
        assert(path@.take(i + 1).drop_last() =~= path@.take(i as int));
        if c == '.' {
            dot = Some(i);
        } else if c == '/' || c == '\\' {
            dot = None;
        }
        i = i + 1;
    }
    assert(path@.take(i as int) =~= path@);
    (dot, len)
}

/// The extension of `path`, if it has one.
pub fn extension(path: &str) -> (ext: Option<String>)
    ensures
        ext is Some <==> extension_of(path@) is Some,
        ext matches Some(e) ==> extension_of(path@) == Some(e@),
{
    let (dot, len) = scan(path);
    match dot {
        Some(d) => Some(path.substring_char(d + 1, len).to_owned()),
        None => None,
    }
}

/// The extension filter: whether `path` has an extension that `ext_vec`
/// lists.
pub fn has_listed_extension(path: &str, ext_vec: &Vec<String>) -> (wanted: bool)
    ensures
        wanted == listed(path@, ext_vec.deep_view()),
{
    match extension(path) {
        None => false,
        Some(ext) => {
            let mut i: usize = 0;
            while i < ext_vec.len()
                invariant
                    i <= ext_vec.len(),
                    extension_of(path@) == Some(ext@),
                    forall|j: int| 0 <= j < i ==> ext_vec.deep_view()[j] != ext@,
                decreases ext_vec.len() - i,
            {
                if ext_vec[i] == ext {
                    assert(ext_vec.deep_view()[i as int] == ext@);
                    assert(ext_vec.deep_view().contains(ext@));
                    return true;
                }
                i = i + 1;
            }
            false
        },
    }
}

/// `last_dot` finds the `.` that starts the extension: the one that neither
/// another `.` nor a separator follows.
pub proof fn law_last_dot(path: Seq<char>, dot: int)
    ensures
        last_dot(path) == Some(dot) <==> is_last_dot(path, dot),
    decreases path.len(),
{
    if path.len() > 0 {
        let len = path.len() as int;
        if path.last() == '.' {
            if is_last_dot(path, dot) && dot != len - 1 {
                assert(path[len - 1] == '.');
            }
        } else if is_separator(path.last()) {
            if is_last_dot(path, dot) {
                assert(is_separator(path[len - 1]));
            }
        } else {
            law_last_dot(path.drop_last(), dot);
            if is_last_dot(path.drop_last(), dot) {
                assert forall|j: int| dot < j < path.len() implies path[j] != '.' && !is_separator(
                    #[trigger] path[j],
                ) by {
                    if j < len - 1 {
                        assert(path.drop_last()[j] == path[j]);
                    }
                }
            }
            if is_last_dot(path, dot) {
                assert forall|j: int| dot < j < path.drop_last().len() implies path.drop_last()[j]
                    != '.' && !is_separator(#[trigger] path.drop_last()[j]) by {
                    assert(path.drop_last()[j] == path[j]);
                }
            }
        }
    }
}

/// A path whose final component has no `.` has no extension, and the other
/// way round.
pub proof fn law_no_dot_no_extension(path: Seq<char>)
    ensures
        extension_of(path) is None <==> forall|dot: int| !is_last_dot(path, dot),
{
    if last_dot(path) is Some {
        law_last_dot(path, last_dot(path)->0);
    } else {
        assert forall|dot: int| !is_last_dot(path, dot) by {
            law_last_dot(path, dot);
        }
    }
}

/// A path without an extension matches no extension set.
pub proof fn law_no_extension_never_matches(path: Seq<char>, exts: Seq<Seq<char>>)
    requires
        extension_of(path) is None,
    ensures
        !listed(path, exts),
{
}

} // verus!
