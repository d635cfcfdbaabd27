//! The two questions about a path that the library asks of `std::path`,
//! and the debug quoting that error messages use.

use vstd::prelude::*;
use crate::text::str_equal;

verus! {

/// What `std::path::Path::file_name` gives for a path: its final
/// component, or nothing when the path ends in `..` or is a root.
pub uninterp spec fn path_file_name(path: Seq<char>) -> Option<Seq<char>>;

/// The index of the last `.` in `name`, or -1 where there is none.
pub open spec fn last_dot(name: Seq<char>) -> int
    decreases name.len(),
{
    if name.len() == 0 {
        -1
    } else if name.last() == '.' {
        name.len() - 1
    } else {
        last_dot(name.drop_last())
    }
}

/// The extension of a file name: the text after its last `.`; none where
/// there is no `.`, where the only one leads the name, or for `..`.
pub open spec fn name_extension(name: Seq<char>) -> Option<Seq<char>> {
    if name == ".."@ || last_dot(name) <= 0 {
        None
    } else {
        Some(name.subrange(last_dot(name) + 1, name.len() as int))
    }
}

/// `last_dot` is the index of a `.` with none after it, or -1 where the
/// name holds no `.` at all.
pub proof fn law_last_dot(name: Seq<char>)
    ensures
        -1 <= last_dot(name) < name.len(),
        last_dot(name) >= 0 ==> name[last_dot(name)] == '.',
        forall|k: int| last_dot(name) < k < name.len() ==> name[k] != '.',
    decreases name.len(),
{
    if name.len() > 0 && name.last() != '.' {
        law_last_dot(name.drop_last());
        assert forall|k: int| last_dot(name) < k < name.len() implies name[k] != '.' by {
            if k < name.len() - 1 {
                assert(name.drop_last()[k] == name[k]);
            }
        }
        if last_dot(name) >= 0 {
            assert(name.drop_last()[last_dot(name)] == name[last_dot(name)]);
        }
    }
}

/// A file name has an extension exactly when it is not `..` and holds a
/// `.` after its first character; the extension is then what follows the
/// last `.`.
pub proof fn law_name_extension(name: Seq<char>, k: int)
    ensures
        name_extension(name) is None <==> (name == ".."@ || forall|j: int| 1 <= j < name.len() ==> name[j] != '.'),
        1 <= k < name.len() && name[k] == '.' && (forall|j: int| k < j < name.len() ==> name[j] != '.')
            && name != ".."@ ==> name_extension(name) == Some(name.subrange(k + 1, name.len() as int)),
{
    law_last_dot(name);
    let d = last_dot(name);
    if 1 <= k < name.len() && name[k] == '.' && (forall|j: int| k < j < name.len() ==> name[j] != '.') {
        assert(d == k) by {
            if d < k {
                assert(name[k] != '.');
            } else if d > k {
                assert(name[d] == '.');
            }
        }
    }
    if d >= 1 {
        assert(name[d] == '.');
    }
}

/// What `std::path::Path::extension` gives for a path: the extension of its
/// file name, and none where it has no file name.
pub open spec fn path_extension(path: Seq<char>) -> Option<Seq<char>> {
    match path_file_name(path) {
        Some(name) => name_extension(name),
        None => None,
    }
}

/// What `format!("{:?}", s)` gives for a string: the string in double
/// quotes, with `"`, `\`, non-printable and grapheme-extending characters
/// escaped.
pub uninterp spec fn debug_quoted(s: Seq<char>) -> Seq<char>;

/// Calls `std::path::Path::file_name`. The contract claims only that the
/// result is the named value of the path: a file name taken from a `&str`
/// is valid UTF-8, so `to_str` hands it back unchanged.
#[verifier::external_body]
pub(crate) fn file_name(path: &str) -> (r: Option<&str>)
    ensures
        r matches Some(n) ==> path_file_name(path@) == Some(n@),
        r is None ==> path_file_name(path@) is None,
{
    match std::path::Path::new(path).file_name() {
        Some(name) => name.to_str(),
        None => None,
    }
}

/// What `std::path::Path::extension` gives: the extension of the path's
/// file name, found by the last `.` in it.
pub(crate) fn extension(path: &str) -> (r: Option<&str>)
    ensures
        r matches Some(e) ==> path_extension(path@) == Some(e@),
        r is None ==> path_extension(path@) is None,
{
    let name = match file_name(path) {
        Some(n) => n,
        None => return None,
    };
    if str_equal(name, "..") {
        return None;
    }
    let n = name.unicode_len();
    let mut j: usize = n;
    proof {
        assert(name@.subrange(0, n as int) =~= name@);
    }
    while j > 0 && name.get_char(j - 1) != '.'
        invariant
            n == name@.len(),
            j <= n,
            last_dot(name@) == last_dot(name@.subrange(0, j as int)),
        decreases j,
    {
        proof {
            assert(name@.subrange(0, j as int).drop_last() =~= name@.subrange(0, j - 1));
        }
        j = j - 1;
    }
    if j <= 1 {
        proof {
            if j == 0 {
                assert(name@.subrange(0, 0) =~= Seq::<char>::empty());
            }
        }
        None
    } else {
        Some(name.substring_char(j, n))
    }
}

/// Calls `<str as Debug>::fmt` through `format!`; the contract claims only
/// that the result is the named quoting of the argument.
#[verifier::external_body]
pub(crate) fn quote_debug(s: &str) -> (r: String)
    ensures
        r@ == debug_quoted(s@),
{
    format!("{:?}", s)
}

} // verus!
