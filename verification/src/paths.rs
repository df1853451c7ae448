//! The parts of a path that a runner asks for: the extension of its file
//! name and its parent directory. Paths are handled as text; the standard
//! library's path type takes them apart into components.

use vstd::prelude::*;
use vstd::string::StrSliceExecFns;
use crate::text::{chars_of, option_text, string_of};

verus! {

/// The file name of a path, as `std::path::Path::file_name` gives it: the
/// last component, or `None` for a path that ends in `..` or has no
/// component at all.
pub uninterp spec fn path_file_name(path: Seq<char>) -> Option<Seq<char>>;

/// Position `i` holds the last dot of `name`.
pub open spec fn is_last_dot(name: Seq<char>, i: int) -> bool {
    0 <= i < name.len() && name[i] == '.' && forall|j: int| i < j < name.len() ==> name[j] != '.'
}

/// The extension of a file name: what follows its last dot. A name without a
/// dot has none, nor has a name whose only dot is its first character.
pub open spec fn name_extension(name: Seq<char>) -> Option<Seq<char>> {
    if exists|i: int| i > 0 && is_last_dot(name, i) {
        Some(name.skip((choose|i: int| i > 0 && is_last_dot(name, i)) + 1))
    } else {
        None
    }
}

/// The extension of a path: that of its file name.
pub open spec fn path_extension(path: Seq<char>) -> Option<Seq<char>> {
    match path_file_name(path) {
        Some(name) => name_extension(name),
        None => None,
    }
}

/// The path without its last component, as `std::path::Path::parent` gives
/// it; `None` for a root and for the empty path.
pub uninterp spec fn path_parent(path: Seq<char>) -> Option<Seq<char>>;

/// The directory that holds `path`: its parent, or `.` where it has none.
/// A bare file name has the empty text for its parent, which names no
/// directory: its directory is `.` too.
pub open spec fn directory_of(path: Seq<char>) -> Seq<char> {
    match path_parent(path) {
        Some(dir) => if dir.len() == 0 {
            seq!['.']
        } else {
            dir
        },
        None => seq!['.'],
    }
}

/// `std::path::Path::file_name`: the last component of the path, if it has
/// one that is a name; a function of the path's text alone.
#[verifier::external_body]
pub(crate) fn file_name(path: &str) -> (r: Option<String>)
    ensures
        option_text(r) == path_file_name(path@),
{
    match std::path::Path::new(path).file_name() {
        Some(name) => Some(name.to_string_lossy().into_owned()),
        None => None,
    }
}

/// Two positions that each hold the last dot of a name are one position.
pub proof fn lemma_last_dot_unique(name: Seq<char>, i: int, j: int)
    requires
        is_last_dot(name, i),
        is_last_dot(name, j),
    ensures
        i == j,
{
}

/// The extension of a file name.
pub fn extension_of_name(name: &str) -> (r: Option<String>)
    ensures
        option_text(r) == name_extension(name@),
{
    let chars = chars_of(name);
    let mut i: usize = chars.len();
    while i > 0
        invariant
            i <= chars.len(),
            chars@ == name@,
            forall|j: int| i <= j < chars.len() ==> chars@[j] != '.',
        decreases i,
    {
        if chars[i - 1] == '.' {
            let ghost dot = i - 1;
            assert(is_last_dot(chars@, dot));
            assert forall|k: int| k > 0 && is_last_dot(chars@, k) implies k == dot by {
                lemma_last_dot_unique(chars@, k, dot);
            }
            if i == 1 {
                return None;
            }
            let mut rest: Vec<char> = Vec::new();
            let mut k: usize = i;
            while k < chars.len()
                invariant
                    i <= k <= chars.len(),
                    rest@ == chars@.subrange(i as int, k as int),
                decreases chars.len() - k,
            {
                rest.push(chars[k]);
                assert(rest@ =~= chars@.subrange(i as int, k + 1));
                k += 1;
            }
            assert(rest@ =~= chars@.skip(i as int));
            return Some(string_of(&rest));
        }
        i -= 1;
    }
    assert forall|k: int| !(k > 0 && is_last_dot(chars@, k)) by {}
    None
}

/// The extension of a path: what follows the last dot of its file name.
pub fn extension(path: &str) -> (r: Option<String>)
    ensures
        option_text(r) == path_extension(path@),
{
    match file_name(path) {
        Some(name) => extension_of_name(name.as_str()),
        None => None,
    }
}

/// `std::path::Path::parent`: the path without its last component, if it
/// has one; a function of the path's text alone.
#[verifier::external_body]
pub(crate) fn parent(path: &str) -> (r: Option<String>)
    ensures
        option_text(r) == path_parent(path@),
{
    match std::path::Path::new(path).parent() {
        Some(p) => Some(p.to_string_lossy().into_owned()),
        None => None,
    }
}

/// The directory in which a file is run: its parent, or `.` where the path
/// has none or is a bare file name.
pub fn directory(path: &str) -> (r: String)
    ensures
        r@ == directory_of(path@),
        r@.len() > 0,
{
    let dot: Vec<char> = vec!['.'];
    assert(dot@ =~= seq!['.']);
    match parent(path) {
        Some(dir) => {
            if dir.as_str().unicode_len() == 0 {
                string_of(&dot)
            } else {
                dir
            }
        },
        None => string_of(&dot),
    }
}

} // verus!
