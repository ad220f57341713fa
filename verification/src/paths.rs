//! File names and stems of paths (`std::path::Path`), and joining paths.
//! `file_name` and `file_stem` model them on paths that every platform reads
//! alike.
use vstd::prelude::*;
use crate::text::{chars_of, split, string_of};

verus! {

/// A component that names something: not empty (a doubled or trailing `/`)
/// and not `.` (which `Path::components` drops).
pub open spec fn is_named_piece(p: Seq<char>) -> bool {
    p.len() > 0 && p != seq!['.']
}

/// The last naming component among `ps`.
pub open spec fn last_named(ps: Seq<Seq<char>>) -> Option<Seq<char>>
    decreases ps.len(),
{
    if ps.len() == 0 {
        None
    } else if is_named_piece(ps.last()) {
        Some(ps.last())
    } else {
        last_named(ps.drop_last())
    }
}

/// `Path::file_name`: the last component, unless it is `..` or there is none.
pub open spec fn file_name(path: Seq<char>) -> Option<Seq<char>> {
    match last_named(split(path, '/')) {
        Some(last) => if last == seq!['.', '.'] {
            None
        } else {
            Some(last)
        },
        None => None,
    }
}

/// The index of the last `'.'` in `s`.
pub open spec fn last_dot(s: Seq<char>) -> Option<int>
    decreases s.len(),
{
    if s.len() == 0 {
        None
    } else if s.last() == '.' {
        Some(s.len() - 1)
    } else {
        last_dot(s.drop_last())
    }
}

/// `Path::file_stem`: the file name without its last extension; a name whose
/// only dot is its first character is its own stem.
pub open spec fn file_stem(path: Seq<char>) -> Option<Seq<char>> {
    match file_name(path) {
        Some(name) => match last_dot(name) {
            Some(i) => if i > 0 {
                Some(name.take(i))
            } else {
                Some(name)
            },
            None => Some(name),
        },
        None => None,
    }
}

/// A path that every platform reads alike: it holds no `\\` (a separator on
/// Windows only), no `:` (drive prefixes) and does not start with `//` (a
/// network share on Windows). On such a path the file name and stem are those
/// of `file_name` and `file_stem`.
pub open spec fn plain_path(path: Seq<char>) -> bool {
    &&& !path.contains('\\')
    &&& !path.contains(':')
    &&& !(path.len() >= 2 && path[0] == '/' && path[1] == '/')
}

/// A relative path of named pieces that every platform splits alike: its
/// `/`-separated pieces are none of them empty, `.` or `..`, and it holds no
/// `\\` or `:`. `Path::components` gives exactly these pieces.
pub open spec fn simple_relative_path(path: Seq<char>) -> bool {
    &&& !path.contains('\\')
    &&& !path.contains(':')
    &&& forall|i: int|
        0 <= i < split(path, '/').len() ==> {
            let piece = #[trigger] split(path, '/')[i];
            piece.len() > 0 && piece != "."@ && piece != ".."@
        }
}

/// Each piece, as a component that is valid text.
pub open spec fn named_components(pieces: Seq<Seq<char>>) -> Seq<Option<Seq<char>>> {
    pieces.map_values(|p: Seq<char>| Some(p))
}

/// `std::path::Path::file_name`, as text. How a path splits depends on the
/// platform (`\\` and drive prefixes count on Windows only), so the result is
/// stated for plain paths alone; on the others it is what this platform's
/// path rules give.
#[verifier::external_body]
pub(crate) fn path_file_name(path: &str) -> (r: Option<String>)
    ensures
        plain_path(path@) ==> match file_name(path@) {
            Some(n) => r is Some && r->0@ == n,
            None => r is None,
        },
{
    std::path::Path::new(path).file_name().map(|name| name.to_string_lossy().into_owned())
}

/// `std::path::Path::file_stem`, as text; stated for plain paths alone (see
/// `path_file_name`).
#[verifier::external_body]
pub(crate) fn path_file_stem(path: &str) -> (r: Option<String>)
    ensures
        plain_path(path@) ==> match file_stem(path@) {
            Some(n) => r is Some && r->0@ == n,
            None => r is None,
        },
{
    std::path::Path::new(path).file_stem().map(|stem| stem.to_string_lossy().into_owned())
}

/// `base` with the relative piece `part` appended: a separator goes between
/// them unless `base` is empty or already ends with `sep` or `/`.
pub open spec fn path_join(base: Seq<char>, part: Seq<char>, sep: char) -> Seq<char> {
    if base.len() == 0 || base.last() == sep || base.last() == '/' {
        base + part
    } else {
        base + seq![sep] + part
    }
}

/// Appends a relative piece to a path (see `path_join`).
pub fn join_path(base: &str, part: &str, sep: char) -> (r: String)
    ensures
        r@ == path_join(base@, part@, sep),
{
    let b = chars_of(base);
    let p = chars_of(part);
    let mut v: Vec<char> = b.clone();
    assert(v@ == b@);
    let n = b.len();
    if n > 0 && b[n - 1] != sep && b[n - 1] != '/' {
        v.push(sep);
    }
    let mut k: usize = 0;
    let ghost start = v@;
    while k < p.len()
        invariant
            k <= p.len(),
            v@ =~= start + p@.take(k as int),
        decreases p.len() - k,
    {
        v.push(p[k]);
        k = k + 1;
    }
    assert(p@.take(p@.len() as int) =~= p@);
    proof {
        if n > 0 {
            assert(b@.last() == b@[n - 1]);
        }
    }
    string_of(&v)
}

} // verus!
