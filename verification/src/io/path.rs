//! Paths as the archives store them, and as the host writes them.

use vstd::prelude::*;

verus! {

/// The host's form of one character of a path: a slash for the backslash
/// that separates directories in the archives, and the character itself
/// otherwise.
pub open spec fn host_char(c: char) -> char {
    if c == '\\' {
        '/'
    } else {
        c
    }
}

/// The host's form of a path of the archives.
pub open spec fn host_path(path: Seq<char>) -> Seq<char> {
    Seq::new(path.len(), |k: int| host_char(path[k]))
}

/// A path in the host's form is left as it is.
pub proof fn lemma_host_path_settles(path: Seq<char>)
    ensures
        host_path(host_path(path)) == host_path(path),
{
    assert(host_path(host_path(path)) =~= host_path(path));
}

/// `str::replace` with a backslash as the pattern and "/" as the
/// replacement: every backslash is replaced by a slash, and every other
/// character stays where it is.
#[verifier::external_body]
fn replace_backslashes(path: &str) -> (host: String)
    ensures
        host@ == host_path(path@),
{
    path.replace('\\', "/")
}

/// The host's form of a path of the archives.
pub fn from_rose_path(path: &str) -> (host: String)
    ensures
        host@ == host_path(path@),
{
    replace_backslashes(path)
}

} // verus!
