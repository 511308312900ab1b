//! Unix path helpers: absolute paths, joining, and final components.

use vstd::prelude::*;
use crate::worktree::opt_view;

verus! {

/// Whether `p` is an absolute path: it starts at the root.
pub open spec fn is_absolute(p: Seq<char>) -> bool {
    p.len() > 0 && p[0] == '/'
}

/// Whether `t` names a path rather than a bare name: it is absolute or holds
/// a separator.
pub open spec fn is_path_like(t: Seq<char>) -> bool {
    is_absolute(t) || t.contains('/')
}

/// `path` taken relative to `base`: an absolute `path` stands alone, else a
/// separator joins the two unless `base` is empty or already ends in one.
pub open spec fn join_path(base: Seq<char>, path: Seq<char>) -> Seq<char> {
    if is_absolute(path) {
        path
    } else if base.len() == 0 || base.last() == '/' {
        base + path
    } else {
        base + seq!['/'] + path
    }
}

/// The final component of the path `p`, if it has one.
pub uninterp spec fn file_name_of(p: Seq<char>) -> Option<Seq<char>>;

/// Relies on `std::path::Path::file_name`: the final component of a path,
/// which depends on the path alone. A component of a `str` path is valid
/// UTF-8, so the lossy conversion keeps it whole.
#[verifier::external_body]
pub(crate) fn path_file_name(p: &str) -> (r: Option<String>)
    ensures
        opt_view(r) == file_name_of(p@),
{
    std::path::Path::new(p).file_name().map(|n| n.to_string_lossy().into_owned())
}

/// Whether `t` is a path rather than a bare name.
pub fn is_path_like_str(t: &str) -> (r: bool)
    ensures
        r == is_path_like(t@),
{
    let n = t.unicode_len();
    let mut i: usize = 0;
    while i < n
        invariant
            n == t@.len(),
            i <= n,
            forall|j: int| 0 <= j < i ==> t@[j] != '/',
        decreases n - i,
    {
        if t.get_char(i) == '/' {
            assert(t@.contains('/')) by {
                assert(t@[i as int] == '/');
            }
            return true;
        }
        i = i + 1;
    }
    false
}

/// Resolves `path` against `base`: an absolute `path` is kept as it is, a
/// relative one is joined onto `base`.
pub fn resolve_path(base: &str, path: &str) -> (r: String)
    ensures
        r@ == join_path(base@, path@),
{
    let n = path.unicode_len();
    if n > 0 && path.get_char(0) == '/' {
        return String::from_str(path);
    }
    let m = base.unicode_len();
    let mut out = String::from_str(base);
    if m > 0 && base.get_char(m - 1) != '/' {
        out.append("/");
        proof {
            reveal_strlit("/");
        }
    }
    out.append(path);
    out
}

} // verus!
