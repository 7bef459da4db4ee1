//! Path arithmetic for the save protocol, done on plain text: the
//! parent directory of a destination and the name of its sibling
//! temporary file.

use vstd::prelude::*;
use vstd::string::StrSliceExecFns;
use vstd::string::StringExecFns;

verus! {

/// `i` indexes the last separator of `s`.
pub open spec fn is_last_slash(s: Seq<char>, i: int) -> bool {
    &&& 0 <= i < s.len()
    &&& s[i] == '/'
    &&& forall|j: int| i < j < s.len() ==> s[j] != '/'
}

/// Some position of `s` holds a separator.
pub open spec fn has_slash(s: Seq<char>) -> bool {
    exists|i: int| 0 <= i < s.len() && s[i] == '/'
}

/// The sibling temporary name of a destination path: the path itself
/// with `.tmp` appended. It names a file in the same directory and is
/// always distinct from the destination.
pub fn tmp_sibling_path(path: &str) -> (r: String)
    ensures
        r@ == path@ + ".tmp"@,
        r@ != path@,
{
    let mut r: String = path.to_owned();
    r.append(".tmp");
    proof {
        reveal_strlit(".tmp");
        assert(r@.len() == path@.len() + 4);
    }
    r
}

/// Everything before the last separator of the path: the directory
/// that must exist before the destination's sibling temporary file can
/// be created. `None` when the path is a bare file name.
pub fn parent_dir(path: &str) -> (r: Option<String>)
    ensures
        r is Some <==> has_slash(path@),
        (r matches Some(d) ==> exists|i: int|
            #[trigger] is_last_slash(path@, i) && d@ == path@.subrange(0, i)),
{
    let n = path.unicode_len();
    let mut last: Option<usize> = None;
    let mut i: usize = 0;
    while i < n
        invariant
            n == path@.len(),
            i <= n,
            match last {
                Some(k) => k < i && path@[k as int] == '/'
                    && forall|j: int| k < j < i ==> path@[j] != '/',
                None => forall|j: int| 0 <= j < i ==> path@[j] != '/',
            },
        decreases n - i,
    {
        if path.get_char(i) == '/' {
            last = Some(i);
        }
        i = i + 1;
    }
    match last {
        Some(k) => {
            proof {
                assert(is_last_slash(path@, k as int));
            }
            Some(path.substring_char(0, k).to_owned())
        },
        None => {
            proof {
                if has_slash(path@) {
                    let j = choose|j: int| 0 <= j < path@.len() && path@[j] == '/';
                    assert(path@[j] != '/');
                }
            }
            None
        },
    }
}

} // verus!
