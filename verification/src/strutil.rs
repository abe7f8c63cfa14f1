//! Character-exact string helpers: equality and substring search over the
//! character views, usable on any Unicode text.

use vstd::prelude::*;
use vstd::string::StrSliceExecFns;

verus! {

/// Compares two string slices character by character.
pub fn str_eq(a: &str, b: &str) -> (r: bool)
    ensures
        r == (a@ == b@),
{
    let na = a.unicode_len();
    let nb = b.unicode_len();
    if na != nb {
        proof {
            assert(a@ != b@);
        }
        return false;
    }
    let mut i: usize = 0;
    while i < na
        invariant
            na == a@.len(),
            nb == b@.len(),
            na == nb,
            i <= na,
            forall|j: int| 0 <= j < i ==> a@[j] == b@[j],
        decreases na - i,
    {
        if a.get_char(i) != b.get_char(i) {
            return false;
        }
        i = i + 1;
    }
    proof {
        assert(a@ =~= b@);
    }
    true
}

/// `needle` occurs in `hay` starting at position `at`.
pub open spec fn spec_match_at(hay: Seq<char>, needle: Seq<char>, at: int) -> bool {
    0 <= at && at + needle.len() <= hay.len() && hay.subrange(at, at + needle.len()) == needle
}

/// `needle` occurs somewhere in `hay`.
pub open spec fn spec_contains(hay: Seq<char>, needle: Seq<char>) -> bool {
    exists|at: int| spec_match_at(hay, needle, at)
}

/// Tests whether `needle` matches `hay` at position `at`.
#[verifier::loop_isolation(false)]
fn match_at(hay: &str, needle: &str, at: usize) -> (r: bool)
    requires
        at + needle@.len() <= hay@.len(),
        hay@.len() <= usize::MAX,
    ensures
        r == spec_match_at(hay@, needle@, at as int),
{
    let n = needle.unicode_len();
    let mut j: usize = 0;
    while j < n
        invariant
            j <= n,
            forall|k: int| 0 <= k < j ==> hay@[at + k] == needle@[k],
        decreases n - j,
    {
        if hay.get_char(at + j) != needle.get_char(j) {
            proof {
                assert(hay@.subrange(at as int, at + needle@.len())[j as int] != needle@[j as int]);
            }
            return false;
        }
        j = j + 1;
    }
    proof {
        assert(hay@.subrange(at as int, at + needle@.len()) =~= needle@);
    }
    true
}

/// Substring search over characters: true exactly when `needle` occurs in
/// `hay` (the empty needle occurs everywhere).
#[verifier::loop_isolation(false)]
pub fn str_contains(hay: &str, needle: &str) -> (r: bool)
    ensures
        r == spec_contains(hay@, needle@),
{
    let nh = hay.unicode_len();
    let nn = needle.unicode_len();
    if nn > nh {
        proof {
            assert forall|at: int| !spec_match_at(hay@, needle@, at) by {}
        }
        return false;
    }
    if nn == 0 {
        proof {
            assert(hay@.subrange(0, 0) =~= needle@);
            assert(spec_match_at(hay@, needle@, 0));
        }
        return true;
    }
    let mut at: usize = 0;
    while at <= nh - nn
        invariant
            0 < nn <= nh,
            at <= nh - nn + 1,
            forall|k: int| 0 <= k < at ==> !spec_match_at(hay@, needle@, k),
        decreases nh - nn + 1 - at,
    {
        if match_at(hay, needle, at) {
            return true;
        }
        at = at + 1;
    }
    proof {
        assert forall|k: int| !spec_match_at(hay@, needle@, k) by {
            if 0 <= k && k + needle@.len() <= hay@.len() {
                assert(k < at);
            }
        }
    }
    false
}

} // verus!
