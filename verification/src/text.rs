//! Character-level string predicates and their executable counterparts:
//! equality, prefix and substring tests over `&str`.

use vstd::prelude::*;
use vstd::string::StrSliceExecFns;

verus! {

/// `q` occurs in `t` starting at position `i`.
pub open spec fn contains_at(t: Seq<char>, q: Seq<char>, i: int) -> bool {
    0 <= i && i + q.len() <= t.len() && t.subrange(i, i + q.len() as int) == q
}

/// `q` occurs somewhere in `t` as a contiguous run of characters.
pub open spec fn contains_seq(t: Seq<char>, q: Seq<char>) -> bool {
    exists|i: int| contains_at(t, q, i)
}

/// `p` is a prefix of `t`.
pub open spec fn is_prefix(t: Seq<char>, p: Seq<char>) -> bool {
    p.len() <= t.len() && t.subrange(0, p.len() as int) == p
}

pub fn str_eq(a: &str, b: &str) -> (r: bool)
    ensures
        r == (a@ == b@),
{
    let alen = a.unicode_len();
    let blen = b.unicode_len();
    if alen != blen {
        return false;
    }
    let mut i: usize = 0;
    while i < alen
        invariant
            a@.len() == alen,
            b@.len() == alen,
            i <= alen,
            forall|j: int| 0 <= j < i ==> a@[j] == b@[j],
        decreases alen - i,
    {
        if a.get_char(i) != b.get_char(i) {
            return false;
        }
        i = i + 1;
    }
    proof {
        assert(a@ =~= b@);
    }
    true
}

pub fn str_starts_with(t: &str, p: &str) -> (r: bool)
    ensures
        r == is_prefix(t@, p@),
{
    let tlen = t.unicode_len();
    let plen = p.unicode_len();
    if plen > tlen {
        return false;
    }
    let mut i: usize = 0;
    while i < plen
        invariant
            t@.len() == tlen,
            p@.len() == plen,
            plen <= tlen,
            i <= plen,
            forall|j: int| 0 <= j < i ==> t@[j] == p@[j],
        decreases plen - i,
    {
        if t.get_char(i) != p.get_char(i) {
            proof {
                assert(t@.subrange(0, plen as int)[i as int] != p@[i as int]);
            }
            return false;
        }
        i = i + 1;
    }
    proof {
        assert(t@.subrange(0, plen as int) =~= p@);
    }
    true
}

/// `q` occurs in `t` starting at position `i`; the caller has checked the bounds.
fn matches_at(t: &str, q: &str, i: usize) -> (r: bool)
    requires
        i + q@.len() <= t@.len(),
    ensures
        r == contains_at(t@, q@, i as int),
{
    let tlen = t.unicode_len();
    let qlen = q.unicode_len();
    let mut j: usize = 0;
    while j < qlen
        invariant
            t@.len() == tlen,
            q@.len() == qlen,
            i + qlen <= tlen,
            j <= qlen,
            forall|k: int| 0 <= k < j ==> t@[i + k] == q@[k],
        decreases qlen - j,
    {
        if t.get_char(i + j) != q.get_char(j) {
            proof {
                assert(t@.subrange(i as int, i + qlen as int)[j as int] != q@[j as int]);
            }
            return false;
        }
        j = j + 1;
    }
    proof {
        assert(t@.subrange(i as int, i + qlen as int) =~= q@);
    }
    true
}

pub fn str_contains(t: &str, q: &str) -> (r: bool)
    ensures
        r == contains_seq(t@, q@),
{
    let tlen = t.unicode_len();
    let qlen = q.unicode_len();
    if qlen > tlen {
        proof {
            assert(forall|i: int| !contains_at(t@, q@, i));
        }
        return false;
    }
    if qlen == 0 {
        proof {
            assert(t@.subrange(0, 0) =~= q@);
            assert(contains_at(t@, q@, 0));
        }
        return true;
    }
    let bound: usize = tlen - qlen + 1;
    let mut i: usize = 0;
    while i < bound
        invariant
            t@.len() == tlen,
            q@.len() == qlen,
            0 < qlen <= tlen,
            bound == tlen - qlen + 1,
            i <= bound,
            forall|j: int| 0 <= j < i ==> !contains_at(t@, q@, j),
        decreases bound - i,
    {
        if matches_at(t, q, i) {
            return true;
        }
        i = i + 1;
    }
    proof {
        assert(forall|j: int| j >= bound ==> !contains_at(t@, q@, j));
    }
    false
}

} // verus!
