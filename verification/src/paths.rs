//! Path strings as character sequences: the trailing name segment, joining a
//! directory with a child name, and replacing the name segment for a rename.
//! Every function receives its target path explicitly; nothing here depends on
//! ambient working-directory state.

use vstd::prelude::*;
use vstd::string::StrSliceExecFns;
use vstd::string::StringExecFns;

verus! {

/// The separator between path segments.
pub open spec fn sep() -> char {
    '/'
}

/// The trailing segment of `p`: the maximal suffix that holds no separator.
pub open spec fn segment_of(p: Seq<char>) -> Seq<char>
    decreases p.len(),
{
    if p.len() == 0 {
        Seq::empty()
    } else if p.last() == sep() {
        Seq::empty()
    } else {
        segment_of(p.drop_last()).push(p.last())
    }
}

/// `d` joined with child name `n`: a separator is inserted unless `d` already
/// ends with one.
pub open spec fn join_seq(d: Seq<char>, n: Seq<char>) -> Seq<char> {
    if d.len() > 0 && d.last() == sep() {
        d + n
    } else {
        d + seq![sep()] + n
    }
}

/// `p` with its trailing segment replaced by `n`.
pub open spec fn replace_segment(p: Seq<char>, n: Seq<char>) -> Seq<char> {
    p.subrange(0, p.len() - segment_of(p).len()) + n
}

/// If every character from `k` on is a non-separator and `k` is either the
/// start or preceded by a separator, the trailing segment starts at `k`.
proof fn lemma_segment_from(p: Seq<char>, k: int)
    requires
        0 <= k <= p.len(),
        forall|j: int| k <= j < p.len() ==> p[j] != sep(),
        k > 0 ==> p[k - 1] == sep(),
    ensures
        segment_of(p) == p.subrange(k, p.len() as int),
    decreases p.len(),
{
    if k == p.len() {
        assert(p.subrange(k, p.len() as int) =~= Seq::<char>::empty());
        if p.len() > 0 {
            assert(p.last() == sep());
        }
    } else {
        assert(p.last() != sep());
        lemma_segment_from(p.drop_last(), k);
        assert(segment_of(p) == p.drop_last().subrange(k, p.len() - 1).push(p.last()));
        assert(p.drop_last().subrange(k, p.len() - 1).push(p.last()) =~= p.subrange(
            k,
            p.len() as int,
        ));
    }
}

/// The start of the trailing segment of `p`: the index just after the last
/// separator, or `0` when `p` holds none.
pub fn segment_start(p: &str) -> (k: usize)
    ensures
        k <= p@.len(),
        segment_of(p@) == p@.subrange(k as int, p@.len() as int),
        p@.len() - segment_of(p@).len() == k,
{
    let len = p.unicode_len();
    let mut k: usize = len;
    loop
        invariant
            k <= len,
            p@.len() == len,
            forall|j: int| k <= j < len ==> p@[j] != sep(),
        ensures
            k <= len,
            forall|j: int| k <= j < len ==> p@[j] != sep(),
            k > 0 ==> p@[k - 1] == sep(),
        decreases k,
    {
        if k == 0 {
            break ;
        }
        if p.get_char(k - 1) == '/' {
            break ;
        }
        k = k - 1;
    }
    proof {
        lemma_segment_from(p@, k as int);
    }
    k
}

/// The display name of `p`: its trailing segment.
pub fn file_name_of(p: &str) -> (r: String)
    ensures
        r@ == segment_of(p@),
{
    let len = p.unicode_len();
    let k = segment_start(p);
    p.substring_char(k, len).to_owned()
}

/// `dir` joined with the child name `name`.
pub fn join_path(dir: &str, name: &str) -> (r: String)
    ensures
        r@ == join_seq(dir@, name@),
{
    let dlen = dir.unicode_len();
    let mut r = dir.to_owned();
    if dlen == 0 || dir.get_char(dlen - 1) != '/' {
        r.append("/");
        proof {
            reveal_strlit("/");
            assert(r@ =~= dir@ + seq![sep()]);
        }
    }
    r.append(name);
    proof {
        if dlen == 0 || dir@.last() != sep() {
            assert(r@ =~= dir@ + seq![sep()] + name@);
        }
    }
    r
}

/// The target path of a rename: `p` with its trailing segment replaced by
/// `new_name`.
pub fn renamed_path(p: &str, new_name: &str) -> (r: String)
    ensures
        r@ == replace_segment(p@, new_name@),
{
    let k = segment_start(p);
    let mut r = p.substring_char(0, k).to_owned();
    r.append(new_name);
    r
}

} // verus!
