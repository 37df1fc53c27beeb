use vstd::prelude::*;
use vstd::string::StrSliceExecFns;

verus! {

/// `needle` occurs in `hay` as a contiguous run of characters.
pub open spec fn contains_seq(hay: Seq<char>, needle: Seq<char>) -> bool {
    exists|i: int|
        0 <= i && i + needle.len() <= hay.len() && #[trigger] hay.subrange(i, i + needle.len())
            == needle
}

/// Character-for-character string equality; the survey matching rules ask for
/// exact matches, with no trimming and no case folding.
pub fn str_eq(a: &str, b: &str) -> (r: bool)
    ensures
        r == (a@ == b@),
{
    let alen: usize = a.unicode_len();
    let blen: usize = b.unicode_len();
    if alen != blen {
        return false;
    }
    let mut i: usize = 0;
    while i < alen
        invariant
            alen == a@.len(),
            blen == b@.len(),
            alen == blen,
            0 <= i <= alen,
            forall|k: int| 0 <= k < i ==> a@[k] == b@[k],
        decreases alen - i,
    {
        if a.get_char(i) != b.get_char(i) {
            return false;
        }
        i += 1;
    }
    proof {
        assert(a@ =~= b@);
    }
    true
}

/// The characters of `needle` match `hay` starting at position `at`.
fn match_at(hay: &str, needle: &str, at: usize) -> (r: bool)
    requires
        at + needle@.len() <= hay@.len(),
    ensures
        r == (hay@.subrange(at as int, at + needle@.len()) == needle@),
{
    let hlen: usize = hay.unicode_len();
    let nlen: usize = needle.unicode_len();
    let mut k: usize = 0;
    while k < nlen
        invariant
            hlen == hay@.len(),
            nlen == needle@.len(),
            at + nlen <= hlen,
            0 <= k <= nlen,
            forall|t: int| 0 <= t < k ==> hay@[at + t] == needle@[t],
        decreases nlen - k,
    {
        if hay.get_char(at + k) != needle.get_char(k) {
            assert(hay@.subrange(at as int, at + needle@.len())[k as int] != needle@[k as int]);
            return false;
        }
        k += 1;
    }
    proof {
        assert(hay@.subrange(at as int, at + needle@.len()) =~= needle@);
    }
    true
}

/// Substring search: whether `needle` occurs anywhere in `hay`.
pub fn str_contains(hay: &str, needle: &str) -> (r: bool)
    ensures
        r == contains_seq(hay@, needle@),
{
    let hlen: usize = hay.unicode_len();
    let nlen: usize = needle.unicode_len();
    if nlen > hlen {
        return false;
    }
    if nlen == 0 {
        proof {
            assert(hay@.subrange(0, 0 + needle@.len() as int) =~= needle@);
        }
        return true;
    }
    let mut i: usize = 0;
    while i <= hlen - nlen
        invariant
            hlen == hay@.len(),
            nlen == needle@.len(),
            1 <= nlen <= hlen,
            0 <= i <= hlen - nlen + 1,
            forall|j: int| 0 <= j < i ==> #[trigger] hay@.subrange(j, j + needle@.len())
                != needle@,
        decreases hlen - i,
    {
        if match_at(hay, needle, i) {
            return true;
        }
        i += 1;
    }
    proof {
        assert forall|j: int| !(0 <= j && j + needle@.len() <= hay@.len()
            && #[trigger] hay@.subrange(j, j + needle@.len()) == needle@) by {
            if 0 <= j && j + needle@.len() <= hay@.len() {
                assert(j < i);
            }
        }
    }
    false
}

} // verus!
