//! Case-sensitive substring containment over character sequences, with a
//! verified linear scan used by every search operation of the repository.

use vstd::prelude::*;

verus! {

/// The needle `n` occurs in the haystack `h` starting at position `i`.
pub open spec fn match_at(h: Seq<char>, n: Seq<char>, i: int) -> bool {
    &&& 0 <= i
    &&& i + n.len() <= h.len()
    &&& forall|k: int| 0 <= k < n.len() ==> h[i + k] == n[k]
}

/// Case-sensitive, unanchored substring containment: the needle `n` occurs
/// somewhere in the haystack `h`.  The empty needle matches every haystack.
pub open spec fn contains_substr(h: Seq<char>, n: Seq<char>) -> bool {
    exists|i: int| match_at(h, n, i)
}

/// The empty needle matches every haystack, at position zero.
pub proof fn lemma_empty_needle_matches(h: Seq<char>)
    ensures
        contains_substr(h, Seq::empty()),
{
    assert(match_at(h, Seq::empty(), 0));
}

/// A needle longer than the haystack never matches.
pub proof fn lemma_long_needle_never_matches(h: Seq<char>, n: Seq<char>)
    requires
        n.len() > h.len(),
    ensures
        !contains_substr(h, n),
{
}

/// Whether the needle occurs in the haystack starting exactly at `i`.
fn matches_here(h: &str, n: &str, i: usize) -> (r: bool)
    requires
        h@.len() <= usize::MAX,
        i + n@.len() <= h@.len(),
    ensures
        r == match_at(h@, n@, i as int),
{
    let nlen = n.unicode_len();
    let mut k: usize = 0;
    while k < nlen
        invariant
            nlen == n@.len(),
            h@.len() <= usize::MAX,
            i + n@.len() <= h@.len(),
            k <= nlen,
            forall|t: int| 0 <= t < k ==> h@[i + t] == n@[t],
        decreases nlen - k,
    {
        if h.get_char(i + k) != n.get_char(k) {
            return false;
        }
        k += 1;
    }
    true
}

/// Whether the needle `n` occurs anywhere in the haystack `h`, scanning every
/// starting position in order.
pub fn str_contains(h: &str, n: &str) -> (r: bool)
    ensures
        r == contains_substr(h@, n@),
{
    let hlen = h.unicode_len();
    let nlen = n.unicode_len();
    if nlen > hlen {
        proof {
            lemma_long_needle_never_matches(h@, n@);
        }
        return false;
    }
    let mut i: usize = 0;
    while i <= hlen - nlen
        invariant
            hlen == h@.len(),
            nlen == n@.len(),
            nlen <= hlen,
            i <= hlen - nlen + 1,
            forall|j: int| 0 <= j < i ==> !match_at(h@, n@, j),
        decreases hlen - nlen - i + 1,
    {
        if matches_here(h, n, i) {
            return true;
        }
        proof {
            // The failed probe has at least one mismatching character, so the
            // needle is non-empty and `i + 1` cannot overflow.
            assert(nlen > 0) by {
                if nlen == 0 {
                    assert(match_at(h@, n@, i as int));
                }
            }
        }
        i += 1;
    }
    false
}

} // verus!
