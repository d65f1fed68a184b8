//! Exact search for a byte pattern.

use vstd::prelude::*;

verus! {

/// `pattern` occurs in `haystack` starting at index `i`.
pub open spec fn matches_at(haystack: Seq<u8>, pattern: Seq<u8>, i: int) -> bool {
    &&& 0 <= i
    &&& i + pattern.len() <= haystack.len()
    &&& haystack.subrange(i, i + pattern.len()) == pattern
}

/// `found` is the lowest index at which `pattern` occurs in `haystack`, or
/// `None` if it occurs nowhere.
pub open spec fn is_first_match(haystack: Seq<u8>, pattern: Seq<u8>, found: Option<usize>) -> bool {
    match found {
        Some(i) => {
            &&& matches_at(haystack, pattern, i as int)
            &&& forall|j: int| 0 <= j < i ==> !#[trigger] matches_at(haystack, pattern, j)
        },
        None => forall|j: int| !#[trigger] matches_at(haystack, pattern, j),
    }
}

/// Calls `twoway::find_bytes`. Trusted: it returns the position of the first
/// occurrence of `pattern` in `haystack`, comparing bytes exactly, and `None`
/// when there is no occurrence; an empty pattern is found at position 0.
#[verifier::external_body]
fn find_bytes(haystack: &[u8], pattern: &[u8]) -> (found: Option<usize>)
    ensures
        is_first_match(haystack@, pattern@, found),
{
    twoway::find_bytes(haystack, pattern)
}

/// The lowest index at which `pattern` occurs in `haystack`.
pub fn find_first(haystack: &[u8], pattern: &[u8]) -> (found: Option<usize>)
    ensures
        is_first_match(haystack@, pattern@, found),
{
    find_bytes(haystack, pattern)
}

} // verus!
