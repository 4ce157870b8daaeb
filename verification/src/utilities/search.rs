use vstd::prelude::*;

verus! {

/// Calls `memchr::memchr`, which its documentation says returns the index of the first
/// occurrence of `needle` in `haystack`, or `None` when there is none.
#[verifier::external_body]
pub(crate) fn find_byte(needle: u8, haystack: &[u8]) -> (r: Option<usize>)
    ensures
        match r {
            Some(i) => {
                &&& i < haystack@.len()
                &&& haystack@[i as int] == needle
                &&& forall|j: int| 0 <= j < i ==> haystack@[j] != needle
            },
            None => forall|j: int| 0 <= j < haystack@.len() ==> haystack@[j] != needle,
        },
{
    ::memchr::memchr(needle, haystack)
}

} // verus!
