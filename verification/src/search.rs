use vstd::prelude::*;

verus! {

/// Relies on memchr::memchr: the index of the first occurrence of `needle`
/// in `haystack`, or `None` when it does not occur.
#[verifier::external_body]
pub(crate) fn find_byte(haystack: &[u8], needle: u8) -> (r: Option<usize>)
    ensures
        match r {
            Some(i) => i < haystack@.len() && haystack@[i as int] == needle && forall|j: int|
                0 <= j < i ==> haystack@[j] != needle,
            None => forall|j: int| 0 <= j < haystack@.len() ==> haystack@[j] != needle,
        },
{
    memchr::memchr(needle, haystack)
}

/// Relies on memchr::memchr2: the index of the first occurrence of either
/// needle in `haystack`, or `None` when neither occurs.
#[verifier::external_body]
pub(crate) fn find_byte2(haystack: &[u8], needle1: u8, needle2: u8) -> (r: Option<usize>)
    ensures
        match r {
            Some(i) => i < haystack@.len() && (haystack@[i as int] == needle1
                || haystack@[i as int] == needle2) && forall|j: int|
                0 <= j < i ==> haystack@[j] != needle1 && haystack@[j] != needle2,
            None => forall|j: int|
                0 <= j < haystack@.len() ==> haystack@[j] != needle1 && haystack@[j] != needle2,
        },
{
    memchr::memchr2(needle1, needle2, haystack)
}

/// Relies on memchr::memchr3: the index of the first occurrence of any of the
/// three needles in `haystack`, or `None` when none occurs.
#[verifier::external_body]
pub(crate) fn find_byte3(haystack: &[u8], needle1: u8, needle2: u8, needle3: u8) -> (r: Option<
    usize,
>)
    ensures
        match r {
            Some(i) => i < haystack@.len() && (haystack@[i as int] == needle1
                || haystack@[i as int] == needle2 || haystack@[i as int] == needle3) && forall|j: int|
                0 <= j < i ==> haystack@[j] != needle1 && haystack@[j] != needle2 && haystack@[j]
                    != needle3,
            None => forall|j: int|
                0 <= j < haystack@.len() ==> haystack@[j] != needle1 && haystack@[j] != needle2
                    && haystack@[j] != needle3,
        },
{
    memchr::memchr3(needle1, needle2, needle3, haystack)
}

/// Relies on memchr::memmem::find: the starting index of the first occurrence
/// of `needle` as a contiguous subsequence of `haystack`, or `None` when it
/// does not occur.
#[verifier::external_body]
pub(crate) fn find_subsequence(haystack: &[u8], needle: &[u8]) -> (r: Option<usize>)
    ensures
        match r {
            Some(i) => i + needle@.len() <= haystack@.len() && haystack@.subrange(
                i as int,
                i + needle@.len(),
            ) == needle@ && forall|j: int|
                0 <= j < i ==> #[trigger] haystack@.subrange(j, j + needle@.len()) != needle@,
            None => forall|j: int|
                0 <= j <= haystack@.len() - needle@.len() ==> #[trigger] haystack@.subrange(
                    j,
                    j + needle@.len(),
                ) != needle@,
        },
{
    memchr::memmem::find(haystack, needle)
}

} // verus!
