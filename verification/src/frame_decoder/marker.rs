//! Search for the bytes with which a frame may begin.
use vstd::prelude::*;

use crate::consts::v1;
use crate::consts::v2;
use crate::wire::is_marker;

verus! {

/// Shortest input for which a vectorized search pays off.
const VECTORIZED_MARKER_SEARCH_MINIMUM: usize = 64;

/// Nearby markers are cheaper to find without vector setup, even in a long
/// buffer.
const SCALAR_MARKER_SEARCH_PREFIX: usize = 24;

/// `memchr::memchr2` returns the index of the first byte of `haystack` that
/// equals one of the two needles, or `None` if there is no such byte.
pub assume_specification[ memchr::memchr2 ](
    needle1: u8,
    needle2: u8,
    haystack: &[u8],
) -> (found: Option<usize>)
    ensures
        match found {
            Some(index) => {
                &&& index < haystack@.len()
                &&& haystack@[index as int] == needle1 || haystack@[index as int] == needle2
                &&& forall|i: int|
                    0 <= i < index ==> #[trigger] haystack@[i] != needle1 && haystack@[i]
                        != needle2
            },
            None => forall|i: int|
                0 <= i < haystack@.len() ==> #[trigger] haystack@[i] != needle1 && haystack@[i]
                    != needle2,
        },
;

/// No byte of `bytes` below `end` is a marker.
pub open spec fn no_marker_below(bytes: Seq<u8>, end: int) -> bool {
    forall|i: int| 0 <= i < end ==> !is_marker(#[trigger] bytes[i])
}

/// Where the first marker of `bytes` stands, if it has one.
pub open spec fn marker_found(bytes: Seq<u8>, found: Option<usize>) -> bool {
    match found {
        Some(index) => {
            &&& index < bytes.len()
            &&& is_marker(bytes[index as int])
            &&& no_marker_below(bytes, index as int)
        },
        None => no_marker_below(bytes, bytes.len() as int),
    }
}

/// Number of bytes in front of the first marker of `bytes`, or all of them if it has
/// none.
pub open spec fn first_marker(bytes: Seq<u8>) -> nat
    decreases bytes.len(),
{
    if bytes.len() == 0 || is_marker(bytes[0]) {
        0
    } else {
        1 + first_marker(bytes.drop_first())
    }
}

/// No marker stands in front of the first one.
pub proof fn lemma_before_first_marker(bytes: Seq<u8>)
    ensures
        first_marker(bytes) <= bytes.len(),
        no_marker_below(bytes, first_marker(bytes) as int),
        first_marker(bytes) < bytes.len() ==> is_marker(bytes[first_marker(bytes) as int]),
    decreases bytes.len(),
{
    if bytes.len() > 0 && !is_marker(bytes[0]) {
        let next = bytes.drop_first();
        lemma_before_first_marker(next);
        assert forall|i: int| 0 <= i < first_marker(bytes) implies !is_marker(
            #[trigger] bytes[i],
        ) by {
            if i > 0 {
                assert(bytes[i] == next[i - 1]);
            }
        }
    }
}

/// The first marker is the one with none below.
pub proof fn lemma_first_marker(bytes: Seq<u8>, index: nat)
    requires
        index <= bytes.len(),
        no_marker_below(bytes, index as int),
        index < bytes.len() ==> is_marker(bytes[index as int]),
    ensures
        first_marker(bytes) == index,
    decreases index,
{
    if index > 0 {
        assert(!is_marker(bytes[0]));
        let next = bytes.drop_first();
        assert forall|i: int| 0 <= i < index - 1 implies !is_marker(#[trigger] next[i]) by {
            assert(!is_marker(bytes[i + 1]));
        }
        lemma_first_marker(next, (index - 1) as nat);
    }
}

/// First marker of `bytes[start..end]`, one byte at a time.
fn scalar_search(bytes: &[u8], start: usize, end: usize) -> (found: Option<usize>)
    requires
        start <= end <= bytes@.len(),
        no_marker_below(bytes@, start as int),
    ensures
        match found {
            Some(index) => marker_found(bytes@, Some(index)),
            None => no_marker_below(bytes@, end as int),
        },
{
    let mut position = start;
    while position < end
        invariant
            start <= position <= end <= bytes@.len(),
            no_marker_below(bytes@, position as int),
        decreases end - position,
    {
        let byte = bytes[position];
        if byte == v1::STX || byte == v2::STX {
            return Some(position);
        }
        position += 1;
    }
    None
}

/// Index of the first byte with which a frame may begin.
#[inline]
pub fn find_marker(bytes: &[u8]) -> (found: Option<usize>)
    ensures
        marker_found(bytes@, found),
{
    if bytes.len() == 0 {
        return None;
    }
    let first = bytes[0];
    if first == v1::STX || first == v2::STX {
        return Some(0);
    }
    if bytes.len() < VECTORIZED_MARKER_SEARCH_MINIMUM {
        return scalar_search(bytes, 1, bytes.len());
    }
    if let Some(index) = scalar_search(bytes, 1, SCALAR_MARKER_SEARCH_PREFIX) {
        return Some(index);
    }
    let remaining = &bytes[SCALAR_MARKER_SEARCH_PREFIX..bytes.len()];
    assert forall|i: int|
        SCALAR_MARKER_SEARCH_PREFIX <= i < bytes@.len() implies #[trigger] bytes@[i] == remaining@[i
        - SCALAR_MARKER_SEARCH_PREFIX] by {}
    match memchr::memchr2(v1::STX, v2::STX, remaining) {
        Some(offset) => Some(offset + SCALAR_MARKER_SEARCH_PREFIX),
        None => None,
    }
}

/// How many of `bytes` are markers.
pub open spec fn marker_count(bytes: Seq<u8>) -> nat
    decreases bytes.len(),
{
    if bytes.len() == 0 {
        0
    } else if is_marker(bytes.last()) {
        marker_count(bytes.drop_last()) + 1
    } else {
        marker_count(bytes.drop_last())
    }
}

/// Bytes without a marker count for nothing.
pub proof fn lemma_no_marker_counted(bytes: Seq<u8>)
    requires
        no_marker_below(bytes, bytes.len() as int),
    ensures
        marker_count(bytes) == 0,
    decreases bytes.len(),
{
    if bytes.len() > 0 {
        let shorter = bytes.drop_last();
        assert forall|i: int| 0 <= i < shorter.len() implies !is_marker(#[trigger] shorter[i]) by {
            assert(shorter[i] == bytes[i]);
        }
        lemma_no_marker_counted(shorter);
        assert(!is_marker(bytes[bytes.len() - 1]));
    }
}

/// The markers of both parts are those of the whole.
proof fn lemma_markers_added(first: Seq<u8>, second: Seq<u8>)
    ensures
        marker_count(first + second) == marker_count(first) + marker_count(second),
    decreases second.len(),
{
    let whole = first + second;
    if second.len() == 0 {
        assert(whole =~= first);
    } else {
        lemma_markers_added(first, second.drop_last());
        assert(whole.drop_last() =~= first + second.drop_last());
    }
}

/// The markers of a longer beginning are those of a shorter one and of what follows it.
pub proof fn lemma_markers_taken(bytes: Seq<u8>, count: int, more: int)
    requires
        0 <= count,
        0 <= more,
        count + more <= bytes.len(),
    ensures
        marker_count(bytes.take(count + more)) == marker_count(bytes.take(count)) + marker_count(
            bytes.skip(count).take(more),
        ),
{
    let first = bytes.take(count);
    let second = bytes.skip(count).take(more);
    lemma_markers_added(first, second);
    assert(first + second =~= bytes.take(count + more));
}

} // verus!
