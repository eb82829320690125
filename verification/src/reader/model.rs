//! Which message comes next in a byte stream.
use vstd::prelude::*;

use crate::frame_decoder::lemmas::{
    lemma_scan_again, lemma_scan_append, lemma_scan_garbage, lemma_scan_stops,
};
use crate::frame_decoder::marker::{first_marker, lemma_before_first_marker, no_marker_below};
use crate::frame_decoder::model::{classify, scan, ExtraTable};
use crate::frame_decoder::MAX_FRAME_LEN;

verus! {

/// Which frames a reader passes on.
pub type Accept = spec_fn(Seq<u8>) -> bool;

/// Outcome of looking for a message.
pub struct Found {
    /// The frame that carries it, if there is one.
    pub frame: Option<Seq<u8>>,
    /// The bytes that are left.
    pub rest: Seq<u8>,
}

/// `bytes` from its first marker on.
pub open spec fn from_marker(bytes: Seq<u8>) -> Seq<u8> {
    bytes.skip(first_marker(bytes) as int)
}

/// Looks for the first frame in `bytes` that is passed on, releasing those that are
/// not.
#[verifier::opaque]
pub open spec fn find_message(bytes: Seq<u8>, table: ExtraTable, accept: Accept) -> Found
    decreases bytes.len(),
{
    let outcome = scan(bytes, MAX_FRAME_LEN as nat, table);
    let front = bytes.skip(outcome.skipped as int);
    match outcome.frame {
        None => Found { frame: None, rest: front },
        Some(len) => {
            let frame = front.take(len as int);
            let rest = from_marker(front.skip(len as int));
            if accept(frame) {
                Found { frame: Some(frame), rest }
            } else {
                proof {
                    lemma_release(bytes, table);
                }
                find_message(rest, table, accept)
            }
        },
    }
}

/// Releasing a frame leaves fewer bytes.
pub proof fn lemma_release(bytes: Seq<u8>, table: ExtraTable)
    ensures
        ({
            let outcome = scan(bytes, MAX_FRAME_LEN as nat, table);
            let front = bytes.skip(outcome.skipped as int);
            outcome.frame matches Some(len) ==> {
                &&& 0 < len <= front.len()
                &&& from_marker(front.skip(len as int)).len() < bytes.len()
            }
        }),
{
    let outcome = scan(bytes, MAX_FRAME_LEN as nat, table);
    lemma_scan_stops(bytes, MAX_FRAME_LEN as nat, table);
    let front = bytes.skip(outcome.skipped as int);
    if let Some(len) = outcome.frame {
        reveal(classify);
        lemma_before_first_marker(front.skip(len as int));
    }
}

/// What is found depends only on where a scan stops.
proof fn lemma_find_same(first: Seq<u8>, second: Seq<u8>, table: ExtraTable, accept: Accept)
    requires
        ({
            let one = scan(first, MAX_FRAME_LEN as nat, table);
            let other = scan(second, MAX_FRAME_LEN as nat, table);
            &&& one.frame == other.frame
            &&& first.skip(one.skipped as int) == second.skip(other.skipped as int)
        }),
    ensures
        find_message(first, table, accept) == find_message(second, table, accept),
{
    reveal(find_message);
}

/// Where a scan stops at once, what is found is what stands in front.
pub proof fn lemma_find_front(bytes: Seq<u8>, table: ExtraTable, accept: Accept)
    requires
        scan(bytes, MAX_FRAME_LEN as nat, table).skipped == 0,
    ensures
        find_message(bytes, table, accept) == match scan(
            bytes,
            MAX_FRAME_LEN as nat,
            table,
        ).frame {
            None => Found { frame: None, rest: bytes },
            Some(len) => {
                let frame = bytes.take(len as int);
                let rest = from_marker(bytes.skip(len as int));
                if accept(frame) {
                    Found { frame: Some(frame), rest }
                } else {
                    find_message(rest, table, accept)
                }
            },
        },
{
    reveal(find_message);
    assert(bytes.skip(0) =~= bytes);
}

/// Dropping what a scan drops does not change what is found.
pub proof fn lemma_find_scanned(bytes: Seq<u8>, table: ExtraTable, accept: Accept)
    ensures
        ({
            let outcome = scan(bytes, MAX_FRAME_LEN as nat, table);
            find_message(bytes.skip(outcome.skipped as int), table, accept) == find_message(
                bytes,
                table,
                accept,
            )
        }),
{
    let outcome = scan(bytes, MAX_FRAME_LEN as nat, table);
    let front = bytes.skip(outcome.skipped as int);
    lemma_scan_again(bytes, MAX_FRAME_LEN as nat, table);
    assert(front.skip(0) =~= front);
    lemma_find_same(front, bytes, table, accept);
}

/// Bytes in front of the first marker do not change what is found.
pub proof fn lemma_find_from_marker(
    bytes: Seq<u8>,
    count: nat,
    table: ExtraTable,
    accept: Accept,
)
    requires
        count <= bytes.len(),
        no_marker_below(bytes, count as int),
    ensures
        find_message(bytes.skip(count as int), table, accept) == find_message(
            bytes,
            table,
            accept,
        ),
{
    let capacity = MAX_FRAME_LEN as nat;
    let front = bytes.skip(count as int);
    lemma_scan_garbage(bytes, count, capacity, table);
    lemma_scan_stops(front, capacity, table);
    let dropped = scan(front, capacity, table).skipped;
    assert(front.skip(dropped as int) =~= bytes.skip((count + dropped) as int));
    lemma_find_same(front, bytes, table, accept);
}

/// Where no message is found, what is found together with more bytes depends only on
/// what is left.
pub proof fn lemma_find_append(
    bytes: Seq<u8>,
    more: Seq<u8>,
    table: ExtraTable,
    accept: Accept,
)
    requires
        find_message(bytes, table, accept).frame is None,
    ensures
        find_message(bytes + more, table, accept) == find_message(
            find_message(bytes, table, accept).rest + more,
            table,
            accept,
        ),
    decreases bytes.len(),
{
    reveal(find_message);
    let capacity = MAX_FRAME_LEN as nat;
    let whole = bytes + more;
    let outcome = scan(bytes, capacity, table);
    let front = bytes.skip(outcome.skipped as int);
    lemma_scan_stops(bytes, capacity, table);
    lemma_scan_append(bytes, more, capacity, table);
    match outcome.frame {
        None => {
            let later = scan(front + more, capacity, table);
            lemma_scan_stops(front + more, capacity, table);
            assert(whole.skip((outcome.skipped + later.skipped) as int) =~= (front + more).skip(
                later.skipped as int,
            ));
            lemma_find_same(whole, front + more, table, accept);
        },
        Some(len) => {
            lemma_release(bytes, table);
            let behind = front.skip(len as int);
            let rest = from_marker(behind);
            assert(whole.skip(outcome.skipped as int) =~= front + more);
            assert((front + more).take(len as int) =~= front.take(len as int));
            assert((front + more).skip(len as int) =~= behind + more);
            lemma_find_append(rest, more, table, accept);
            lemma_before_first_marker(behind);
            lemma_before_first_marker(behind + more);
            let count = first_marker(behind);
            assert forall|i: int| 0 <= i < count implies !crate::wire::is_marker(
                #[trigger] (behind + more)[i],
            ) by {
                assert((behind + more)[i] == behind[i]);
            }
            lemma_find_from_marker(behind + more, count, table, accept);
            lemma_find_from_marker(behind + more, first_marker(behind + more), table, accept);
            assert((behind + more).skip(count as int) =~= rest + more);
            assert(find_message(whole, table, accept) == find_message(
                from_marker(behind + more),
                table,
                accept,
            ));
        },
    }
}

/// A message that is found stays found, whatever follows.
pub proof fn lemma_find_stays(
    bytes: Seq<u8>,
    more: Seq<u8>,
    table: ExtraTable,
    accept: Accept,
)
    requires
        find_message(bytes, table, accept).frame is Some,
    ensures
        find_message(bytes + more, table, accept).frame == find_message(
            bytes,
            table,
            accept,
        ).frame,
    decreases bytes.len(),
{
    reveal(find_message);
    let capacity = MAX_FRAME_LEN as nat;
    let whole = bytes + more;
    let outcome = scan(bytes, capacity, table);
    let front = bytes.skip(outcome.skipped as int);
    lemma_scan_stops(bytes, capacity, table);
    lemma_scan_append(bytes, more, capacity, table);
    lemma_release(bytes, table);
    if let Some(len) = outcome.frame {
        let behind = front.skip(len as int);
        let rest = from_marker(behind);
        assert(whole.skip(outcome.skipped as int) =~= front + more);
        assert((front + more).take(len as int) =~= front.take(len as int));
        assert((front + more).skip(len as int) =~= behind + more);
        if !accept(front.take(len as int)) {
            lemma_find_stays(rest, more, table, accept);
            lemma_before_first_marker(behind);
            lemma_before_first_marker(behind + more);
            let count = first_marker(behind);
            assert forall|i: int| 0 <= i < count implies !crate::wire::is_marker(
                #[trigger] (behind + more)[i],
            ) by {
                assert((behind + more)[i] == behind[i]);
            }
            lemma_find_from_marker(behind + more, count, table, accept);
            lemma_find_from_marker(behind + more, first_marker(behind + more), table, accept);
            assert((behind + more).skip(count as int) =~= rest + more);
        }
    }
}

/// A message that is found stays found whatever follows, and no byte behind it is
/// lost: what is found next is what would be found had everything been there at once.
pub proof fn law_nothing_behind_a_message_is_lost(
    bytes: Seq<u8>,
    more: Seq<u8>,
    table: ExtraTable,
    accept: Accept,
)
    requires
        find_message(bytes, table, accept).frame is Some,
    ensures
        ({
            let early = find_message(bytes, table, accept);
            let whole = find_message(bytes + more, table, accept);
            &&& whole.frame == early.frame
            &&& find_message(whole.rest, table, accept) == find_message(
                early.rest + more,
                table,
                accept,
            )
        }),
    decreases bytes.len(),
{
    reveal(find_message);
    lemma_find_stays(bytes, more, table, accept);
    let capacity = MAX_FRAME_LEN as nat;
    let whole = bytes + more;
    let outcome = scan(bytes, capacity, table);
    let front = bytes.skip(outcome.skipped as int);
    lemma_scan_stops(bytes, capacity, table);
    lemma_scan_append(bytes, more, capacity, table);
    lemma_release(bytes, table);
    if let Some(len) = outcome.frame {
        let behind = front.skip(len as int);
        let rest = from_marker(behind);
        let all = behind + more;
        assert(whole.skip(outcome.skipped as int) =~= front + more);
        assert((front + more).take(len as int) =~= front.take(len as int));
        assert((front + more).skip(len as int) =~= all);
        lemma_before_first_marker(behind);
        lemma_before_first_marker(all);
        let count = first_marker(behind);
        assert forall|i: int| 0 <= i < count implies !crate::wire::is_marker(#[trigger] all[i]) by {
            assert(all[i] == behind[i]);
        }
        lemma_find_from_marker(all, count, table, accept);
        lemma_find_from_marker(all, first_marker(all), table, accept);
        assert(all.skip(count as int) =~= rest + more);
        if !accept(front.take(len as int)) {
            law_nothing_behind_a_message_is_lost(rest, more, table, accept);
        }
    }
}

/// Every frame is passed on.
pub open spec fn every_frame() -> Accept {
    |frame: Seq<u8>| true
}

/// The next frame in `bytes`, in the order in which frames are decoded.
pub open spec fn next_frame(bytes: Seq<u8>, table: ExtraTable) -> Found {
    find_message(bytes, table, every_frame())
}

/// What is left where no frame is found holds none either.
pub proof fn lemma_next_none(bytes: Seq<u8>, table: ExtraTable)
    requires
        next_frame(bytes, table).frame is None,
    ensures
        next_frame(next_frame(bytes, table).rest, table) == next_frame(bytes, table),
{
    let outcome = scan(bytes, MAX_FRAME_LEN as nat, table);
    lemma_find_scanned(bytes, table, every_frame());
    assert(next_frame(bytes, table).rest == bytes.skip(outcome.skipped as int)) by {
        reveal(find_message);
    }
}

/// What is passed on follows from the frames in their order.
pub proof fn lemma_find_by_frames(bytes: Seq<u8>, table: ExtraTable, accept: Accept)
    ensures
        ({
            let next = next_frame(bytes, table);
            find_message(bytes, table, accept) == match next.frame {
                None => next,
                Some(frame) => if accept(frame) {
                    next
                } else {
                    find_message(next.rest, table, accept)
                },
            }
        }),
{
    reveal(find_message);
}

/// Releasing `frames`, in their order, leads from `bytes` to where `rest` leads.
pub open spec fn walked(
    bytes: Seq<u8>,
    frames: Seq<Seq<u8>>,
    rest: Seq<u8>,
    table: ExtraTable,
) -> bool
    decreases frames.len(),
{
    let next = next_frame(bytes, table);
    if frames.len() == 0 {
        next == next_frame(rest, table)
    } else {
        &&& next.frame == Some(frames[0])
        &&& walked(next.rest, frames.drop_first(), rest, table)
    }
}

/// Where a walk begins and ends matters only for the frames found there.
pub proof fn lemma_walked_same(
    bytes: Seq<u8>,
    other_bytes: Seq<u8>,
    frames: Seq<Seq<u8>>,
    rest: Seq<u8>,
    other_rest: Seq<u8>,
    table: ExtraTable,
)
    requires
        walked(bytes, frames, rest, table),
        next_frame(bytes, table) == next_frame(other_bytes, table),
        next_frame(rest, table) == next_frame(other_rest, table),
    ensures
        walked(other_bytes, frames, other_rest, table),
    decreases frames.len(),
{
    if frames.len() > 0 {
        let next = next_frame(bytes, table).rest;
        lemma_walked_same(next, next, frames.drop_first(), rest, other_rest, table);
    }
}

/// Two walks, one after the other.
pub proof fn lemma_walked_further(
    bytes: Seq<u8>,
    first: Seq<Seq<u8>>,
    middle: Seq<u8>,
    second: Seq<Seq<u8>>,
    rest: Seq<u8>,
    table: ExtraTable,
)
    requires
        walked(bytes, first, middle, table),
        walked(middle, second, rest, table),
    ensures
        walked(bytes, first + second, rest, table),
    decreases first.len(),
{
    if first.len() == 0 {
        assert(first + second =~= second);
        lemma_walked_same(middle, bytes, second, rest, rest, table);
    } else {
        let next = next_frame(bytes, table).rest;
        lemma_walked_further(next, first.drop_first(), middle, second, rest, table);
        assert((first + second).drop_first() =~= first.drop_first() + second);
    }
}

/// A walk to where no frame is left goes on when more bytes arrive.
pub proof fn lemma_walked_append(
    bytes: Seq<u8>,
    frames: Seq<Seq<u8>>,
    rest: Seq<u8>,
    more: Seq<u8>,
    table: ExtraTable,
)
    requires
        walked(bytes, frames, rest, table),
        next_frame(rest, table) == (Found { frame: None, rest }),
    ensures
        walked(bytes + more, frames, rest + more, table),
    decreases frames.len(),
{
    if frames.len() == 0 {
        lemma_find_append(bytes, more, table, every_frame());
    } else {
        let next = next_frame(bytes, table).rest;
        let later = next_frame(bytes + more, table).rest;
        lemma_walked_append(next, frames.drop_first(), rest, more, table);
        law_nothing_behind_a_message_is_lost(bytes, more, table, every_frame());
        lemma_walked_same(
            next + more,
            later,
            frames.drop_first(),
            rest + more,
            rest + more,
            table,
        );
    }
}

/// Frames that are not passed on do not matter for what is.
pub proof fn lemma_walked_find(
    bytes: Seq<u8>,
    frames: Seq<Seq<u8>>,
    rest: Seq<u8>,
    table: ExtraTable,
    accept: Accept,
)
    requires
        walked(bytes, frames, rest, table),
        forall|i: int| 0 <= i < frames.len() ==> !accept(#[trigger] frames[i]),
    ensures
        find_message(bytes, table, accept) == find_message(rest, table, accept),
    decreases frames.len(),
{
    lemma_find_by_frames(bytes, table, accept);
    if frames.len() == 0 {
        lemma_find_by_frames(rest, table, accept);
    } else {
        assert(!accept(frames[0]));
        let later = frames.drop_first();
        assert forall|i: int| 0 <= i < later.len() implies !accept(#[trigger] later[i]) by {
            assert(later[i] == frames[i + 1]);
        }
        lemma_walked_find(next_frame(bytes, table).rest, later, rest, table, accept);
    }
}

/// Finding a message leaves fewer bytes.
pub proof fn lemma_find_shrinks(bytes: Seq<u8>, table: ExtraTable, accept: Accept)
    ensures
        find_message(bytes, table, accept).rest.len() <= bytes.len(),
        find_message(bytes, table, accept).frame is Some ==> find_message(
            bytes,
            table,
            accept,
        ).rest.len() < bytes.len(),
    decreases bytes.len(),
{
    reveal(find_message);
    let outcome = scan(bytes, MAX_FRAME_LEN as nat, table);
    let front = bytes.skip(outcome.skipped as int);
    lemma_scan_stops(bytes, MAX_FRAME_LEN as nat, table);
    lemma_release(bytes, table);
    if let Some(len) = outcome.frame {
        lemma_find_shrinks(from_marker(front.skip(len as int)), table, accept);
    }
}

/// The frames in `bytes` that are passed on, in their order.
pub open spec fn messages(bytes: Seq<u8>, table: ExtraTable, accept: Accept) -> Seq<Seq<u8>>
    decreases bytes.len(),
{
    let found = find_message(bytes, table, accept);
    match found.frame {
        None => Seq::empty(),
        Some(frame) => {
            proof {
                lemma_find_shrinks(bytes, table, accept);
            }
            seq![frame] + messages(found.rest, table, accept)
        },
    }
}

/// The messages depend only on which one comes first and what is left behind it.
pub proof fn lemma_messages_same(
    bytes: Seq<u8>,
    other: Seq<u8>,
    table: ExtraTable,
    accept: Accept,
)
    requires
        find_message(bytes, table, accept) == find_message(other, table, accept),
    ensures
        messages(bytes, table, accept) == messages(other, table, accept),
{
}

/// Two places that lead to the same next frame lead to the same frames, whatever arrives
/// behind them.
proof fn lemma_same_frames_behind(
    bytes: Seq<u8>,
    other: Seq<u8>,
    more: Seq<u8>,
    table: ExtraTable,
)
    requires
        next_frame(bytes, table) == next_frame(other, table),
    ensures
        messages(bytes + more, table, every_frame()) == messages(
            other + more,
            table,
            every_frame(),
        ),
{
    let every = every_frame();
    if next_frame(bytes, table).frame is None {
        lemma_find_append(bytes, more, table, every);
        lemma_find_append(other, more, table, every);
    } else {
        let rest = next_frame(bytes, table).rest + more;
        law_nothing_behind_a_message_is_lost(bytes, more, table, every);
        law_nothing_behind_a_message_is_lost(other, more, table, every);
        lemma_messages_same(next_frame(bytes + more, table).rest, rest, table, every);
        lemma_messages_same(next_frame(other + more, table).rest, rest, table, every);
    }
}

/// The frames of a walk come first, whatever arrives behind it.
pub proof fn lemma_walked_messages(
    bytes: Seq<u8>,
    frames: Seq<Seq<u8>>,
    rest: Seq<u8>,
    more: Seq<u8>,
    table: ExtraTable,
)
    requires
        walked(bytes, frames, rest, table),
    ensures
        messages(bytes + more, table, every_frame()) == frames + messages(
            rest + more,
            table,
            every_frame(),
        ),
    decreases frames.len(),
{
    let every = every_frame();
    let behind = messages(rest + more, table, every);
    if frames.len() == 0 {
        lemma_same_frames_behind(bytes, rest, more, table);
        assert(frames + behind =~= behind);
    } else {
        let next = next_frame(bytes, table).rest;
        let later = frames.drop_first();
        lemma_walked_messages(next, later, rest, more, table);
        law_nothing_behind_a_message_is_lost(bytes, more, table, every);
        lemma_messages_same(next_frame(bytes + more, table).rest, next + more, table, every);
        assert(frames + behind =~= seq![frames[0]] + (later + behind));
    }
}

} // verus!
