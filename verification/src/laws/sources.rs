//! What is read from sources and written to sinks.
use vstd::prelude::*;

use super::streaming::ahead;
use crate::async_reader::AsyncMavlinkReader;
use crate::embedded::{Read, ReadEvent, SliceReader, Write};
use crate::error::{IoError, MessageReadError, MessageWriteError};
use crate::message::{MavHeader, Message, ReadVersion};
use crate::reader::stream::{law_slice_is_the_stream, streams};
use crate::reader::{new_events, MavlinkReader};

verus! {

/// A new reader over bytes in memory has exactly these bytes ahead of it.
pub proof fn law_new_reader_has_everything_ahead<'a>(
    bytes: &'a [u8],
    source: SliceReader<'a>,
    reader: MavlinkReader<SliceReader<'a>>,
)
    requires
        bytes@.len() < u64::MAX,
        call_ensures(SliceReader::<'a>::new, (bytes,), source),
        call_ensures(MavlinkReader::<SliceReader<'a>>::new, (source,), reader),
    ensures
        reader.wf(),
        streams(reader.source()),
        ahead(reader) == bytes@,
{
    law_slice_is_the_stream(reader, bytes@);
}

/// A source gives back what it was wrapped with.
pub proof fn law_wrapped_source_is_given_back<R>(
    source: R,
    reader: MavlinkReader<R>,
    asynchronous: AsyncMavlinkReader<R>,
    inner: R,
    other: R,
)
    requires
        call_ensures(MavlinkReader::<R>::new, (source,), reader),
        call_ensures(MavlinkReader::<R>::into_inner, (reader,), inner),
        call_ensures(AsyncMavlinkReader::<R>::new, (source,), asynchronous),
        call_ensures(AsyncMavlinkReader::<R>::into_inner, (asynchronous,), other),
    ensures
        inner == source,
        other == source,
{
}

/// Bytes in memory are delivered in their order, as many as fit.
pub proof fn law_bytes_in_memory_are_delivered_in_order<'a>(
    source: &mut SliceReader<'a>,
    buf: &mut [u8],
    result: Result<usize, MessageReadError>,
)
    requires
        call_ensures(<SliceReader<'a> as Read>::read, (source, buf), result),
    ensures
        result matches Ok(count) && {
            &&& count == old(buf)@.len() || count == old(source).remaining().len()
            &&& count <= old(buf)@.len() && count <= old(source).remaining().len()
            &&& old(source).remaining() == final(buf)@.take(count as int)
                + final(source).remaining()
            &&& final(buf)@.skip(count as int) == old(buf)@.skip(count as int)
        },
{
    let count = result->Ok_0 as int;
    let before = old(source).remaining();
    assert(final(buf)@.take(count) =~= before.take(count));
    assert(before =~= before.take(count) + before.skip(count));
    assert(final(buf)@.skip(count) =~= old(buf)@.skip(count));
}

/// Bytes that are written stand behind those that were written before.
pub proof fn law_written_bytes_are_appended(
    sink: &mut Vec<u8>,
    buf: &[u8],
    result: Result<(), MessageWriteError>,
)
    requires
        call_ensures(<Vec<u8> as Write>::write_all, (sink, buf), result),
    ensures
        result is Ok,
        final(sink)@ == old(sink)@ + buf@,
{
}

/// A read that ends with an I/O error has it from the last answer of its source: the
/// failure that was reported, or the end where some bytes were asked for and none came.
/// The source is never asked for nothing.
pub proof fn law_read_error_comes_from_the_source<R: Read, M: Message>(
    reader: &mut MavlinkReader<R>,
    version: ReadVersion,
    result: Result<(MavHeader, M), MessageReadError>,
)
    requires
        old(reader).wf(),
        call_ensures(MavlinkReader::<R>::read_message::<M>, (reader, version), result),
    ensures
        ({
            let earlier = old(reader).source().history();
            let all = final(reader).source().history();
            &&& earlier.len() <= all.len()
            &&& all.take(earlier.len() as int) == earlier
            &&& forall|i: int|
                earlier.len() <= i < all.len() ==> match #[trigger] all[i] {
                    ReadEvent::Delivered { asked, .. } => asked > 0,
                    ReadEvent::Failed { asked, .. } => asked > 0,
                }
            &&& result matches Err(MessageReadError::Io(error)) ==> if error is ReadLimit {
                all.len() == earlier.len() + u64::MAX
            } else {
                &&& all.len() > earlier.len()
                &&& match all.last() {
                    ReadEvent::Failed { reason, .. } => error == reason,
                    ReadEvent::Delivered { bytes, .. } => bytes.len() == 0
                        && error is UnexpectedEof,
                }
            }
        }),
{
    let earlier = old(reader).source().history();
    let all = final(reader).source().history();
    let events = new_events(earlier, all);
    assert(all.take(earlier.len() as int) =~= earlier);
    assert forall|i: int| earlier.len() <= i < all.len() implies match #[trigger] all[i] {
        ReadEvent::Delivered { asked, .. } => asked > 0,
        ReadEvent::Failed { asked, .. } => asked > 0,
    } by {
        assert(events[i - earlier.len()] == all[i]);
        assert(0 < events[i - earlier.len()].asked());
    }
    if events.len() > 0 {
        assert(events.last() == all.last());
    }
}

/// An asynchronous source that delivers nothing has ended, and nothing changes; one that
/// delivers something has not.
pub proof fn law_empty_delivery_ends_the_source<R, M: Message>(
    reader: &mut AsyncMavlinkReader<R>,
    count: usize,
    result: Result<(), MessageReadError>,
)
    requires
        old(reader).idle(),
        call_ensures(AsyncMavlinkReader::<R>::finish_read::<M>, (reader, count), result),
    ensures
        count == 0 ==> result == Err::<(), MessageReadError>(
            MessageReadError::Io(IoError::UnexpectedEof),
        ) && *final(reader) == *old(reader),
        count > 0 ==> result is Ok,
{
}

} // verus!
