//! Blocking MAVLink stream reader.
//!
//! [`MavlinkReader`] combines a [`Read`] implementation with the protocol decoder.
//! Buffering is an implementation detail: callers ask for complete MAVLink messages
//! rather than manually peeking and consuming bytes.
use vstd::prelude::*;

pub mod decode;
pub mod laws;
pub mod model;
pub mod stream;

use self::decode::{
    answered, comes_to, commit_for, confirmed, dialect_accepts, dialect_agrees, finds,
    lemma_comes_begin, lemma_comes_more, lemma_finds_further, may_deliver, message_of, polled,
    raw_message_of, try_decode_message, try_decode_raw,
};
use crate::embedded::{begins, delivered, Read, ReadEvent};
use crate::error::{IoError, MessageReadError};
use crate::frame_decoder::model::{scan, ExtraTable};
use crate::frame_decoder::{FrameDecoder, MAX_FRAME_LEN};
use crate::message::{MAVLinkMessageRaw, MavHeader, Message, ReadVersion};
use crate::signing::{NoSigning, SignatureVerifier, SigningData};

verus! {

/// Allocation-free blocking MAVLink reader with fixed maximum-frame read-ahead.
pub struct MavlinkReader<R> {
    decoder: FrameDecoder<MAX_FRAME_LEN>,
    reader: R,
}

impl<R> MavlinkReader<R> {
    /// The underlying input source.
    pub closed spec fn source(&self) -> R {
        self.reader
    }

    /// Bytes that were read and belong to no message yet.
    pub closed spec fn pending(&self) -> Seq<u8> {
        self.decoder@.pending
    }

    /// No frame is left half delivered.
    pub closed spec fn wf(&self) -> bool {
        &&& self.decoder.wf()
        &&& self.decoder@.frame is None
        &&& self.decoder@.pending.len() < MAX_FRAME_LEN
    }

    /// Wrap an input source in a MAVLink-aware reader.
    #[must_use]
    pub fn new(reader: R) -> (wrapped: Self)
        ensures
            wrapped.wf(),
            wrapped.pending() == Seq::<u8>::empty(),
            wrapped.source() == reader,
    {
        Self { decoder: FrameDecoder::new(), reader }
    }

    /// Borrow the underlying input source.
    #[must_use]
    pub fn get_ref(&self) -> (reader: &R)
        ensures
            *reader == self.source(),
    {
        &self.reader
    }

    /// Mutably borrow the underlying input source.
    ///
    /// Reading from it directly bypasses bytes already buffered by this reader and
    /// can therefore cause data loss.
    #[must_use]
    pub fn get_mut(&mut self) -> (reader: &mut R)
        ensures
            *reader == old(self).source(),
            final(self).source() == *final(reader),
            final(self).pending() == old(self).pending(),
            old(self).wf() ==> final(self).wf(),
    {
        &mut self.reader
    }

    /// Return the input source, discarding any prefetched bytes.
    #[must_use]
    pub fn into_inner(self) -> (reader: R)
        ensures
            reader == self.source(),
    {
        self.reader
    }
}

impl<R: Read> MavlinkReader<R> {
    /// Read and parse the next checksum-valid message matching `version`.
    pub fn read_message<M: Message>(&mut self, version: ReadVersion) -> (result: Result<
        (MavHeader, M),
        MessageReadError,
    >)
        requires
            old(self).wf(),
        ensures
            final(self).wf(),
            reads_next::<R, M, NoSigning, (MavHeader, M)>(
                *old(self),
                *final(self),
                version,
                None,
                message_of::<M>(),
                result,
            ),
    {
        self.read_message_inner::<M, NoSigning>(version, None)
    }

    /// Read the next checksum-valid raw message matching `version`.
    pub fn read_raw_message<M: Message>(&mut self, version: ReadVersion) -> (result: Result<
        MAVLinkMessageRaw,
        MessageReadError,
    >)
        requires
            old(self).wf(),
        ensures
            final(self).wf(),
            reads_next::<R, M, NoSigning, MAVLinkMessageRaw>(
                *old(self),
                *final(self),
                version,
                None,
                raw_message_of(),
                result,
            ),
    {
        self.read_raw_message_inner::<M, NoSigning>(version, None)
    }

    /// Read, verify, and parse the next message matching `version`.
    pub fn read_message_signed<M: Message, V: SignatureVerifier>(
        &mut self,
        version: ReadVersion,
        signing_data: &SigningData<V>,
    ) -> (result: Result<(MavHeader, M), MessageReadError>)
        requires
            old(self).wf(),
        ensures
            final(self).wf(),
            reads_next::<R, M, V, (MavHeader, M)>(
                *old(self),
                *final(self),
                version,
                Some(signing_data),
                message_of::<M>(),
                result,
            ),
    {
        self.read_message_inner::<M, V>(version, Some(signing_data))
    }

    /// Read and verify the next raw message matching `version`.
    pub fn read_raw_message_signed<M: Message, V: SignatureVerifier>(
        &mut self,
        version: ReadVersion,
        signing_data: &SigningData<V>,
    ) -> (result: Result<MAVLinkMessageRaw, MessageReadError>)
        requires
            old(self).wf(),
        ensures
            final(self).wf(),
            reads_next::<R, M, V, MAVLinkMessageRaw>(
                *old(self),
                *final(self),
                version,
                Some(signing_data),
                raw_message_of(),
                result,
            ),
    {
        self.read_raw_message_inner::<M, V>(version, Some(signing_data))
    }

    /// Fetches more bytes with one read: whatever the source delivers follows what is
    /// retained.
    fn read_more<M: Message>(&mut self) -> (result: Result<(), MessageReadError>)
        requires
            old(self).wf(),
        ensures
            final(self).decoder.wf(),
            one_read(old(self).reader, final(self).reader),
            ({
                let event = final(self).reader.history().last();
                match result {
                    Ok(_) => {
                        let arrived = old(self).decoder@.pending + event.bytes();
                        &&& event.progresses()
                        &&& confirmed::<M>(final(self).decoder@)
                        &&& final(self).decoder@.frame matches Some(len) ==> dialect_accepts::<M>(
                            final(self).decoder@.pending.take(len as int),
                        )
                        &&& forall|table: ExtraTable| #[trigger]
                            dialect_agrees::<M>(table) ==> final(self).decoder@.pending
                                == arrived.skip(
                                scan(arrived, MAX_FRAME_LEN as nat, table).skipped as int,
                            )
                    },
                    Err(error) => {
                        &&& stops_with(event, error)
                        &&& event.bytes().len() == 0
                        &&& final(self).decoder@.pending == old(self).decoder@.pending
                        &&& final(self).wf()
                    },
                }
            }),
    {
        let destination = self.decoder.spare_capacity_mut();
        assert(0 < destination@.len() <= MAX_FRAME_LEN);
        let count = match self.reader.read(destination) {
            Ok(count) => count,
            Err(error) => {
                assert(self.reader.history().drop_last() =~= old(self).reader.history());
                return Err(error);
            },
        };
        assert(self.reader.history().drop_last() =~= old(self).reader.history());
        if count == 0 {
            return Err(MessageReadError::eof());
        }
        let committed = commit_for::<M>(&mut self.decoder, count);
        match committed {
            Ok(_) => Ok(()),
            Err(_) => {
                assert(false);
                Err(MessageReadError::eof())
            },
        }
    }

    pub(crate) fn read_message_inner<M: Message, V: SignatureVerifier>(
        &mut self,
        version: ReadVersion,
        signing_data: Option<&SigningData<V>>,
    ) -> (result: Result<(MavHeader, M), MessageReadError>)
        requires
            old(self).wf(),
        ensures
            final(self).wf(),
            reads_next::<R, M, V, (MavHeader, M)>(
                *old(self),
                *final(self),
                version,
                signing_data,
                message_of::<M>(),
                result,
            ),
    {
        let ghost start = self.pending();
        let ghost source = self.reader;
        let ghost mut events: Seq<ReadEvent> = Seq::empty();
        let mut reads: u64 = 0;
        proof {
            assert(source.history() + events =~= source.history());
            assert(start + delivered(events) =~= start);
            lemma_comes_begin::<M, V>(start, version, signing_data);
        }
        loop
            invariant
                start == old(self).pending(),
                source == old(self).source(),
                self.decoder.wf(),
                confirmed::<M>(self.decoder@),
                self.decoder@.frame matches Some(len) ==> dialect_accepts::<M>(
                    self.decoder@.pending.take(len as int),
                ),
                reads == events.len(),
                all_progress(events),
                asked_rightly(source, self.reader, events),
                comes_to::<M, V>(
                    start + delivered(events),
                    version,
                    signing_data,
                    self.decoder@.pending,
                ),
                waited::<M, V>(start, events, version, signing_data),
            decreases u64::MAX - reads,
        {
            let ghost arrived = start + delivered(events);
            let ghost before = self.decoder@.pending;
            let outcome = try_decode_message::<M, V>(&mut self.decoder, version, signing_data);
            let ghost left = self.decoder@.pending;
            proof {
                lemma_polled_further::<M, V, (MavHeader, M)>(
                    arrived,
                    before,
                    left,
                    version,
                    signing_data,
                    message_of::<M>(),
                    outcome,
                );
                lemma_events(source, self.reader, events);
            }
            if let Some(outcome) = outcome {
                return outcome;
            }
            if reads == u64::MAX {
                return Err(MessageReadError::Io(IoError::ReadLimit));
            }
            let ghost asked = self.reader;
            let more = self.read_more::<M>();
            let ghost event = self.reader.history().last();
            let ghost longer = events.push(event);
            proof {
                lemma_another_read(source, asked, self.reader, events);
                lemma_events(source, self.reader, longer);
                assert(longer.drop_last() =~= events);
                assert(start + delivered(longer) =~= arrived + event.bytes());
            }
            match more {
                Ok(_) => {},
                Err(error) => {
                    assert(arrived + event.bytes() =~= arrived);
                    return Err(error);
                },
            }
            reads += 1;
            proof {
                lemma_comes_more::<M, V>(
                    arrived,
                    version,
                    signing_data,
                    left,
                    event.bytes(),
                    self.decoder@.pending,
                );
                events = longer;
            }
        }
    }

    pub(crate) fn read_raw_message_inner<M: Message, V: SignatureVerifier>(
        &mut self,
        version: ReadVersion,
        signing_data: Option<&SigningData<V>>,
    ) -> (result: Result<MAVLinkMessageRaw, MessageReadError>)
        requires
            old(self).wf(),
        ensures
            final(self).wf(),
            reads_next::<R, M, V, MAVLinkMessageRaw>(
                *old(self),
                *final(self),
                version,
                signing_data,
                raw_message_of(),
                result,
            ),
    {
        let ghost start = self.pending();
        let ghost source = self.reader;
        let ghost mut events: Seq<ReadEvent> = Seq::empty();
        let mut reads: u64 = 0;
        proof {
            assert(source.history() + events =~= source.history());
            assert(start + delivered(events) =~= start);
            lemma_comes_begin::<M, V>(start, version, signing_data);
        }
        loop
            invariant
                start == old(self).pending(),
                source == old(self).source(),
                self.decoder.wf(),
                confirmed::<M>(self.decoder@),
                self.decoder@.frame matches Some(len) ==> dialect_accepts::<M>(
                    self.decoder@.pending.take(len as int),
                ),
                reads == events.len(),
                all_progress(events),
                asked_rightly(source, self.reader, events),
                comes_to::<M, V>(
                    start + delivered(events),
                    version,
                    signing_data,
                    self.decoder@.pending,
                ),
                waited::<M, V>(start, events, version, signing_data),
            decreases u64::MAX - reads,
        {
            let ghost arrived = start + delivered(events);
            let ghost before = self.decoder@.pending;
            let outcome = try_decode_raw::<M, V>(&mut self.decoder, version, signing_data);
            let ghost left = self.decoder@.pending;
            proof {
                lemma_polled_further::<M, V, MAVLinkMessageRaw>(
                    arrived,
                    before,
                    left,
                    version,
                    signing_data,
                    raw_message_of(),
                    outcome,
                );
                lemma_events(source, self.reader, events);
            }
            if let Some(outcome) = outcome {
                return outcome;
            }
            if reads == u64::MAX {
                return Err(MessageReadError::Io(IoError::ReadLimit));
            }
            let ghost asked = self.reader;
            let more = self.read_more::<M>();
            let ghost event = self.reader.history().last();
            let ghost longer = events.push(event);
            proof {
                lemma_another_read(source, asked, self.reader, events);
                lemma_events(source, self.reader, longer);
                assert(longer.drop_last() =~= events);
                assert(start + delivered(longer) =~= arrived + event.bytes());
            }
            match more {
                Ok(_) => {},
                Err(error) => {
                    assert(arrived + event.bytes() =~= arrived);
                    return Err(error);
                },
            }
            reads += 1;
            proof {
                lemma_comes_more::<M, V>(
                    arrived,
                    version,
                    signing_data,
                    left,
                    event.bytes(),
                    self.decoder@.pending,
                );
                events = longer;
            }
        }
    }
}

/// Every read delivered some bytes.
pub open spec fn all_progress(events: Seq<ReadEvent>) -> bool {
    forall|i: int| 0 <= i < events.len() ==> #[trigger] events[i].progresses()
}

/// What a longer history holds behind a shorter one.
pub open spec fn new_events(before: Seq<ReadEvent>, after: Seq<ReadEvent>) -> Seq<ReadEvent> {
    after.skip(before.len() as int)
}

/// The last read stopped the reading with this error.
pub open spec fn stops_with(event: ReadEvent, error: MessageReadError) -> bool {
    match event {
        ReadEvent::Failed { reason, .. } => reason !is ReadLimit && error == MessageReadError::Io(
            reason,
        ),
        ReadEvent::Delivered { .. } => event.ends() && error == MessageReadError::Io(
            IoError::UnexpectedEof,
        ),
    }
}

/// The source was read once, for at least one byte and at most a whole buffer.
spec fn one_read<R: Read>(before: R, after: R) -> bool {
    let event = after.history().last();
    &&& after.history().len() > 0
    &&& after.history().drop_last() == before.history()
    &&& 0 < event.asked() <= MAX_FRAME_LEN
    &&& after.stream() == before.stream()
    &&& before.stream() matches Some(stream) ==> keeps_to(stream, after.history())
}

/// The last read kept to the stream of the source: it did not fail, what was delivered
/// is the beginning of the stream, and where nothing was left to deliver it is all of
/// it.
pub open spec fn keeps_to(stream: Seq<u8>, history: Seq<ReadEvent>) -> bool {
    &&& history.last() is Delivered
    &&& begins(stream, delivered(history))
    &&& history.last().ends() ==> delivered(history) == stream
}

/// Between these two states of a source it was read as `events` say, each time for at
/// least one byte and at most a whole buffer.
pub open spec fn asked_rightly<R: Read>(before: R, after: R, events: Seq<ReadEvent>) -> bool {
    &&& after.history() == before.history() + events
    &&& forall|i: int| 0 <= i < events.len() ==> 0 < #[trigger] events[i].asked() <= MAX_FRAME_LEN
    &&& after.stream() == before.stream()
    &&& events.len() == 0 ==> after == before
    &&& events.len() > 0 ==> (before.stream() matches Some(stream) ==> keeps_to(
        stream,
        after.history(),
    ))
}

proof fn lemma_events<R: Read>(before: R, after: R, events: Seq<ReadEvent>)
    requires
        asked_rightly(before, after, events),
    ensures
        new_events(before.history(), after.history()) == events,
{
    assert(new_events(before.history(), after.history()) =~= events);
}

proof fn lemma_another_read<R: Read>(
    before: R,
    middle: R,
    after: R,
    events: Seq<ReadEvent>,
)
    requires
        asked_rightly(before, middle, events),
        one_read(middle, after),
    ensures
        asked_rightly(before, after, events.push(after.history().last())),
{
    let event = after.history().last();
    let longer = events.push(event);
    assert(after.history() =~= middle.history().push(event));
    assert(after.history() =~= before.history() + longer);
    assert forall|i: int| 0 <= i < longer.len() implies 0 < #[trigger] longer[i].asked()
        <= MAX_FRAME_LEN by {
        if i < events.len() {
            assert(longer[i] == events[i]);
        }
    }
}

/// A poll finds what it finds from where the reader may come to.
pub proof fn lemma_polled_further<M: Message, V: SignatureVerifier, T>(
    arrived: Seq<u8>,
    before: Seq<u8>,
    left: Seq<u8>,
    version: ReadVersion,
    signing_data: Option<&SigningData<V>>,
    carried_by: spec_fn(Seq<u8>, Result<T, MessageReadError>) -> bool,
    outcome: Option<Result<T, MessageReadError>>,
)
    requires
        comes_to::<M, V>(arrived, version, signing_data, before),
        polled::<M, V, T>(before, left, version, signing_data, carried_by, outcome),
    ensures
        polled::<M, V, T>(arrived, left, version, signing_data, carried_by, outcome),
{
    match outcome {
        None => {
            lemma_finds_further::<M, V>(arrived, version, signing_data, before, None, left);
        },
        Some(result) => {
            let frame = choose|frame: Seq<u8>| #[trigger]
                may_deliver::<M, V>(frame, version, signing_data) && carried_by(frame, result)
                    && finds::<M, V>(before, version, signing_data, Some(frame), left);
            lemma_finds_further::<M, V>(
                arrived,
                version,
                signing_data,
                before,
                Some(frame),
                left,
            );
        },
    }
}

/// Before the last of these reads no message was complete.
pub open spec fn waited<M: Message, V: SignatureVerifier>(
    pending: Seq<u8>,
    events: Seq<ReadEvent>,
    version: ReadVersion,
    signing_data: Option<&SigningData<V>>,
) -> bool {
    events.len() > 0 ==> exists|left: Seq<u8>| #[trigger]
        finds::<M, V>(
            pending + delivered(events.drop_last()),
            version,
            signing_data,
            None,
            left,
        )
}

/// What reading the next message comes to.
///
/// The source is read only while no message is complete, each time for at least one
/// byte, and each of these reads but the last delivers some. The message is the first
/// that the reader passes on in the bytes retained before followed by those delivered.
/// Where there is none, the last read has failed or found the end of the source, or the
/// source was read as often as can be counted.
pub open spec fn reads_next<R: Read, M: Message, V: SignatureVerifier, T>(
    before: MavlinkReader<R>,
    after: MavlinkReader<R>,
    version: ReadVersion,
    signing_data: Option<&SigningData<V>>,
    carried_by: spec_fn(Seq<u8>, Result<T, MessageReadError>) -> bool,
    result: Result<T, MessageReadError>,
) -> bool {
    let events = new_events(before.source().history(), after.source().history());
    &&& asked_rightly(before.source(), after.source(), events)
    &&& waited::<M, V>(before.pending(), events, version, signing_data)
    &&& answered::<M, V, T>(
        before.pending() + delivered(events),
        after.pending(),
        version,
        signing_data,
        carried_by,
        result,
    )
    &&& match result {
        Err(MessageReadError::Io(IoError::ReadLimit)) => {
            &&& all_progress(events)
            &&& events.len() == u64::MAX
        },
        Err(MessageReadError::Io(error)) => {
            &&& events.len() > 0
            &&& all_progress(events.drop_last())
            &&& stops_with(events.last(), MessageReadError::Io(error))
        },
        _ => all_progress(events),
    }
}

} // verus!
