//! Byte sources and sinks.
use vstd::prelude::*;

use crate::error::{IoError, MessageReadError, MessageWriteError};

verus! {

/// What one read from a source came to.
pub enum ReadEvent {
    /// The source was asked for up to `asked` bytes and delivered these.
    Delivered { asked: nat, bytes: Seq<u8> },
    /// The source was asked for up to `asked` bytes and failed.
    Failed { asked: nat, reason: IoError },
}

impl ReadEvent {
    /// How many bytes the source was asked for.
    pub open spec fn asked(self) -> nat {
        match self {
            ReadEvent::Delivered { asked, .. } => asked,
            ReadEvent::Failed { asked, .. } => asked,
        }
    }

    /// The bytes that were delivered.
    pub open spec fn bytes(self) -> Seq<u8> {
        match self {
            ReadEvent::Delivered { bytes, .. } => bytes,
            ReadEvent::Failed { .. } => Seq::empty(),
        }
    }

    /// Some bytes were delivered.
    pub open spec fn progresses(self) -> bool {
        self is Delivered && self.bytes().len() > 0
    }

    /// The source had nothing left: it was asked for some bytes and delivered none.
    pub open spec fn ends(self) -> bool {
        self is Delivered && self.asked() > 0 && self.bytes().len() == 0
    }
}

/// All bytes that a sequence of reads delivered.
pub open spec fn delivered(events: Seq<ReadEvent>) -> Seq<u8>
    decreases events.len(),
{
    if events.len() == 0 {
        Seq::empty()
    } else {
        delivered(events.drop_last()) + events.last().bytes()
    }
}

/// What two sequences of reads delivered, one after the other.
pub proof fn lemma_delivered(first: Seq<ReadEvent>, second: Seq<ReadEvent>)
    ensures
        delivered(first + second) == delivered(first) + delivered(second),
    decreases second.len(),
{
    if second.len() == 0 {
        assert(first + second =~= first);
        assert(delivered(first) + delivered(second) =~= delivered(first));
    } else {
        lemma_delivered(first, second.drop_last());
        assert((first + second).drop_last() =~= first + second.drop_last());
        assert(delivered(first + second) =~= delivered(first) + delivered(second));
    }
}

/// `stream` begins with `bytes`.
pub open spec fn begins(stream: Seq<u8>, bytes: Seq<u8>) -> bool {
    &&& bytes.len() <= stream.len()
    &&& stream.take(bytes.len() as int) == bytes
}

/// A source of bytes.
pub trait Read {
    /// What every read from this source came to, in their order.
    ///
    /// Every source must define this: none keeps the contract of [`Read::read`] with
    /// the default, which only spares sources outside of verification, of which
    /// nothing is proved, from naming ghost types.
    closed spec fn history(&self) -> Seq<ReadEvent> {
        arbitrary()
    }

    /// Everything that this source has delivered and will ever deliver, where that is
    /// known. Such a source does not fail.
    open spec fn stream(&self) -> Option<Seq<u8>> {
        None
    }

    /// Read some bytes without waiting to fill the entire destination.
    ///
    /// Returns how many bytes at the front of `buf` are new; none means that the
    /// source has ended.
    fn read(&mut self, buf: &mut [u8]) -> (result: Result<usize, MessageReadError>)
        ensures
            final(buf)@.len() == old(buf)@.len(),
            match result {
                Ok(count) => {
                    &&& count <= old(buf)@.len()
                    &&& final(self).history() == old(self).history().push(
                        ReadEvent::Delivered {
                            asked: old(buf)@.len(),
                            bytes: final(buf)@.take(count as int),
                        },
                    )
                },
                Err(error) => {
                    &&& error matches MessageReadError::Io(reason)
                    &&& reason !is ReadLimit
                    &&& final(self).history() == old(self).history().push(
                        ReadEvent::Failed { asked: old(buf)@.len(), reason },
                    )
                },
            },
            final(self).stream() == old(self).stream(),
            old(self).stream() matches Some(stream) ==> {
                let sent = delivered(final(self).history());
                &&& result is Ok
                &&& begins(stream, sent)
                &&& final(self).history().last().ends() ==> sent == stream
            },
    ;
}

/// A sink for bytes.
pub trait Write {
    /// Everything that this sink has taken so far.
    ///
    /// A verified sink says what that is; any other sink may leave it open.
    closed spec fn taken(&self) -> Seq<u8> {
        arbitrary()
    }

    /// Write all of `buf`. Where that fails, some bytes at its front may have been
    /// written.
    fn write_all(&mut self, buf: &[u8]) -> (result: Result<(), MessageWriteError>)
        ensures
            match result {
                Ok(_) => final(self).taken() == old(self).taken() + buf@,
                Err(_) => exists|count: int|
                    0 <= count <= buf@.len() && #[trigger] (old(self).taken() + buf@.take(count))
                        == final(self).taken(),
            },
    ;
}

/// Reads bytes that are in memory already.
pub struct SliceReader<'a> {
    bytes: &'a [u8],
    position: usize,
    events: Ghost<Seq<ReadEvent>>,
}

impl<'a> SliceReader<'a> {
    /// Bytes that are left to deliver.
    pub closed spec fn remaining(&self) -> Seq<u8> {
        if self.position <= self.bytes@.len() {
            self.bytes@.skip(self.position as int)
        } else {
            Seq::empty()
        }
    }

    /// Reads `bytes` from their beginning.
    #[must_use]
    pub fn new(bytes: &'a [u8]) -> (reader: Self)
        ensures
            reader.remaining() == bytes@,
            reader.history() == Seq::<ReadEvent>::empty(),
            reader.stream() == Some(bytes@),
    {
        let reader = SliceReader { bytes, position: 0, events: Ghost(Seq::empty()) };
        assert(reader.remaining() =~= bytes@);
        assert(delivered(reader.history()) + reader.remaining() =~= bytes@);
        reader
    }
}

impl<'a> Read for SliceReader<'a> {
    closed spec fn history(&self) -> Seq<ReadEvent> {
        self.events@
    }

    open spec fn stream(&self) -> Option<Seq<u8>> {
        Some(delivered(self.history()) + self.remaining())
    }

    fn read(&mut self, buf: &mut [u8]) -> (result: Result<usize, MessageReadError>)
        ensures
            result is Ok,
            result->Ok_0 == if old(buf)@.len() < old(self).remaining().len() {
                old(buf)@.len()
            } else {
                old(self).remaining().len()
            },
            final(buf)@ == old(self).remaining().take(result->Ok_0 as int) + old(buf)@.skip(
                result->Ok_0 as int,
            ),
            final(self).remaining() == old(self).remaining().skip(result->Ok_0 as int),
    {
        let left: usize = if self.position < self.bytes.len() {
            self.bytes.len() - self.position
        } else {
            0
        };
        let count: usize = if buf.len() < left {
            buf.len()
        } else {
            left
        };
        let start: usize = self.position;
        let mut copied: usize = 0;
        while copied < count
            invariant
                copied <= count <= buf@.len(),
                buf@.len() == old(buf)@.len(),
                count > 0 ==> start + count <= self.bytes@.len() <= usize::MAX,
                forall|i: int| 0 <= i < copied ==> buf@[i] == self.bytes@[start + i],
                forall|i: int| copied <= i < buf@.len() ==> buf@[i] == old(buf)@[i],
            decreases count - copied,
        {
            buf[copied] = self.bytes[start + copied];
            copied += 1;
        }
        if count > 0 {
            self.position = start + count;
        }
        proof {
            let bytes = buf@.take(count as int);
            self.events@ = self.events@.push(ReadEvent::Delivered { asked: buf@.len(), bytes });
            let before = old(self).remaining();
            assert(buf@ =~= before.take(count as int) + old(buf)@.skip(count as int));
            assert(self.remaining() =~= before.skip(count as int));
            assert(self.history().drop_last() =~= old(self).history());
            let sent = delivered(self.history());
            assert(bytes =~= before.take(count as int));
            assert(sent + self.remaining() =~= delivered(old(self).history()) + before);
            assert((sent + self.remaining()).take(sent.len() as int) =~= sent);
            if count == 0 && buf@.len() > 0 {
                assert(sent + self.remaining() =~= sent);
            }
        }
        Ok(count)
    }
}

impl Write for Vec<u8> {
    open spec fn taken(&self) -> Seq<u8> {
        self@
    }

    fn write_all(&mut self, buf: &[u8]) -> (result: Result<(), MessageWriteError>)
        ensures
            result is Ok,
    {
        self.extend_from_slice(buf);
        assert(self@ =~= old(self)@ + buf@);
        Ok(())
    }
}

} // verus!
