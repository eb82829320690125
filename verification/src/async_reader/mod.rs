//! State of an asynchronous MAVLink stream reader.
//!
//! The same portable decoder is shared with [`crate::reader::MavlinkReader`]; only the
//! operation that fetches more bytes is asynchronous, and it stays with the caller: ask
//! for a message with [`AsyncMavlinkReader::poll_message`], and where there is none yet,
//! let the source fill [`AsyncMavlinkReader::read_parts`] and report the count to
//! [`AsyncMavlinkReader::finish_read`].
use vstd::prelude::*;

pub mod laws;

use crate::error::{IoError, MessageReadError};
use crate::frame_decoder::model::{scan, ExtraTable};
use crate::frame_decoder::{FrameDecoder, MAX_FRAME_LEN};
use crate::message::{MAVLinkMessageRaw, MavHeader, Message, ReadVersion};
use crate::reader::decode::{
    commit_for, confirmed, dialect_accepts, dialect_agrees, message_of, polled, raw_message_of,
    try_decode_message, try_decode_raw,
};
use crate::signing::{SignatureVerifier, SigningData};

verus! {

/// Allocation-free asynchronous MAVLink reader using the protocol's maximum frame size
/// as its fixed read-ahead capacity.
pub struct AsyncMavlinkReader<R> {
    decoder: FrameDecoder<MAX_FRAME_LEN>,
    reader: R,
}

impl<R> AsyncMavlinkReader<R> {
    /// The underlying input source.
    pub closed spec fn source(&self) -> R {
        self.reader
    }

    /// The decoder with what it retains.
    pub closed spec fn buffer(&self) -> FrameDecoder<MAX_FRAME_LEN> {
        self.decoder
    }

    /// Bytes that were read and belong to no message yet.
    pub open spec fn pending(&self) -> Seq<u8> {
        self.buffer()@.pending
    }

    /// The bytes that the source may fill.
    pub open spec fn spare(&self) -> Seq<u8> {
        self.buffer().spare()
    }

    /// Number of bytes that the source may fill.
    pub open spec fn room(&self) -> nat {
        self.buffer()@.room(MAX_FRAME_LEN as nat)
    }

    /// Everything retained has been looked at, and more bytes are needed.
    pub open spec fn idle(&self) -> bool {
        &&& self.buffer().wf()
        &&& self.buffer()@.frame is None
        &&& self.buffer()@.pending.len() < MAX_FRAME_LEN
    }

    /// What is retained may be looked at for messages of the dialect `M`.
    pub open spec fn ready_for<M: Message>(&self) -> bool {
        &&& self.buffer().wf()
        &&& confirmed::<M>(self.buffer()@)
        &&& self.buffer()@.frame matches Some(len) ==> dialect_accepts::<M>(
            self.buffer()@.pending.take(len as int),
        )
    }

    /// Wrap an asynchronous input source in a MAVLink-aware reader.
    #[must_use]
    pub fn new(reader: R) -> (wrapped: Self)
        ensures
            wrapped.idle(),
            wrapped.pending() == Seq::<u8>::empty(),
            wrapped.source() == reader,
    {
        Self { decoder: FrameDecoder::new(), reader }
    }

    /// Borrow the underlying input source.
    #[must_use]
    pub fn get_ref(&self) -> (reader: &R)
        ensures
            *reader == self.source(),
    {
        &self.reader
    }

    /// Mutably borrow the underlying input source.
    ///
    /// Reading from it directly bypasses bytes already buffered by this reader and
    /// can therefore cause data loss.
    #[must_use]
    pub fn get_mut(&mut self) -> (reader: &mut R)
        ensures
            *reader == old(self).source(),
            final(self).source() == *final(reader),
            final(self).buffer() == old(self).buffer(),
    {
        &mut self.reader
    }

    /// Return the input source, discarding any prefetched bytes.
    #[must_use]
    pub fn into_inner(self) -> (reader: R)
        ensures
            reader == self.source(),
    {
        self.reader
    }

    /// The next message of the dialect `M` matching `version` in what is retained, or
    /// `None` where more bytes are needed.
    pub fn poll_message<M: Message, V: SignatureVerifier>(
        &mut self,
        version: ReadVersion,
        signing_data: Option<&SigningData<V>>,
    ) -> (outcome: Option<Result<(MavHeader, M), MessageReadError>>)
        requires
            old(self).idle() || old(self).ready_for::<M>(),
        ensures
            final(self).idle(),
            final(self).source() == old(self).source(),
            polled::<M, V, (MavHeader, M)>(
                old(self).pending(),
                final(self).pending(),
                version,
                signing_data,
                message_of::<M>(),
                outcome,
            ),
    {
        try_decode_message::<M, V>(&mut self.decoder, version, signing_data)
    }

    /// The next raw message of the dialect `M` matching `version` in what is retained,
    /// or `None` where more bytes are needed.
    pub fn poll_raw_message<M: Message, V: SignatureVerifier>(
        &mut self,
        version: ReadVersion,
        signing_data: Option<&SigningData<V>>,
    ) -> (outcome: Option<Result<MAVLinkMessageRaw, MessageReadError>>)
        requires
            old(self).idle() || old(self).ready_for::<M>(),
        ensures
            final(self).idle(),
            final(self).source() == old(self).source(),
            polled::<M, V, MAVLinkMessageRaw>(
                old(self).pending(),
                final(self).pending(),
                version,
                signing_data,
                raw_message_of(),
                outcome,
            ),
    {
        try_decode_raw::<M, V>(&mut self.decoder, version, signing_data)
    }

    /// The bytes that the source may fill, which are never none, and the source.
    pub fn read_parts(&mut self) -> (parts: (&mut [u8], &mut R))
        requires
            old(self).idle(),
        ensures
            final(self).idle(),
            final(self).pending() == old(self).pending(),
            parts.0@.len() == final(self).room(),
            parts.0@.len() > 0,
            old(self).room() > 0 ==> parts.0@ == old(self).spare(),
            final(self).spare() == final(parts.0)@,
            *parts.1 == old(self).source(),
            final(self).source() == *final(parts.1),
    {
        (self.decoder.spare_capacity_mut(), &mut self.reader)
    }

    /// Takes in the bytes that the source has filled. None means that the source has
    /// ended.
    pub fn finish_read<M: Message>(&mut self, count: usize) -> (result: Result<
        (),
        MessageReadError,
    >)
        requires
            old(self).idle(),
            count <= old(self).room(),
        ensures
            final(self).source() == old(self).source(),
            result is Ok <==> count > 0,
            match result {
                Ok(_) => {
                    &&& final(self).ready_for::<M>()
                    &&& takes_in::<M>(
                        old(self).pending(),
                        old(self).spare().take(count as int),
                        final(self).pending(),
                    )
                },
                Err(error) => {
                    &&& error == MessageReadError::Io(IoError::UnexpectedEof)
                    &&& *final(self) == *old(self)
                },
            },
    {
        if count == 0 {
            return Err(MessageReadError::eof());
        }
        match commit_for::<M>(&mut self.decoder, count) {
            Ok(_) => Ok(()),
            Err(_) => {
                assert(false);
                Err(MessageReadError::eof())
            },
        }
    }
}

/// Bytes that arrive follow what is retained, and what a scan drops is dropped.
pub open spec fn takes_in<M: Message>(pending: Seq<u8>, bytes: Seq<u8>, retained: Seq<u8>) -> bool {
    let arrived = pending + bytes;
    forall|table: ExtraTable| #[trigger]
        dialect_agrees::<M>(table) ==> retained == arrived.skip(
            scan(arrived, MAX_FRAME_LEN as nat, table).skipped as int,
        )
}

} // verus!
