//! How asynchronous reads relate to blocking ones.
use vstd::prelude::*;

use super::takes_in;
use crate::embedded::{begins, Read};
use crate::error::{MessageReadError, ParserError};
use crate::frame_decoder::model::ExtraTable;
use crate::message::{protocol_version, MavHeader, MavlinkVersion, Message, ReadVersion};
use crate::reader::decode::{
    answers, by_version, comes_to, dialect_agrees, header_of, lemma_comes_begin,
    lemma_comes_more, message_of, parses, polled, reads_as,
};
use crate::reader::laws::law_unsigned_reader_decides_by_version;
use crate::reader::model::{messages, Accept};
use crate::reader::stream::{
    blocking_calls, frame_at, in_sequence, law_calls_return_the_messages_in_order,
    lemma_blocking_calls, reads_in_sequence, streams, unread, Call,
};
use crate::reader::{lemma_polled_further, MavlinkReader};
use crate::signing::{NoSigning, SignatureVerifier, SigningData};
use crate::wire;

verus! {

/// All bytes of `chunks`, in their order.
pub open spec fn joined(chunks: Seq<Seq<u8>>) -> Seq<u8>
    decreases chunks.len(),
{
    if chunks.len() == 0 {
        Seq::empty()
    } else {
        chunks[0] + joined(chunks.drop_first())
    }
}

/// More bytes are needed, and these arrive.
pub open spec fn waits_for<M: Message, V: SignatureVerifier, T>(
    pending: Seq<u8>,
    idle: Seq<u8>,
    chunk: Seq<u8>,
    retained: Seq<u8>,
    version: ReadVersion,
    signing_data: Option<&SigningData<V>>,
    carried_by: spec_fn(Seq<u8>, Result<T, MessageReadError>) -> bool,
) -> bool {
    &&& polled::<M, V, T>(pending, idle, version, signing_data, carried_by, None)
    &&& chunk.len() > 0
    &&& takes_in::<M>(idle, chunk, retained)
}

/// An asynchronous read: while more bytes are needed, the next of `chunks` arrives, and
/// behind the last of them `result` is found, or the source has ended.
pub open spec fn reads_chunks<M: Message, V: SignatureVerifier, T>(
    pending: Seq<u8>,
    chunks: Seq<Seq<u8>>,
    left: Seq<u8>,
    version: ReadVersion,
    signing_data: Option<&SigningData<V>>,
    carried_by: spec_fn(Seq<u8>, Result<T, MessageReadError>) -> bool,
    result: Result<T, MessageReadError>,
) -> bool
    decreases chunks.len(),
{
    if chunks.len() == 0 {
        if let Err(MessageReadError::Io(error)) = result {
            &&& error is UnexpectedEof
            &&& polled::<M, V, T>(pending, left, version, signing_data, carried_by, None)
        } else {
            polled::<M, V, T>(pending, left, version, signing_data, carried_by, Some(result))
        }
    } else {
        exists|idle: Seq<u8>, retained: Seq<u8>| #[trigger]
            waits_for::<M, V, T>(
                pending,
                idle,
                chunks[0],
                retained,
                version,
                signing_data,
                carried_by,
            ) && reads_chunks::<M, V, T>(
                retained,
                chunks.drop_first(),
                left,
                version,
                signing_data,
                carried_by,
                result,
            )
    }
}

/// However the bytes arrive, an asynchronous read keeps the contract of a call.
pub proof fn law_asynchronous_read_keeps_the_contract<M: Message, V: SignatureVerifier, T>(
    call: Call<T>,
    chunks: Seq<Seq<u8>>,
    version: ReadVersion,
    signing_data: Option<&SigningData<V>>,
    carried_by: spec_fn(Seq<u8>, Result<T, MessageReadError>) -> bool,
)
    requires
        reads_chunks::<M, V, T>(
            call.pending,
            chunks,
            call.left,
            version,
            signing_data,
            carried_by,
            call.result,
        ),
        call.arrived == joined(chunks),
        begins(call.unread, call.arrived),
        call.result matches Err(MessageReadError::Io(_)) ==> call.arrived == call.unread,
    ensures
        call.keeps_contract::<M, V>(version, signing_data, carried_by),
{
    lemma_comes_begin::<M, V>(call.pending, version, signing_data);
    lemma_reads_chunks::<M, V, T>(
        call.pending,
        call.pending,
        chunks,
        call,
        version,
        signing_data,
        carried_by,
    );
}

proof fn lemma_reads_chunks<M: Message, V: SignatureVerifier, T>(
    seen: Seq<u8>,
    pending: Seq<u8>,
    chunks: Seq<Seq<u8>>,
    call: Call<T>,
    version: ReadVersion,
    signing_data: Option<&SigningData<V>>,
    carried_by: spec_fn(Seq<u8>, Result<T, MessageReadError>) -> bool,
)
    requires
        comes_to::<M, V>(seen, version, signing_data, pending),
        reads_chunks::<M, V, T>(
            pending,
            chunks,
            call.left,
            version,
            signing_data,
            carried_by,
            call.result,
        ),
        seen + joined(chunks) == call.pending + call.arrived,
        begins(call.unread, call.arrived),
        call.result matches Err(MessageReadError::Io(_)) ==> call.arrived == call.unread,
    ensures
        call.keeps_contract::<M, V>(version, signing_data, carried_by),
    decreases chunks.len(),
{
    if chunks.len() == 0 {
        assert(seen + joined(chunks) =~= seen);
        let outcome = if call.result matches Err(MessageReadError::Io(_)) {
            None
        } else {
            Some(call.result)
        };
        lemma_polled_further::<M, V, T>(
            seen,
            pending,
            call.left,
            version,
            signing_data,
            carried_by,
            outcome,
        );
    } else {
        let (idle, retained) = choose|idle: Seq<u8>, retained: Seq<u8>| #[trigger]
            waits_for::<M, V, T>(
                pending,
                idle,
                chunks[0],
                retained,
                version,
                signing_data,
                carried_by,
            ) && reads_chunks::<M, V, T>(
                retained,
                chunks.drop_first(),
                call.left,
                version,
                signing_data,
                carried_by,
                call.result,
            );
        lemma_polled_further::<M, V, T>(
            seen,
            pending,
            idle,
            version,
            signing_data,
            carried_by,
            None,
        );
        lemma_comes_more::<M, V>(seen, version, signing_data, idle, chunks[0], retained);
        let later = chunks.drop_first();
        assert(seen + joined(chunks) =~= seen + chunks[0] + joined(later));
        lemma_reads_chunks::<M, V, T>(
            seen + chunks[0],
            retained,
            later,
            call,
            version,
            signing_data,
            carried_by,
        );
    }
}

/// Asynchronous reads, one after the other, with what arrives during each.
pub open spec fn asynchronous_calls<M: Message, V: SignatureVerifier, T>(
    calls: Seq<Call<T>>,
    arrivals: Seq<Seq<Seq<u8>>>,
    version: ReadVersion,
    signing_data: Option<&SigningData<V>>,
    carried_by: spec_fn(Seq<u8>, Result<T, MessageReadError>) -> bool,
) -> bool {
    &&& in_sequence(calls)
    &&& arrivals.len() == calls.len()
    &&& forall|i: int|
        #![trigger calls[i]]
        0 <= i < calls.len() ==> {
            &&& reads_chunks::<M, V, T>(
                calls[i].pending,
                arrivals[i],
                calls[i].left,
                version,
                signing_data,
                carried_by,
                calls[i].result,
            )
            &&& calls[i].arrived == joined(arrivals[i])
            &&& begins(calls[i].unread, calls[i].arrived)
            &&& calls[i].result matches Err(MessageReadError::Io(_)) ==> calls[i].arrived
                == calls[i].unread
        }
}

/// Asynchronous reads give, call by call, what blocking reads of the same stream give:
/// each pair of results is carried by the same frame, or both calls find the end. How
/// many bytes arrive at a time does not matter.
pub proof fn law_asynchronous_reads_match_blocking_reads<
    R: Read,
    M: Message,
    V: SignatureVerifier,
    T,
>(
    calls: Seq<Call<T>>,
    arrivals: Seq<Seq<Seq<u8>>>,
    readers: Seq<MavlinkReader<R>>,
    results: Seq<Result<T, MessageReadError>>,
    version: ReadVersion,
    signing_data: Option<&SigningData<V>>,
    carried_by: spec_fn(Seq<u8>, Result<T, MessageReadError>) -> bool,
    table: ExtraTable,
    accept: Accept,
)
    requires
        calls.len() > 0,
        calls.len() == results.len(),
        asynchronous_calls::<M, V, T>(calls, arrivals, version, signing_data, carried_by),
        reads_in_sequence::<R, M, V, T>(readers, results, version, signing_data, carried_by),
        streams(readers[0].source()),
        calls[0].before() == readers[0].pending() + unread(readers[0].source()),
        answers::<M, V>(version, signing_data, table, accept),
    ensures
        ({
            let frames = messages(calls[0].before(), table, accept);
            forall|i: int|
                #![trigger calls[i]]
                0 <= i < calls.len() ==> match frame_at(frames, i) {
                    Some(frame) => {
                        &&& wire::is_any_frame(frame)
                        &&& carried_by(frame, calls[i].result)
                        &&& carried_by(frame, results[i])
                        &&& !(calls[i].result matches Err(MessageReadError::Io(_)))
                        &&& !(results[i] matches Err(MessageReadError::Io(_)))
                    },
                    None => {
                        &&& calls[i].result matches Err(MessageReadError::Io(error))
                            && error is UnexpectedEof
                        &&& results[i] == calls[i].result
                    },
                }
        }),
{
    assert forall|i: int| 0 <= i < calls.len() implies (#[trigger] calls[i]).keeps_contract::<
        M,
        V,
    >(version, signing_data, carried_by) by {
        law_asynchronous_read_keeps_the_contract::<M, V, T>(
            calls[i],
            arrivals[i],
            version,
            signing_data,
            carried_by,
        );
    }
    law_calls_return_the_messages_in_order::<M, V, T>(
        calls,
        version,
        signing_data,
        carried_by,
        table,
        accept,
    );
    let others = blocking_calls(readers, results);
    lemma_blocking_calls::<R, M, V, T>(readers, results, version, signing_data, carried_by);
    law_calls_return_the_messages_in_order::<M, V, T>(
        others,
        version,
        signing_data,
        carried_by,
        table,
        accept,
    );
    let frames = messages(calls[0].before(), table, accept);
    assert(others[0].before() == calls[0].before());
    assert forall|i: int| #![trigger calls[i]] 0 <= i < calls.len() implies others[i].gives(
        frame_at(frames, i),
        carried_by,
    ) && others[i].result == results[i] && calls[i].gives(frame_at(frames, i), carried_by) by {
        assert(others[i].gives(frame_at(frames, i), carried_by));
        assert(calls[i].gives(frame_at(frames, i), carried_by));
    }
}

/// The dialect `M` makes one and the same of equal payloads.
pub open spec fn parses_alike<M: Message>() -> bool {
    forall|
        version: MavlinkVersion,
        id: u32,
        first: &[u8],
        second: &[u8],
        parsed: Result<M, ParserError>,
        other: Result<M, ParserError>,
    |
        first@ == second@ && #[trigger] call_ensures(M::parse, (version, id, first), parsed)
            && #[trigger] call_ensures(M::parse, (version, id, second), other) ==> parsed == other
}

/// Where the dialect `M` makes one and the same of equal payloads, asynchronous reads of
/// messages return, call by call, exactly what blocking reads of the same stream return:
/// the same messages, the same parse errors, and the end after the same number of calls.
pub proof fn law_asynchronous_messages_equal_blocking_ones<R: Read, M: Message>(
    calls: Seq<Call<(MavHeader, M)>>,
    arrivals: Seq<Seq<Seq<u8>>>,
    readers: Seq<MavlinkReader<R>>,
    results: Seq<Result<(MavHeader, M), MessageReadError>>,
    version: ReadVersion,
    table: ExtraTable,
)
    requires
        calls.len() == results.len(),
        asynchronous_calls::<M, NoSigning, (MavHeader, M)>(
            calls,
            arrivals,
            version,
            None,
            message_of::<M>(),
        ),
        reads_in_sequence::<R, M, NoSigning, (MavHeader, M)>(
            readers,
            results,
            version,
            None,
            message_of::<M>(),
        ),
        streams(readers[0].source()),
        calls.len() > 0 ==> calls[0].before() == readers[0].pending() + unread(
            readers[0].source(),
        ),
        dialect_agrees::<M>(table),
        parses_alike::<M>(),
    ensures
        results == Seq::new(calls.len(), |i: int| calls[i].result),
{
    if calls.len() > 0 {
        let accept = by_version(version);
        let frames = messages(calls[0].before(), table, accept);
        law_unsigned_reader_decides_by_version::<M>(version, table);
        law_asynchronous_reads_match_blocking_reads::<R, M, NoSigning, (MavHeader, M)>(
            calls,
            arrivals,
            readers,
            results,
            version,
            None,
            message_of::<M>(),
            table,
            accept,
        );
        assert forall|i: int| 0 <= i < calls.len() implies #[trigger] results[i]
            == calls[i].result by {
            let call = calls[i];
            if let Some(frame) = frame_at(frames, i) {
                lemma_reads_alike(frame, call.result, results[i]);
            }
        }
    }
    assert(results =~= Seq::new(calls.len(), |i: int| calls[i].result));
}

/// A frame is read in one way only.
proof fn lemma_reads_alike<M: Message>(
    frame: Seq<u8>,
    first: Result<(MavHeader, M), MessageReadError>,
    second: Result<(MavHeader, M), MessageReadError>,
)
    requires
        parses_alike::<M>(),
        message_of::<M>()(frame, first),
        message_of::<M>()(frame, second),
    ensures
        first == second,
{
    let parsed = lemma_parsed(frame, first);
    let other = lemma_parsed(frame, second);
    let version = wire::version_of(frame[0])->0;
    let id = wire::message_id(frame, version);
    let payload = choose|payload: &[u8]|
        payload@ == wire::payload(frame, version) && #[trigger] call_ensures(
            M::parse,
            (protocol_version(version), id, payload),
            parsed,
        );
    let other_payload = choose|payload: &[u8]|
        payload@ == wire::payload(frame, version) && #[trigger] call_ensures(
            M::parse,
            (protocol_version(version), id, payload),
            other,
        );
    assert(payload@ == other_payload@);
    assert(parsed == other);
}

/// What the dialect made of the payload.
proof fn lemma_parsed<M: Message>(
    frame: Seq<u8>,
    outcome: Result<(MavHeader, M), MessageReadError>,
) -> (parsed: Result<M, ParserError>)
    requires
        message_of::<M>()(frame, outcome),
    ensures
        parses::<M>(frame, parsed),
        match parsed {
            Ok(message) => outcome == Ok::<(MavHeader, M), MessageReadError>(
                (header_of(frame), message),
            ),
            Err(error) => outcome == Err::<(MavHeader, M), MessageReadError>(
                MessageReadError::Parse(error),
            ),
        },
{
    assert(reads_as::<M>(frame, outcome));
    match outcome {
        Ok((_, message)) => Ok(message),
        Err(MessageReadError::Parse(error)) => Err(error),
        Err(MessageReadError::Io(_)) => arbitrary(),
    }
}

} // verus!
