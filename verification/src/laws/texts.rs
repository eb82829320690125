//! What errors say.
use vstd::prelude::*;

use crate::error::{BufferError, IoError, MessageReadError, MessageWriteError, ParserError};
use crate::frame_decoder::CommitError;
use crate::text::{decimal, push_decimal, quoted};

verus! {

/// The number that decimal digits stand for.
pub open spec fn number_in(digits: Seq<char>) -> int
    decreases digits.len(),
{
    if digits.len() == 0 {
        0
    } else {
        10 * number_in(digits.drop_last()) + (digits.last() as int - '0' as int)
    }
}

/// `digits` are `number` in decimal: at least one digit, nothing but digits, and no zero in
/// front of others.
pub open spec fn is_number(digits: Seq<char>, number: int) -> bool {
    &&& digits.len() > 0
    &&& forall|i: int| 0 <= i < digits.len() ==> '0' <= #[trigger] digits[i] <= '9'
    &&& digits.len() > 1 ==> digits[0] != '0'
    &&& number_in(digits) == number
}

proof fn lemma_decimal(number: nat)
    ensures
        is_number(decimal(number), number as int),
        number > 0 ==> decimal(number)[0] != '0',
    decreases number,
{
    let digits = decimal(number);
    if number < 10 {
        assert(digits.drop_last() =~= Seq::<char>::empty());
        assert(number_in(Seq::<char>::empty()) == 0);
    } else {
        lemma_decimal(number / 10);
        assert(digits.drop_last() =~= decimal(number / 10));
        assert forall|i: int| 0 <= i < digits.len() implies '0' <= #[trigger] digits[i] <= '9' by {
            if i < digits.len() - 1 {
                assert(digits[i] == decimal(number / 10)[i]);
            }
        }
        assert(digits[0] == decimal(number / 10)[0]);
    }
}

/// A number is written in decimal behind the text.
pub proof fn law_number_is_written_in_decimal(text: &mut String, number: u64)
    requires
        call_ensures(push_decimal, (text, number), ()),
    ensures
        exists|digits: Seq<char>| #[trigger]
            is_number(digits, number as int) && final(text)@ == old(text)@ + digits,
{
    lemma_decimal(number as nat);
}

/// A short buffer is described by how many bytes were needed and how many were there.
pub proof fn law_short_buffer_is_described(needed: usize, remaining: usize, text: String)
    requires
        call_ensures(
            BufferError::describe,
            (&BufferError::UnexpectedEnd { needed, remaining },),
            text,
        ),
    ensures
        exists|first: Seq<char>, second: Seq<char>|
            #![trigger is_number(first, needed as int), is_number(second, remaining as int)]
            is_number(first, needed as int) && is_number(second, remaining as int) && text@
                == "needed "@ + first + " bytes but only "@ + second + " remain"@,
{
    lemma_decimal(needed as nat);
    lemma_decimal(remaining as nat);
}

/// A refused commit is described by how many bytes were asked for and how many there are.
pub proof fn law_refused_commit_is_described(requested: usize, available: usize, text: String)
    requires
        call_ensures(CommitError::describe, (&CommitError { requested, available },), text),
    ensures
        exists|first: Seq<char>, second: Seq<char>|
            #![trigger is_number(first, requested as int), is_number(second, available as int)]
            is_number(first, requested as int) && is_number(second, available as int) && text@
                == "attempted to commit "@ + first + " bytes with only "@ + second
                + " bytes available"@,
{
    lemma_decimal(requested as nat);
    lemma_decimal(available as nat);
}

/// An unknown message is described by its identifier.
pub proof fn law_unknown_message_is_described(id: u32, text: String, layout: String)
    requires
        call_ensures(ParserError::describe, (&ParserError::UnknownMessage { id },), text),
        call_ensures(ParserError::lay_out, (&ParserError::UnknownMessage { id },), layout),
    ensures
        exists|digits: Seq<char>| #[trigger]
            is_number(digits, id as int) && text@ == "Unknown message with ID "@ + digits
                && layout@ == "UnknownMessage {\n    id: "@ + digits + ",\n}"@,
{
    lemma_decimal(id as nat);
}

/// An invalid value is described by the enum type, in quotes, and by the value.
pub proof fn law_invalid_enum_is_described(
    enum_type: &'static str,
    value: u64,
    text: String,
    layout: String,
)
    requires
        call_ensures(
            ParserError::describe,
            (&ParserError::InvalidEnum { enum_type, value },),
            text,
        ),
        call_ensures(
            ParserError::lay_out,
            (&ParserError::InvalidEnum { enum_type, value },),
            layout,
        ),
    ensures
        exists|digits: Seq<char>| #[trigger]
            is_number(digits, value as int) && text@ == "Invalid enum value for enum type "@
                + quoted(enum_type@) + ", got "@ + digits && layout@
                == "InvalidEnum {\n    enum_type: "@ + quoted(enum_type@) + ",\n    value: "@
                + digits + ",\n}"@,
{
    lemma_decimal(value as nat);
}

/// A payload that is too short is described like the buffer that it was read from.
pub proof fn law_short_payload_is_described(
    needed: usize,
    remaining: usize,
    text: String,
    layout: String,
)
    requires
        call_ensures(
            ParserError::describe,
            (&ParserError::BufferError(BufferError::UnexpectedEnd { needed, remaining }),),
            text,
        ),
        call_ensures(
            ParserError::lay_out,
            (&ParserError::BufferError(BufferError::UnexpectedEnd { needed, remaining }),),
            layout,
        ),
    ensures
        exists|first: Seq<char>, second: Seq<char>|
            #![trigger is_number(first, needed as int), is_number(second, remaining as int)]
            is_number(first, needed as int) && is_number(second, remaining as int) && text@
                == "needed "@ + first + " bytes but only "@ + second + " remain"@ && layout@
                == "BufferError(\n    UnexpectedEnd {\n        needed: "@ + first
                + ",\n        remaining: "@ + second + ",\n    },\n)"@,
{
    lemma_decimal(needed as nat);
    lemma_decimal(remaining as nat);
}

/// A failed read is described by what could not be parsed, or as such where the source
/// failed.
pub proof fn law_failed_read_is_described(error: MessageReadError, text: String, layout: String)
    requires
        call_ensures(MessageReadError::describe, (&error,), text),
        error matches MessageReadError::Parse(parser_error) ==> call_ensures(
            ParserError::lay_out,
            (&parser_error,),
            layout,
        ),
    ensures
        text@ == match error {
            MessageReadError::Io(_) => "Failed to read message"@,
            MessageReadError::Parse(_) => "Failed to read message: "@ + layout@,
        },
{
}

/// A failed write is described by its reason.
pub proof fn law_failed_write_is_described(error: MessageWriteError, text: String)
    requires
        call_ensures(MessageWriteError::describe, (&error,), text),
    ensures
        text@ == match error {
            MessageWriteError::Io(_) => "Failed to write message"@,
            MessageWriteError::MAVLink2Only => "Message is not supported in MAVLink 1"@,
        },
{
}

/// Errors are kept as they are when they are wrapped.
pub proof fn law_errors_are_wrapped_unchanged(
    short: BufferError,
    reason: IoError,
    parser_error: ParserError,
    wrapped: ParserError,
    read: MessageReadError,
    read_parsing: MessageReadError,
    write: MessageWriteError,
    eof: MessageReadError,
)
    requires
        call_ensures(<ParserError as From<BufferError>>::from, (short,), wrapped),
        call_ensures(<MessageReadError as From<IoError>>::from, (reason,), read),
        call_ensures(<MessageReadError as From<ParserError>>::from, (parser_error,), read_parsing),
        call_ensures(<MessageWriteError as From<IoError>>::from, (reason,), write),
        call_ensures(MessageReadError::eof, (), eof),
    ensures
        wrapped == ParserError::BufferError(short),
        read == MessageReadError::Io(reason),
        read_parsing == MessageReadError::Parse(parser_error),
        write == MessageWriteError::Io(reason),
        eof == MessageReadError::Io(IoError::UnexpectedEof),
{
}

} // verus!
