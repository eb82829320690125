//! Errors of parsing, reading and writing messages.
use vstd::prelude::*;
use vstd::string::StringExecFns;

use crate::text::{decimal, push_decimal, quote, quoted};

verus! {

/// A byte slice did not contain enough data for a wire-format value.
///
/// This type is intentionally independent of any cursor or I/O abstraction so it
/// remains usable in allocation-free builds.
#[derive(Clone, Copy, Debug, PartialEq, Eq, Structural)]
pub enum BufferError {
    /// The input ended before the requested value could be read.
    UnexpectedEnd {
        /// Number of bytes required for the value being read.
        needed: usize,
        /// Number of bytes available at the read position.
        remaining: usize,
    },
}

impl BufferError {
    /// The input ended: `needed` bytes were required and `remaining` were available.
    pub fn new(needed: usize, remaining: usize) -> (error: Self)
        ensures
            error == (BufferError::UnexpectedEnd { needed, remaining }),
    {
        Self::UnexpectedEnd { needed, remaining }
    }

    /// What [`Self::describe`] returns.
    pub open spec fn text(self) -> Seq<char> {
        match self {
            BufferError::UnexpectedEnd { needed, remaining } => "needed "@ + decimal(needed as nat)
                + " bytes but only "@ + decimal(remaining as nat) + " remain"@,
        }
    }

    /// The error in words.
    #[must_use]
    pub fn describe(&self) -> (text: String)
        ensures
            text@ == self.text(),
    {
        match self {
            BufferError::UnexpectedEnd { needed, remaining } => {
                let mut text = String::from_str("needed ");
                push_decimal(&mut text, *needed as u64);
                text.append(" bytes but only ");
                push_decimal(&mut text, *remaining as u64);
                text.append(" remain");
                text
            },
        }
    }
}

/// Error while parsing a MAVLink message.
#[derive(Debug)]
pub enum ParserError {
    /// Enum value for this enum type does not exist.
    InvalidEnum {
        /// Name of the enum type.
        enum_type: &'static str,
        /// The value found.
        value: u64,
    },
    /// Message ID does not exist in this message set.
    UnknownMessage {
        /// The identifier found.
        id: u32,
    },
    /// The input buffer ended before a complete value could be read.
    BufferError(BufferError),
}

impl From<BufferError> for ParserError {
    fn from(error: BufferError) -> (parser_error: Self) {
        Self::BufferError(error)
    }
}

impl vstd::std_specs::convert::FromSpecImpl<BufferError> for ParserError {
    open spec fn obeys_from_spec() -> bool {
        true
    }

    open spec fn from_spec(error: BufferError) -> Self {
        ParserError::BufferError(error)
    }
}

/// The words for an invalid enum value, given the quoted name of the enum type.
pub open spec fn invalid_enum_text(quoted_type: Seq<char>, value: u64) -> Seq<char> {
    "Invalid enum value for enum type "@ + quoted_type + ", got "@ + decimal(value as nat)
}

/// Says in words that an enum value is invalid, given the quoted name of the enum
/// type.
#[must_use]
pub fn describe_invalid_enum(quoted_type: &str, value: u64) -> (text: String)
    ensures
        text@ == invalid_enum_text(quoted_type@, value),
{
    let mut text = String::from_str("Invalid enum value for enum type ");
    text.append(quoted_type);
    text.append(", got ");
    push_decimal(&mut text, value);
    text
}

/// The layout of an invalid enum value over several lines, given the quoted name of
/// the enum type.
pub open spec fn invalid_enum_layout(quoted_type: Seq<char>, value: u64) -> Seq<char> {
    "InvalidEnum {\n    enum_type: "@ + quoted_type + ",\n    value: "@ + decimal(value as nat)
        + ",\n}"@
}

/// Lays an invalid enum value out over several lines, given the quoted name of the
/// enum type.
#[must_use]
pub fn lay_out_invalid_enum(quoted_type: &str, value: u64) -> (text: String)
    ensures
        text@ == invalid_enum_layout(quoted_type@, value),
{
    let mut text = String::from_str("InvalidEnum {\n    enum_type: ");
    text.append(quoted_type);
    text.append(",\n    value: ");
    push_decimal(&mut text, value);
    text.append(",\n}");
    text
}

impl ParserError {
    /// What [`Self::describe`] returns.
    pub open spec fn text(self) -> Seq<char> {
        match self {
            ParserError::InvalidEnum { enum_type, value } => invalid_enum_text(
                quoted(enum_type@),
                value,
            ),
            ParserError::UnknownMessage { id } => "Unknown message with ID "@ + decimal(id as nat),
            ParserError::BufferError(error) => error.text(),
        }
    }

    /// The error in words.
    #[must_use]
    pub fn describe(&self) -> (text: String)
        ensures
            text@ == self.text(),
    {
        match self {
            ParserError::InvalidEnum { enum_type, value } => {
                let quoted_type = quote(enum_type);
                describe_invalid_enum(quoted_type.as_str(), *value)
            },
            ParserError::UnknownMessage { id } => {
                let mut text = String::from_str("Unknown message with ID ");
                push_decimal(&mut text, *id as u64);
                text
            },
            ParserError::BufferError(error) => error.describe(),
        }
    }

    /// What [`Self::lay_out`] returns.
    pub open spec fn layout(self) -> Seq<char> {
        match self {
            ParserError::InvalidEnum { enum_type, value } => invalid_enum_layout(
                quoted(enum_type@),
                value,
            ),
            ParserError::UnknownMessage { id } => "UnknownMessage {\n    id: "@ + decimal(id as nat)
                + ",\n}"@,
            ParserError::BufferError(BufferError::UnexpectedEnd { needed, remaining }) =>
                "BufferError(\n    UnexpectedEnd {\n        needed: "@ + decimal(needed as nat)
                    + ",\n        remaining: "@ + decimal(remaining as nat) + ",\n    },\n)"@,
        }
    }

    /// The error with its fields, laid out over several lines.
    #[must_use]
    pub fn lay_out(&self) -> (text: String)
        ensures
            text@ == self.layout(),
    {
        match self {
            ParserError::InvalidEnum { enum_type, value } => {
                let quoted_type = quote(enum_type);
                lay_out_invalid_enum(quoted_type.as_str(), *value)
            },
            ParserError::UnknownMessage { id } => {
                let mut text = String::from_str("UnknownMessage {\n    id: ");
                push_decimal(&mut text, *id as u64);
                text.append(",\n}");
                text
            },
            ParserError::BufferError(BufferError::UnexpectedEnd { needed, remaining }) => {
                let mut text = String::from_str(
                    "BufferError(\n    UnexpectedEnd {\n        needed: ",
                );
                push_decimal(&mut text, *needed as u64);
                text.append(",\n        remaining: ");
                push_decimal(&mut text, *remaining as u64);
                text.append(",\n    },\n)");
                text
            },
        }
    }
}

/// Why a source could not be read or a sink could not be written.
#[derive(Clone, Copy, Debug, PartialEq, Eq, Structural)]
pub enum IoError {
    /// The source ended before a message was complete.
    UnexpectedEof,
    /// The source or sink reported a failure of its own.
    Failed,
    /// The source was read as often as can be counted and no message was complete.
    ReadLimit,
}

/// Error while reading and parsing a MAVLink message.
#[derive(Debug)]
pub enum MessageReadError {
    /// I/O error while reading.
    Io(IoError),
    /// Error while parsing.
    Parse(ParserError),
}

impl MessageReadError {
    /// The source ended before a message was complete.
    pub fn eof() -> (error: Self)
        ensures
            error == MessageReadError::Io(IoError::UnexpectedEof),
    {
        Self::Io(IoError::UnexpectedEof)
    }

    /// What [`Self::describe`] returns.
    pub open spec fn text(self) -> Seq<char> {
        match self {
            MessageReadError::Io(_) => "Failed to read message"@,
            MessageReadError::Parse(error) => "Failed to read message: "@ + error.layout(),
        }
    }

    /// The error in words.
    #[must_use]
    pub fn describe(&self) -> (text: String)
        ensures
            text@ == self.text(),
    {
        match self {
            MessageReadError::Io(_) => String::from_str("Failed to read message"),
            MessageReadError::Parse(error) => {
                let mut text = String::from_str("Failed to read message: ");
                let layout = error.lay_out();
                text.append(layout.as_str());
                text
            },
        }
    }
}

impl From<IoError> for MessageReadError {
    fn from(error: IoError) -> (read_error: Self) {
        Self::Io(error)
    }
}

impl vstd::std_specs::convert::FromSpecImpl<IoError> for MessageReadError {
    open spec fn obeys_from_spec() -> bool {
        true
    }

    open spec fn from_spec(error: IoError) -> Self {
        MessageReadError::Io(error)
    }
}

impl From<ParserError> for MessageReadError {
    fn from(error: ParserError) -> (read_error: Self) {
        Self::Parse(error)
    }
}

impl vstd::std_specs::convert::FromSpecImpl<ParserError> for MessageReadError {
    open spec fn obeys_from_spec() -> bool {
        true
    }

    open spec fn from_spec(error: ParserError) -> Self {
        MessageReadError::Parse(error)
    }
}

/// Error while writing a MAVLink message.
#[derive(Debug)]
pub enum MessageWriteError {
    /// I/O error while writing.
    Io(IoError),
    /// Message does not support MAVLink 1.
    MAVLink2Only,
}

impl MessageWriteError {
    /// What [`Self::describe`] returns.
    pub open spec fn text(self) -> Seq<char> {
        match self {
            MessageWriteError::Io(_) => "Failed to write message"@,
            MessageWriteError::MAVLink2Only => "Message is not supported in MAVLink 1"@,
        }
    }

    /// The error in words.
    #[must_use]
    pub fn describe(&self) -> (text: String)
        ensures
            text@ == self.text(),
    {
        match self {
            MessageWriteError::Io(_) => String::from_str("Failed to write message"),
            MessageWriteError::MAVLink2Only => String::from_str(
                "Message is not supported in MAVLink 1",
            ),
        }
    }
}

impl From<IoError> for MessageWriteError {
    fn from(error: IoError) -> (write_error: Self) {
        Self::Io(error)
    }
}

impl vstd::std_specs::convert::FromSpecImpl<IoError> for MessageWriteError {
    open spec fn obeys_from_spec() -> bool {
        true
    }

    open spec fn from_spec(error: IoError) -> Self {
        MessageWriteError::Io(error)
    }
}

} // verus!
