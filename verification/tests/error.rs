//! Error texts and conversions.
use mavlink_core::error::{
    describe_invalid_enum, lay_out_invalid_enum, BufferError, IoError, MessageReadError,
    MessageWriteError, ParserError,
};

#[test]
fn buffer_error_text() {
    let error = BufferError::new(12, 7);
    assert_eq!(
        error,
        BufferError::UnexpectedEnd {
            needed: 12,
            remaining: 7
        }
    );
    assert_eq!(error.describe(), "needed 12 bytes but only 7 remain");
    assert_eq!(
        BufferError::new(usize::MAX, 0).describe(),
        format!("needed {} bytes but only 0 remain", usize::MAX)
    );
}

#[test]
fn parser_error_texts() {
    let invalid = ParserError::InvalidEnum {
        enum_type: "Test\"Enum\n",
        value: u64::MAX,
    };
    assert_eq!(
        invalid.describe(),
        "Invalid enum value for enum type \"Test\\\"Enum\\n\", got 18446744073709551615"
    );
    let unknown = ParserError::UnknownMessage { id: 70_000 };
    assert_eq!(unknown.describe(), "Unknown message with ID 70000");
    let short = ParserError::from(BufferError::new(2, 1));
    assert!(matches!(
        short,
        ParserError::BufferError(BufferError::UnexpectedEnd {
            needed: 2,
            remaining: 1
        })
    ));
    assert_eq!(short.describe(), "needed 2 bytes but only 1 remain");
}

#[test]
fn layouts_match_pretty_debug() {
    for error in [
        ParserError::InvalidEnum {
            enum_type: "Test\\Enum",
            value: 255,
        },
        ParserError::UnknownMessage { id: 0 },
        ParserError::BufferError(BufferError::new(100, 10)),
    ] {
        assert_eq!(error.lay_out(), format!("{error:#?}"));
        let layout = error.lay_out();
        assert_eq!(
            MessageReadError::from(error).describe(),
            format!("Failed to read message: {layout}")
        );
    }
}

#[test]
fn quoted_names_are_taken_as_given() {
    assert_eq!(
        describe_invalid_enum("<T>", 5),
        "Invalid enum value for enum type <T>, got 5"
    );
    assert_eq!(
        lay_out_invalid_enum("<T>", 50),
        "InvalidEnum {\n    enum_type: <T>,\n    value: 50,\n}"
    );
}

#[test]
fn input_and_output_error_texts() {
    assert!(matches!(
        MessageReadError::eof(),
        MessageReadError::Io(IoError::UnexpectedEof)
    ));
    for reason in [IoError::UnexpectedEof, IoError::Failed, IoError::ReadLimit] {
        assert_eq!(
            MessageReadError::from(reason).describe(),
            "Failed to read message"
        );
        assert_eq!(
            MessageWriteError::from(reason).describe(),
            "Failed to write message"
        );
    }
    assert_eq!(
        MessageWriteError::MAVLink2Only.describe(),
        "Message is not supported in MAVLink 1"
    );
}
