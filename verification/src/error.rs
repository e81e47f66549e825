use crate::ascii::{chars, push_bytes};
use crate::digits::{decimal, decimal_digits, hexadecimal, hexadecimal_digits};
use vstd::prelude::*;
use vstd::string::StringExecFns;

verus! {

/// Encoding and decoding errors.
#[derive(Clone, Debug, PartialEq, Eq)]
pub enum Error {
    /// The input byte stream terminated prematurely.
    ByteStreamTerminatedUnexpectedly,
    /// An invalid color code value has been encountered.
    InvalidCodeValue,
    /// The prefix of the color code number was invalid.
    InvalidNumberPrefix(u8),
    /// An invalid start byte has been encountered.
    InvalidStartByte(u8),
    /// The second color code block is missing.
    MissingSecondColorCodeBlock,
    /// No digits for the color code number were found.
    NoCodeDigitsFound,
    /// Too many digits for the color code have been encountered.
    TooManyCodeDigits {
        /// Number of digits that have been processed.
        at_least: u8,
        /// Number of digits that were expected.
        max: u8,
    },
    /// An unexpected byte has been encountered.
    UnexpectedByte(u8),
    /// The given color code value was out of bounds.
    ValueOutOfBounds(u8),
}

impl Error {
    /// What the error says, as characters.
    ///
    /// A byte that stood in the wrong place is given in hexadecimal, a number
    /// in decimal.
    pub open spec fn message(self) -> Seq<char> {
        match self {
            Error::ByteStreamTerminatedUnexpectedly => "byte stream terminated unexpectedly"@,
            Error::InvalidCodeValue => "invalid code value"@,
            Error::InvalidNumberPrefix(prefix) => "invalid number prefix: "@ + chars(
                decimal(prefix as nat),
            ),
            Error::InvalidStartByte(byte) => "invalid start byte: "@ + chars(
                hexadecimal(byte as nat),
            ),
            Error::MissingSecondColorCodeBlock => "missing second code block"@,
            Error::NoCodeDigitsFound => "no code digits found"@,
            Error::TooManyCodeDigits { at_least, max } => "too many code digits found: "@ + chars(
                decimal(at_least as nat),
            ) + "+ / "@ + chars(decimal(max as nat)),
            Error::UnexpectedByte(byte) => "unexpected byte: "@ + chars(hexadecimal(byte as nat)),
            Error::ValueOutOfBounds(value) => "value out of bounds: "@ + chars(
                decimal(value as nat),
            ),
        }
    }

    /// What the error says.
    pub fn to_string(&self) -> (text: String)
        ensures
            text@ == self.message(),
    {
        match self {
            Error::ByteStreamTerminatedUnexpectedly => String::from_str(
                "byte stream terminated unexpectedly",
            ),
            Error::InvalidCodeValue => String::from_str("invalid code value"),
            Error::InvalidNumberPrefix(prefix) => {
                let mut text = String::from_str("invalid number prefix: ");
                push_bytes(&mut text, &decimal_digits(*prefix));
                text
            },
            Error::InvalidStartByte(byte) => {
                let mut text = String::from_str("invalid start byte: ");
                push_bytes(&mut text, &hexadecimal_digits(*byte));
                text
            },
            Error::MissingSecondColorCodeBlock => String::from_str("missing second code block"),
            Error::NoCodeDigitsFound => String::from_str("no code digits found"),
            Error::TooManyCodeDigits { at_least, max } => {
                let mut text = String::from_str("too many code digits found: ");
                push_bytes(&mut text, &decimal_digits(*at_least));
                text.append("+ / ");
                push_bytes(&mut text, &decimal_digits(*max));
                text
            },
            Error::UnexpectedByte(byte) => {
                let mut text = String::from_str("unexpected byte: ");
                push_bytes(&mut text, &hexadecimal_digits(*byte));
                text
            },
            Error::ValueOutOfBounds(value) => {
                let mut text = String::from_str("value out of bounds: ");
                push_bytes(&mut text, &decimal_digits(*value));
                text
            },
        }
    }
}

} // verus!
