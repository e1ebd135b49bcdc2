use vstd::prelude::*;

verus! {

/// Why a token could not be decoded.
#[derive(Debug, Clone, PartialEq, Eq)]
pub enum CodecError {
    /// The token does not start with `0x`.
    MissingPrefix,
    /// A canonical hex quantity is `0x` with no digits.
    EmptyQuantity,
    /// A canonical hex quantity has a redundant leading zero digit.
    LeadingZero,
    /// A fixed-width byte string decoded to the wrong number of bytes.
    LengthMismatch { expected: usize, actual: usize },
    /// A character that is not a hex digit stands where hex digits are expected.
    InvalidHexDigit,
    /// The hex digits do not pair up into whole bytes.
    OddLength,
    /// A hex quantity holds a character that is not a hex digit, or does not fit.
    InvalidHexNumeral,
    /// A decimal quantity holds a character that is not a decimal digit, or does not fit.
    NotDecimal,
    /// An embedded document could not be parsed; the parser's message.
    EmbeddedParseError(String),
    /// The value is not of the expected shape (a string, or a list of strings).
    WrongTokenShape,
}

} // verus!
