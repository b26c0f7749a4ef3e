//! Error enumerations for parsing and validating identifiers.

use vstd::prelude::*;

verus! {

/// An error returned when parsing the canonical 36-character text form.
#[derive(Debug, PartialEq, Eq, Structural, Clone, Copy)]
pub enum UuidParseError {
    /// The input string is not exactly 36 characters long.
    InvalidLength,
    /// The input has a non-hex character outside the hyphen positions,
    /// a missing or misplaced hyphen, or decodes to bytes whose version
    /// or variant markers are invalid.
    InvalidHex,
}

/// An error returned when raw bytes fail version or variant validation.
#[derive(Debug, PartialEq, Eq, Structural, Clone, Copy)]
pub enum UuidValidationError {
    /// The version nibble is neither 4 nor 7.
    InvalidVersion,
    /// The top two bits of the variant byte are not `10`.
    InvalidVariant,
}

impl UuidParseError {
    /// A short description of the error.
    pub fn describe(&self) -> (r: &'static str)
        ensures
            *self is InvalidLength ==> r@ == "invalid length for UUID string (should be 36)"@,
            *self is InvalidHex ==> r@ == "invalid hex character in UUID string"@,
    {
        match self {
            UuidParseError::InvalidLength => "invalid length for UUID string (should be 36)",
            UuidParseError::InvalidHex => "invalid hex character in UUID string",
        }
    }
}

impl UuidValidationError {
    /// A short description of the error.
    pub fn describe(&self) -> (r: &'static str)
        ensures
            *self is InvalidVersion ==> r@ == "invalid version in UUID bytes (must be 4 or 7)"@,
            *self is InvalidVariant ==> r@ == "invalid variant in UUID bytes (must be RFC 4122)"@,
    {
        match self {
            UuidValidationError::InvalidVersion => "invalid version in UUID bytes (must be 4 or 7)",
            UuidValidationError::InvalidVariant => "invalid variant in UUID bytes (must be RFC 4122)",
        }
    }
}

} // verus!
