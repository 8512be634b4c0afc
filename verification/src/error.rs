//! The errors of the codec.

use vstd::prelude::*;

verus! {

/// A numeric code that names no record type.
#[derive(Debug, Clone, Copy, PartialEq, Eq, Structural)]
pub struct RecordTypeError;

/// Why a list of labels is not a domain name.
#[derive(Debug, Clone, PartialEq, Eq)]
pub enum LabelError {
    /// The list holds more than 63 labels.
    TooManyLabels,
    /// A label is longer than 255 bytes; the first such label is carried.
    LabelTooLong(String),
}

/// The part of a message that a decoder was reading.
#[derive(Debug, Clone, Copy, PartialEq, Eq, Structural)]
pub enum Field {
    Id,
    Flags,
    QuestionCount,
    AnswerCount,
    AuthorityCount,
    AdditionalCount,
    LabelLength,
    LabelText,
    RecordType,
    Class,
    Ttl,
    DataLength,
    Data,
}

/// Why a byte stream could not be decoded. Each error carries the offset,
/// counted from the start of the input handed to the decoder, of the first
/// byte of the field at fault.
#[derive(Debug, Clone, Copy, PartialEq, Eq, Structural)]
pub enum DecodeError {
    /// The input ends before the field does.
    TruncatedInput { field: Field, offset: usize },
    /// The text of a label is not valid UTF-8.
    InvalidLabelEncoding { offset: usize },
    /// The record-type code names no record type.
    UnknownRecordTypeCode { code: u16, offset: usize },
}

impl DecodeError {
    /// The offset of the field at fault.
    pub open spec fn spec_offset(self) -> usize {
        match self {
            DecodeError::TruncatedInput { offset, .. } => offset,
            DecodeError::InvalidLabelEncoding { offset } => offset,
            DecodeError::UnknownRecordTypeCode { offset, .. } => offset,
        }
    }

    /// The offset of the field at fault.
    #[verifier::when_used_as_spec(spec_offset)]
    pub fn offset(self) -> (r: usize)
        ensures
            r == self.spec_offset(),
    {
        match self {
            DecodeError::TruncatedInput { offset, .. } => offset,
            DecodeError::InvalidLabelEncoding { offset } => offset,
            DecodeError::UnknownRecordTypeCode { offset, .. } => offset,
        }
    }
}

} // verus!
