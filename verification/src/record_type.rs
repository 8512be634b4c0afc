//! The record types of RFC 1035, section 3.2.2, and their numeric codes.

use crate::error::RecordTypeError;
use vstd::prelude::*;
use vstd::std_specs::convert::TryFromSpecImpl;

verus! {

/// The type of a resource record.
#[derive(Debug, Clone, Copy, PartialEq, Eq, Structural)]
pub enum RecordType {
    A,
    NS,
    MD,
    MF,
    CNAME,
    SOA,
    MB,
    MG,
    MR,
    NULL,
    WKS,
    PTR,
    HINFO,
    MINFO,
    MX,
    TXT,
}

/// The numeric code of a record type.
pub open spec fn code_of(t: RecordType) -> u16 {
    match t {
        RecordType::A => 1,
        RecordType::NS => 2,
        RecordType::MD => 3,
        RecordType::MF => 4,
        RecordType::CNAME => 5,
        RecordType::SOA => 6,
        RecordType::MB => 7,
        RecordType::MG => 8,
        RecordType::MR => 9,
        RecordType::NULL => 10,
        RecordType::WKS => 11,
        RecordType::PTR => 12,
        RecordType::HINFO => 13,
        RecordType::MINFO => 14,
        RecordType::MX => 15,
        RecordType::TXT => 16,
    }
}

/// The record type that a numeric code names, if it names one: the type
/// whose code it is.
pub open spec fn type_of_code(code: u16) -> Option<RecordType> {
    if 1 <= code <= 16 {
        Some(choose|t: RecordType| code_of(t) == code)
    } else {
        None
    }
}

/// Every code from 1 to 16 names exactly one record type, which has that
/// code, and every record type is named by its own code.
pub proof fn lemma_code_mapping(t: RecordType, code: u16)
    ensures
        1 <= code_of(t) <= 16,
        type_of_code(code_of(t)) == Some(t),
        type_of_code(code) matches Some(u) ==> code_of(u) == code,
        type_of_code(code) is Some <==> 1 <= code <= 16,
{
    assert forall|a: RecordType, b: RecordType| code_of(a) == code_of(b) implies a == b by {}
    if 1 <= code <= 16 {
        let w = if code == 1 {
            RecordType::A
        } else if code == 2 {
            RecordType::NS
        } else if code == 3 {
            RecordType::MD
        } else if code == 4 {
            RecordType::MF
        } else if code == 5 {
            RecordType::CNAME
        } else if code == 6 {
            RecordType::SOA
        } else if code == 7 {
            RecordType::MB
        } else if code == 8 {
            RecordType::MG
        } else if code == 9 {
            RecordType::MR
        } else if code == 10 {
            RecordType::NULL
        } else if code == 11 {
            RecordType::WKS
        } else if code == 12 {
            RecordType::PTR
        } else if code == 13 {
            RecordType::HINFO
        } else if code == 14 {
            RecordType::MINFO
        } else if code == 15 {
            RecordType::MX
        } else {
            RecordType::TXT
        };
        assert(code_of(w) == code);
    }
}

/// What the conversion from a code returns: the record type that the code
/// names, or the error where it names none.
pub open spec fn checked_type_of_code(code: u16) -> Result<RecordType, RecordTypeError> {
    match type_of_code(code) {
        Some(t) => Ok(t),
        None => Err(RecordTypeError),
    }
}

impl RecordType {
    /// The numeric code of this record type.
    pub fn value(&self) -> (code: u16)
        ensures
            code == code_of(*self),
    {
        match self {
            RecordType::A => 1,
            RecordType::NS => 2,
            RecordType::MD => 3,
            RecordType::MF => 4,
            RecordType::CNAME => 5,
            RecordType::SOA => 6,
            RecordType::MB => 7,
            RecordType::MG => 8,
            RecordType::MR => 9,
            RecordType::NULL => 10,
            RecordType::WKS => 11,
            RecordType::PTR => 12,
            RecordType::HINFO => 13,
            RecordType::MINFO => 14,
            RecordType::MX => 15,
            RecordType::TXT => 16,
        }
    }

    /// The record type with the given code; fails exactly when the code is
    /// not one of 1 to 16.
    pub fn from_code(code: u16) -> (r: Result<RecordType, RecordTypeError>)
        ensures
            r is Ok <==> 1 <= code <= 16,
            r matches Ok(t) ==> code_of(t) == code && type_of_code(code) == Some(t),
            r == checked_type_of_code(code),
    {
        let r = match code {
            1 => Ok(RecordType::A),
            2 => Ok(RecordType::NS),
            3 => Ok(RecordType::MD),
            4 => Ok(RecordType::MF),
            5 => Ok(RecordType::CNAME),
            6 => Ok(RecordType::SOA),
            7 => Ok(RecordType::MB),
            8 => Ok(RecordType::MG),
            9 => Ok(RecordType::MR),
            10 => Ok(RecordType::NULL),
            11 => Ok(RecordType::WKS),
            12 => Ok(RecordType::PTR),
            13 => Ok(RecordType::HINFO),
            14 => Ok(RecordType::MINFO),
            15 => Ok(RecordType::MX),
            16 => Ok(RecordType::TXT),
            _ => Err(RecordTypeError),
        };
        proof {
            if let Ok(t) = r {
                lemma_code_mapping(t, code);
            }
        }
        r
    }
}

impl TryFrom<u16> for RecordType {
    type Error = RecordTypeError;

    /// The record type with the given code, as `from_code` gives it.
    fn try_from(value: u16) -> (r: Result<Self, Self::Error>) {
        RecordType::from_code(value)
    }
}

impl TryFromSpecImpl<u16> for RecordType {
    open spec fn obeys_try_from_spec() -> bool {
        true
    }

    open spec fn try_from_spec(v: u16) -> Result<Self, Self::Error> {
        checked_type_of_code(v)
    }
}

} // verus!
