//! Resource records, RFC 1035, section 3.2.

use crate::buffer;
use crate::error::{DecodeError, Field};
use crate::label::{
    lemma_name_round_trip, lengths_agree, name_bytes, no_empty_label, parse_name, Label,
    LabelSequence,
};
use crate::question::CLASS_INTERNET;
use crate::reader::{read_bytes, read_u16, read_u32};
use crate::record_type::{code_of, lemma_code_mapping, type_of_code, RecordType};
use crate::wire::{
    lemma_read_after_prefix, lemma_u16_round_trip, lemma_u32_round_trip, u16_at, u16_bytes,
    u32_at, u32_bytes,
};
use vstd::prelude::*;
use vstd::slice::slice_to_vec;

verus! {

/// The time to live, in seconds, of a record made without one.
pub const DEFAULT_TTL: u32 = 60;

/// A resource record: the name it belongs to, its type and class, how long
/// it may be cached, and its data with their length.
#[derive(Debug, PartialEq, Eq)]
pub struct Record {
    pub name: LabelSequence,
    pub record_type: RecordType,
    pub class: u16,
    pub ttl: u32,
    pub length: u16,
    pub data: Vec<u8>,
}

/// A record as the contracts see it.
pub struct RecordView {
    pub name: Seq<Label>,
    pub record_type: RecordType,
    pub class: u16,
    pub ttl: u32,
    pub length: u16,
    pub data: Seq<u8>,
}

impl View for Record {
    type V = RecordView;

    open spec fn view(&self) -> RecordView {
        RecordView {
            name: self.name@,
            record_type: self.record_type,
            class: self.class,
            ttl: self.ttl,
            length: self.length,
            data: self.data@,
        }
    }
}

/// The encoding of a record: the name, the code of the record type and the
/// class as big-endian 16-bit integers, the time to live as a big-endian
/// 32-bit integer, the stored length as a big-endian 16-bit integer, and
/// the data as they are.
pub open spec fn record_bytes(r: RecordView) -> Seq<u8> {
    name_bytes(r.name) + u16_bytes(code_of(r.record_type)) + u16_bytes(r.class) + u32_bytes(r.ttl)
        + u16_bytes(r.length) + r.data
}

/// The time to live of a record made with the given choice.
pub open spec fn ttl_or_default(ttl: Option<u32>) -> u32 {
    match ttl {
        Some(seconds) => seconds,
        None => 60,
    }
}

/// What decoding a record from the front of `s` gives. The fields are read
/// in the order in which they are encoded, and the first that fails gives
/// the error: the name; the code of the record type, which must name a
/// type; the class; the time to live; the length of the data; and as many
/// bytes of data as that length says.
pub open spec fn parse_record(s: Seq<u8>) -> Result<(RecordView, int), DecodeError> {
    match parse_name(s) {
        Err(e) => Err(e),
        Ok((name, at)) => if s.len() < at + 2 {
            Err(DecodeError::TruncatedInput { field: Field::RecordType, offset: at as usize })
        } else {
            match type_of_code(u16_at(s, at)) {
                None => Err(
                    DecodeError::UnknownRecordTypeCode {
                        code: u16_at(s, at),
                        offset: at as usize,
                    },
                ),
                Some(record_type) => if s.len() < at + 4 {
                    Err(
                        DecodeError::TruncatedInput {
                            field: Field::Class,
                            offset: (at + 2) as usize,
                        },
                    )
                } else if s.len() < at + 8 {
                    Err(
                        DecodeError::TruncatedInput {
                            field: Field::Ttl,
                            offset: (at + 4) as usize,
                        },
                    )
                } else if s.len() < at + 10 {
                    Err(
                        DecodeError::TruncatedInput {
                            field: Field::DataLength,
                            offset: (at + 8) as usize,
                        },
                    )
                } else if s.len() < at + 10 + u16_at(s, at + 8) {
                    Err(
                        DecodeError::TruncatedInput {
                            field: Field::Data,
                            offset: (at + 10) as usize,
                        },
                    )
                } else {
                    Ok(
                        (
                            RecordView {
                                name,
                                record_type,
                                class: u16_at(s, at + 2),
                                ttl: u32_at(s, at + 4),
                                length: u16_at(s, at + 8),
                                data: s.subrange(at + 10, at + 10 + u16_at(s, at + 8)),
                            },
                            at + 10 + u16_at(s, at + 8),
                        ),
                    )
                },
            }
        },
    }
}

impl Record {
    /// Whether the stored length is the length of the data.
    pub open spec fn length_agrees(&self) -> bool {
        self.length == self.data@.len()
    }

    /// A record for `name` with the given type and data, in the class of
    /// the Internet, that lives for `ttl` seconds, or for sixty where no
    /// time is given. Its stored length is the length of the data, which
    /// therefore has to fit sixteen bits.
    pub fn new(name: LabelSequence, record_type: RecordType, data: Vec<u8>, ttl: Option<u32>) -> (r:
        Record)
        requires
            data@.len() <= u16::MAX,
        ensures
            r@ == (RecordView {
                name: name@,
                record_type,
                class: 1,
                ttl: ttl_or_default(ttl),
                length: data@.len() as u16,
                data: data@,
            }),
            r.name == name,
            r.data == data,
            r.length_agrees(),
    {
        let seconds = match ttl {
            Some(seconds) => seconds,
            None => DEFAULT_TTL,
        };
        let length = data.len() as u16;
        Record { name, record_type, class: CLASS_INTERNET, ttl: seconds, length, data }
    }

    /// Encodes the record.
    pub fn serialize(&self) -> (bytes: Vec<u8>)
        ensures
            bytes@ == record_bytes(self@),
            bytes@.len() == name_bytes(self.name@).len() + 10 + self.data@.len(),
    {
        let mut buf = buffer::with_capacity(512);
        let name = self.name.serialize();
        buffer::put_slice(&mut buf, name.as_slice());
        buffer::put_u16(&mut buf, self.record_type.value());
        buffer::put_u16(&mut buf, self.class);
        buffer::put_u32(&mut buf, self.ttl);
        buffer::put_u16(&mut buf, self.length);
        buffer::put_slice(&mut buf, self.data.as_slice());
        buffer::to_vec(&buf)
    }

    /// Decodes a record from the front of `data` and returns it with the
    /// input that follows it.
    pub fn deserialize(data: &[u8]) -> (r: Result<(&[u8], Record), DecodeError>)
        ensures
            match parse_record(data@) {
                Ok((record, read)) => {
                    &&& r matches Ok((rest, got))
                    &&& got@ == record
                    &&& got.name.lengths_agree()
                    &&& got.length_agrees()
                    &&& 0 < read <= data@.len()
                    &&& rest@ == data@.skip(read)
                },
                Err(e) => r matches Err(got) && got == e && e.offset() <= data@.len(),
            },
    {
        let (rest, name) = LabelSequence::deserialize(data)?;
        let at = data.len() - rest.len();
        let (rest, code) = read_u16(rest, Field::RecordType, at)?;
        let record_type = match RecordType::from_code(code) {
            Ok(record_type) => record_type,
            Err(_) => {
                return Err(DecodeError::UnknownRecordTypeCode { code, offset: at });
            },
        };
        let (rest, class) = read_u16(rest, Field::Class, at + 2)?;
        let (rest, ttl) = read_u32(rest, Field::Ttl, at + 4)?;
        let (rest, length) = read_u16(rest, Field::DataLength, at + 8)?;
        proof {
            assert(rest@ =~= data@.skip(at + 10));
        }
        let (rest, payload) = read_bytes(length as usize, rest, Field::Data, at + 10)?;
        proof {
            assert(rest@ =~= data@.skip(at + 10 + length));
            assert(payload@ =~= data@.subrange(at + 10, at + 10 + length));
        }
        let data = slice_to_vec(payload);
        Ok((rest, Record { name, record_type, class, ttl, length, data }))
    }
}

/// The fields of fixed width read back from their encoding.
proof fn lemma_fixed_fields(code: u16, class: u16, ttl: u32, length: u16, rest: Seq<u8>)
    ensures
        ({
            let fixed = u16_bytes(code) + u16_bytes(class) + u32_bytes(ttl) + u16_bytes(length)
                + rest;
            &&& fixed.len() == 10 + rest.len()
            &&& u16_at(fixed, 0) == code
            &&& u16_at(fixed, 2) == class
            &&& u32_at(fixed, 4) == ttl
            &&& u16_at(fixed, 8) == length
            &&& fixed.skip(10) == rest
        }),
{
    let a = u16_bytes(code);
    let b = u16_bytes(class);
    let c = u32_bytes(ttl);
    let d = u16_bytes(length);
    let fixed = a + b + c + d + rest;
    lemma_u16_round_trip(code, Seq::empty(), b + c + d + rest);
    assert(fixed =~= Seq::<u8>::empty() + a + (b + c + d + rest));
    lemma_u16_round_trip(class, a, c + d + rest);
    assert(fixed =~= a + b + (c + d + rest));
    lemma_u32_round_trip(ttl, a + b, d + rest);
    assert(fixed =~= a + b + c + (d + rest));
    lemma_u16_round_trip(length, a + b + c, rest);
    assert(fixed.skip(10) =~= rest);
}

/// Decoding the encoding of a record, whatever bytes follow it, gives the
/// record back and leaves exactly the bytes that followed it, provided that
/// its stored length is the length of its data and that its name is one
/// that decodes to itself: each stored length is the length of its text
/// and no label is empty.
pub proof fn lemma_record_round_trip(r: RecordView, tail: Seq<u8>)
    requires
        lengths_agree(r.name),
        no_empty_label(r.name),
        r.length == r.data.len(),
    ensures
        parse_record(record_bytes(r) + tail) == Ok::<(RecordView, int), DecodeError>(
            (r, record_bytes(r).len() as int),
        ),
        (record_bytes(r) + tail).skip(record_bytes(r).len() as int) == tail,
{
    let name = name_bytes(r.name);
    let code = code_of(r.record_type);
    let rest = r.data + tail;
    let fixed = u16_bytes(code) + u16_bytes(r.class) + u32_bytes(r.ttl) + u16_bytes(r.length)
        + rest;
    let s = record_bytes(r) + tail;
    let at = name.len() as int;
    assert(s =~= name + fixed);
    lemma_name_round_trip(r.name, fixed);
    lemma_fixed_fields(code, r.class, r.ttl, r.length, r.data + tail);
    lemma_read_after_prefix(name, fixed, 0);
    lemma_read_after_prefix(name, fixed, 2);
    lemma_read_after_prefix(name, fixed, 4);
    lemma_read_after_prefix(name, fixed, 8);
    lemma_code_mapping(r.record_type, 0);
    assert(s.subrange(at + 10, at + 10 + r.length) =~= r.data) by {
        assert(fixed.skip(10) == r.data + tail);
        assert forall|i: int| 0 <= i < r.data.len() implies s[at + 10 + i] == r.data[i] by {
            assert(s[at + 10 + i] == fixed[10 + i]);
            assert(fixed.skip(10)[i] == fixed[10 + i]);
        }
    }
    assert(record_bytes(r).len() == at + 10 + r.data.len());
    assert(s.skip(record_bytes(r).len() as int) =~= tail);
}

} // verus!
