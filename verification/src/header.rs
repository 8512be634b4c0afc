//! The twelve-byte message header of RFC 1035, section 4.1.1.

use crate::buffer;
use crate::error::{DecodeError, Field};
use crate::reader::read_u16;
use crate::wire::{lemma_u16_round_trip, u16_at, u16_bytes};
use vstd::prelude::*;

verus! {

/// The header of a message. The three narrow fields hold more bits than
/// the wire has room for: `op_code` and `response_code` have four bits on
/// the wire and `reserved` three, and encoding keeps only those low bits.
#[derive(Debug, Clone, Copy, PartialEq, Eq, Structural)]
pub struct Header {
    /// Identifier that a reply copies from its query.
    pub id: u16,
    /// Set in a reply, clear in a query.
    pub query: bool,
    /// Kind of query; four bits.
    pub op_code: u8,
    /// Set when the responding server is an authority for the name.
    pub authoritative_answer: bool,
    /// Set when the message was cut short.
    pub truncation: bool,
    /// Set when the sender asks for recursive resolution.
    pub recursion_desired: bool,
    /// Set when the server offers recursive resolution.
    pub recursion_available: bool,
    /// Reserved; three bits.
    pub reserved: u8,
    /// Status of the reply; four bits.
    pub response_code: u8,
    /// Number of entries in the question section.
    pub question_count: u16,
    /// Number of records in the answer section.
    pub answer_count: u16,
    /// Number of records in the authority section.
    pub authority_count: u16,
    /// Number of records in the additional section.
    pub additional_count: u16,
}

/// A flag as a number.
pub open spec fn bit(b: bool) -> int {
    if b {
        1
    } else {
        0
    }
}

/// The second word of the header: the reply flag in bit 15, the low four
/// bits of the opcode in bits 11 to 14, one bit each for authoritative
/// answer, truncation, recursion desired and recursion available in bits 10
/// down to 7, the low three bits of the reserved field in bits 4 to 6, and
/// the low four bits of the response code in bits 0 to 3.
pub open spec fn flags_word(h: Header) -> u16 {
    (bit(h.query) * 32768 + (h.op_code % 16) * 2048 + bit(h.authoritative_answer) * 1024 + bit(
        h.truncation,
    ) * 512 + bit(h.recursion_desired) * 256 + bit(h.recursion_available) * 128 + (h.reserved % 8)
        * 16 + h.response_code % 16) as u16
}

/// The twelve bytes of a header: six big-endian words, which are the
/// identifier, the flags and the four counts.
pub open spec fn header_bytes(h: Header) -> Seq<u8> {
    u16_bytes(h.id) + u16_bytes(flags_word(h)) + u16_bytes(h.question_count) + u16_bytes(
        h.answer_count,
    ) + u16_bytes(h.authority_count) + u16_bytes(h.additional_count)
}

/// The header that six words spell.
pub open spec fn header_of_words(
    id: u16,
    flags: u16,
    question_count: u16,
    answer_count: u16,
    authority_count: u16,
    additional_count: u16,
) -> Header {
    Header {
        id,
        query: flags / 32768 == 1,
        op_code: ((flags / 2048) % 16) as u8,
        authoritative_answer: (flags / 1024) % 2 == 1,
        truncation: (flags / 512) % 2 == 1,
        recursion_desired: (flags / 256) % 2 == 1,
        recursion_available: (flags / 128) % 2 == 1,
        reserved: ((flags / 16) % 8) as u8,
        response_code: (flags % 16) as u8,
        question_count,
        answer_count,
        authority_count,
        additional_count,
    }
}

/// The field that the `index`-th word of the header holds.
pub open spec fn word_field(index: int) -> Field {
    if index == 0 {
        Field::Id
    } else if index == 1 {
        Field::Flags
    } else if index == 2 {
        Field::QuestionCount
    } else if index == 3 {
        Field::AnswerCount
    } else if index == 4 {
        Field::AuthorityCount
    } else {
        Field::AdditionalCount
    }
}

/// What decoding a header from the front of `s` gives: from twelve bytes or
/// more, the header that the first six words spell and the count of bytes
/// read, which is twelve; from fewer, a truncation error at the first word
/// that is not whole.
pub open spec fn parse_header(s: Seq<u8>) -> Result<(Header, int), DecodeError> {
    if s.len() >= 12 {
        Ok(
            (
                header_of_words(
                    u16_at(s, 0),
                    u16_at(s, 2),
                    u16_at(s, 4),
                    u16_at(s, 6),
                    u16_at(s, 8),
                    u16_at(s, 10),
                ),
                12,
            ),
        )
    } else {
        Err(
            DecodeError::TruncatedInput {
                field: word_field(s.len() as int / 2),
                offset: (s.len() as int / 2 * 2) as usize,
            },
        )
    }
}

impl Header {
    /// Whether every narrow field fits the bits it has on the wire.
    pub open spec fn fits(self) -> bool {
        self.op_code < 16 && self.reserved < 8 && self.response_code < 16
    }

    /// The same header with each narrow field cut down to the bits it has
    /// on the wire.
    pub open spec fn masked(self) -> Header {
        Header {
            op_code: self.op_code % 16,
            reserved: self.reserved % 8,
            response_code: self.response_code % 16,
            ..self
        }
    }

    /// Encodes the header as its twelve bytes.
    pub fn serialize(&self) -> (bytes: Vec<u8>)
        ensures
            bytes@ == header_bytes(*self),
            bytes@.len() == 12,
    {
        let mut buf = buffer::with_capacity(96);
        buffer::put_u16(&mut buf, self.id);

        let query: u16 = if self.query { 1 } else { 0 };
        let authoritative_answer: u16 = if self.authoritative_answer { 1 } else { 0 };
        let truncation: u16 = if self.truncation { 1 } else { 0 };
        let recursion_desired: u16 = if self.recursion_desired { 1 } else { 0 };
        let recursion_available: u16 = if self.recursion_available { 1 } else { 0 };
        let op_code: u16 = self.op_code as u16;
        let reserved: u16 = self.reserved as u16;
        let response_code: u16 = self.response_code as u16;
        let flags: u16 = (query << 15)
            | ((op_code & 0x0F) << 11)
            | (authoritative_answer << 10)
            | (truncation << 9)
            | (recursion_desired << 8)
            | (recursion_available << 7)
            | ((reserved & 0x07) << 4)
            | (response_code & 0x0F);
        proof {
            lemma_pack(
                query,
                op_code,
                authoritative_answer,
                truncation,
                recursion_desired,
                recursion_available,
                reserved,
                response_code,
            );
            assert(flags == flags_word(*self));
        }
        buffer::put_u16(&mut buf, flags);

        buffer::put_u16(&mut buf, self.question_count);
        buffer::put_u16(&mut buf, self.answer_count);
        buffer::put_u16(&mut buf, self.authority_count);
        buffer::put_u16(&mut buf, self.additional_count);

        buffer::to_vec(&buf)
    }

    /// Decodes a header from the front of `data` and returns it with the
    /// input that follows it.
    pub fn deserialize(data: &[u8]) -> (r: Result<(&[u8], Header), DecodeError>)
        ensures
            match parse_header(data@) {
                Ok((header, read)) => r matches Ok((rest, got)) && got == header && rest@
                    == data@.skip(read),
                Err(e) => r matches Err(got) && got == e,
            },
    {
        let (rest, id) = read_u16(data, Field::Id, 0)?;
        let (rest, flags) = read_u16(rest, Field::Flags, 2)?;
        let (rest, question_count) = read_u16(rest, Field::QuestionCount, 4)?;
        let (rest, answer_count) = read_u16(rest, Field::AnswerCount, 6)?;
        let (rest, authority_count) = read_u16(rest, Field::AuthorityCount, 8)?;
        let (rest, additional_count) = read_u16(rest, Field::AdditionalCount, 10)?;

        let query = (flags >> 15) & 0x01 != 0;
        let op_code = ((flags >> 11) & 0x0F) as u8;
        let authoritative_answer = (flags >> 10) & 0x01 != 0;
        let truncation = (flags >> 9) & 0x01 != 0;
        let recursion_desired = (flags >> 8) & 0x01 != 0;
        let recursion_available = (flags >> 7) & 0x01 != 0;
        let reserved = ((flags >> 4) & 0x07) as u8;
        let response_code = (flags & 0x0F) as u8;
        proof {
            lemma_unpack(flags);
        }

        Ok(
            (
                rest,
                Header {
                    id,
                    query,
                    op_code,
                    authoritative_answer,
                    truncation,
                    recursion_desired,
                    recursion_available,
                    reserved,
                    response_code,
                    question_count,
                    answer_count,
                    authority_count,
                    additional_count,
                },
            ),
        )
    }
}

/// Shifting the eight fields into place and joining them gives the sum
/// that `flags_word` states.
proof fn lemma_pack(q: u16, op: u16, aa: u16, tc: u16, rd: u16, ra: u16, z: u16, rc: u16)
    by (bit_vector)
    requires
        q <= 1,
        aa <= 1,
        tc <= 1,
        rd <= 1,
        ra <= 1,
        op <= 255,
        z <= 255,
        rc <= 255,
    ensures
        ((q << 15) | ((op & 0x0F) << 11) | (aa << 10) | (tc << 9) | (rd << 8) | (ra << 7) | ((z
            & 0x07) << 4) | (rc & 0x0F)) == q * 32768 + (op % 16) * 2048 + aa * 1024 + tc * 512
            + rd * 256 + ra * 128 + (z % 8) * 16 + rc % 16,
{
}

/// Shifting and masking a flags word gives the quotients and remainders
/// that `header_of_words` states.
proof fn lemma_unpack(w: u16)
    by (bit_vector)
    ensures
        ((w >> 15) & 0x01 != 0) == (w / 32768 == 1),
        (w >> 11) & 0x0F == (w / 2048) % 16,
        ((w >> 10) & 0x01 != 0) == ((w / 1024) % 2 == 1),
        ((w >> 9) & 0x01 != 0) == ((w / 512) % 2 == 1),
        ((w >> 8) & 0x01 != 0) == ((w / 256) % 2 == 1),
        ((w >> 7) & 0x01 != 0) == ((w / 128) % 2 == 1),
        (w >> 4) & 0x07 == (w / 16) % 8,
        w & 0x0F == w % 16,
{
}

/// The flags word of a header spells the header's flags and the low bits
/// of its narrow fields.
proof fn lemma_flags_round_trip(h: Header)
    ensures
        header_of_words(
            h.id,
            flags_word(h),
            h.question_count,
            h.answer_count,
            h.authority_count,
            h.additional_count,
        ) == h.masked(),
{
    let q: u16 = if h.query { 1 } else { 0 };
    let aa: u16 = if h.authoritative_answer { 1 } else { 0 };
    let tc: u16 = if h.truncation { 1 } else { 0 };
    let rd: u16 = if h.recursion_desired { 1 } else { 0 };
    let ra: u16 = if h.recursion_available { 1 } else { 0 };
    let op: u16 = h.op_code as u16;
    let z: u16 = h.reserved as u16;
    let rc: u16 = h.response_code as u16;
    let w: u16 = (q << 15) | ((op & 0x0F) << 11) | (aa << 10) | (tc << 9) | (rd << 8) | (ra << 7)
        | ((z & 0x07) << 4) | (rc & 0x0F);
    lemma_pack(q, op, aa, tc, rd, ra, z, rc);
    assert(w == flags_word(h));
    lemma_unpack(w);
    assert({
        &&& (w >> 15) & 0x01 == q
        &&& (w >> 11) & 0x0F == op % 16
        &&& (w >> 10) & 0x01 == aa
        &&& (w >> 9) & 0x01 == tc
        &&& (w >> 8) & 0x01 == rd
        &&& (w >> 7) & 0x01 == ra
        &&& (w >> 4) & 0x07 == z % 8
        &&& w & 0x0F == rc % 16
    }) by (bit_vector)
        requires
            w == (q << 15) | ((op & 0x0F) << 11) | (aa << 10) | (tc << 9) | (rd << 8) | (ra << 7)
                | ((z & 0x07) << 4) | (rc & 0x0F),
            q <= 1,
            aa <= 1,
            tc <= 1,
            rd <= 1,
            ra <= 1,
            op <= 255,
            z <= 255,
            rc <= 255,
    ;
}

/// The six words of a header stand in its encoding at the even offsets.
proof fn lemma_header_words(h: Header, tail: Seq<u8>)
    ensures
        header_bytes(h).len() == 12,
        ({
            let s = header_bytes(h) + tail;
            &&& u16_at(s, 0) == h.id
            &&& u16_at(s, 2) == flags_word(h)
            &&& u16_at(s, 4) == h.question_count
            &&& u16_at(s, 6) == h.answer_count
            &&& u16_at(s, 8) == h.authority_count
            &&& u16_at(s, 10) == h.additional_count
        }),
{
    let a = u16_bytes(h.id);
    let b = u16_bytes(flags_word(h));
    let c = u16_bytes(h.question_count);
    let d = u16_bytes(h.answer_count);
    let e = u16_bytes(h.authority_count);
    let f = u16_bytes(h.additional_count);
    let s = header_bytes(h) + tail;
    let none = Seq::<u8>::empty();
    lemma_u16_round_trip(h.id, none, b + c + d + e + f + tail);
    lemma_u16_round_trip(flags_word(h), a, c + d + e + f + tail);
    lemma_u16_round_trip(h.question_count, a + b, d + e + f + tail);
    lemma_u16_round_trip(h.answer_count, a + b + c, e + f + tail);
    lemma_u16_round_trip(h.authority_count, a + b + c + d, f + tail);
    lemma_u16_round_trip(h.additional_count, a + b + c + d + e, tail);
    assert(s =~= none + a + (b + c + d + e + f + tail));
    assert(s =~= a + b + (c + d + e + f + tail));
    assert(s =~= a + b + c + (d + e + f + tail));
    assert(s =~= a + b + c + d + (e + f + tail));
    assert(s =~= a + b + c + d + e + (f + tail));
    assert(s =~= a + b + c + d + e + f + tail);
}

/// Decoding the encoding of a header, whatever bytes follow it, reads
/// twelve bytes and gives the header with each narrow field cut down to
/// the bits it has on the wire.
pub proof fn lemma_header_decode_encode(h: Header, tail: Seq<u8>)
    ensures
        header_bytes(h).len() == 12,
        parse_header(header_bytes(h) + tail) == Ok::<(Header, int), DecodeError>((h.masked(), 12)),
{
    lemma_header_words(h, tail);
    lemma_flags_round_trip(h);
}

/// Decoding the encoding of a header whose narrow fields fit the wire gives
/// the same header back and leaves exactly the bytes that followed it.
pub proof fn lemma_header_round_trip(h: Header, tail: Seq<u8>)
    requires
        h.fits(),
    ensures
        parse_header(header_bytes(h) + tail) == Ok::<(Header, int), DecodeError>((h, 12)),
        (header_bytes(h) + tail).skip(12) == tail,
{
    lemma_header_decode_encode(h, tail);
    assert(h.masked() == h);
    assert((header_bytes(h) + tail).skip(12) =~= tail);
}

/// Encoding a decoded header gives back the twelve bytes it was decoded
/// from, and a decoded header always fits the wire.
pub proof fn lemma_header_encode_decode(s: Seq<u8>)
    requires
        s.len() >= 12,
    ensures
        parse_header(s) matches Ok((h, read)) && read == 12 && h.fits() && header_bytes(h)
            == s.take(12),
{
    let h = parse_header(s)->Ok_0.0;
    let w = u16_at(s, 2);
    assert(flags_word(h) == w) by {
        let q: u16 = if h.query { 1 } else { 0 };
        let aa: u16 = if h.authoritative_answer { 1 } else { 0 };
        let tc: u16 = if h.truncation { 1 } else { 0 };
        let rd: u16 = if h.recursion_desired { 1 } else { 0 };
        let ra: u16 = if h.recursion_available { 1 } else { 0 };
        let op: u16 = h.op_code as u16;
        let z: u16 = h.reserved as u16;
        let rc: u16 = h.response_code as u16;
        lemma_unpack(w);
        lemma_pack(q, op, aa, tc, rd, ra, z, rc);
        assert({
            &&& (w >> 15) & 0x01 <= 1
            &&& (w >> 10) & 0x01 <= 1
            &&& (w >> 9) & 0x01 <= 1
            &&& (w >> 8) & 0x01 <= 1
            &&& (w >> 7) & 0x01 <= 1
        }) by (bit_vector);
        assert(w == (q << 15) | ((op & 0x0F) << 11) | (aa << 10) | (tc << 9) | (rd << 8) | (ra
            << 7) | ((z & 0x07) << 4) | (rc & 0x0F)) by (bit_vector)
            requires
                q == (w >> 15) & 0x01,
                op == (w >> 11) & 0x0F,
                aa == (w >> 10) & 0x01,
                tc == (w >> 9) & 0x01,
                rd == (w >> 8) & 0x01,
                ra == (w >> 7) & 0x01,
                z == (w >> 4) & 0x07,
                rc == w & 0x0F,
        ;
    }
    crate::wire::lemma_u16_bytes_of_read(s, 0);
    crate::wire::lemma_u16_bytes_of_read(s, 2);
    crate::wire::lemma_u16_bytes_of_read(s, 4);
    crate::wire::lemma_u16_bytes_of_read(s, 6);
    crate::wire::lemma_u16_bytes_of_read(s, 8);
    crate::wire::lemma_u16_bytes_of_read(s, 10);
    assert(header_bytes(h) =~= s.take(12));
}

} // verus!
