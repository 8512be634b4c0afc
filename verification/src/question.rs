//! Entries of the question section, RFC 1035, section 4.1.2.

use crate::buffer;
use crate::error::{DecodeError, Field};
use crate::label::{
    lemma_name_round_trip, lengths_agree, name_bytes, no_empty_label, parse_name, Label,
    LabelSequence,
};
use crate::reader::read_u16;
use crate::record_type::{code_of, lemma_code_mapping, type_of_code, RecordType};
use crate::wire::{lemma_u16_round_trip, u16_at, u16_bytes};
use vstd::prelude::*;

verus! {

/// The class of the Internet, the only class that this library writes of
/// its own accord.
pub const CLASS_INTERNET: u16 = 1;

/// A question: the name asked about, the type of record asked for, and the
/// class.
#[derive(Debug, PartialEq, Eq)]
pub struct Question {
    pub name: LabelSequence,
    pub record_type: RecordType,
    pub class: u16,
}

/// A question as the contracts see it.
pub struct QuestionView {
    pub name: Seq<Label>,
    pub record_type: RecordType,
    pub class: u16,
}

impl View for Question {
    type V = QuestionView;

    open spec fn view(&self) -> QuestionView {
        QuestionView { name: self.name@, record_type: self.record_type, class: self.class }
    }
}

/// The encoding of a question: the name, then the code of the record type
/// and the class as big-endian 16-bit integers.
pub open spec fn question_bytes(q: QuestionView) -> Seq<u8> {
    name_bytes(q.name) + u16_bytes(code_of(q.record_type)) + u16_bytes(q.class)
}

/// What decoding a question from the front of `s` gives. The name is
/// decoded first and its error is the question's. The two bytes after the
/// name are the code of the record type: truncation if they are not there,
/// an unknown-code error if the code names no type. The two bytes after
/// those are the class, taken as it is: truncation if they are not there.
pub open spec fn parse_question(s: Seq<u8>) -> Result<(QuestionView, int), DecodeError> {
    match parse_name(s) {
        Err(e) => Err(e),
        Ok((name, at)) => if s.len() < at + 2 {
            Err(DecodeError::TruncatedInput { field: Field::RecordType, offset: at as usize })
        } else {
            match type_of_code(u16_at(s, at)) {
                None => Err(
                    DecodeError::UnknownRecordTypeCode {
                        code: u16_at(s, at),
                        offset: at as usize,
                    },
                ),
                Some(record_type) => if s.len() < at + 4 {
                    Err(
                        DecodeError::TruncatedInput {
                            field: Field::Class,
                            offset: (at + 2) as usize,
                        },
                    )
                } else {
                    Ok((QuestionView { name, record_type, class: u16_at(s, at + 2) }, at + 4))
                },
            }
        },
    }
}

impl Question {
    /// A question about `name` for records of the given type, in the class
    /// of the Internet.
    pub fn new(name: LabelSequence, record_type: RecordType) -> (q: Question)
        ensures
            q@ == (QuestionView { name: name@, record_type, class: 1 }),
            q.name == name,
    {
        Question { name, record_type, class: CLASS_INTERNET }
    }

    /// Encodes the question.
    pub fn serialize(&self) -> (bytes: Vec<u8>)
        ensures
            bytes@ == question_bytes(self@),
    {
        let mut buf = buffer::with_capacity(512);
        let name = self.name.serialize();
        buffer::put_slice(&mut buf, name.as_slice());
        buffer::put_u16(&mut buf, self.record_type.value());
        buffer::put_u16(&mut buf, self.class);
        buffer::to_vec(&buf)
    }

    /// Decodes a question from the front of `data` and returns it with the
    /// input that follows it.
    pub fn deserialize(data: &[u8]) -> (r: Result<(&[u8], Question), DecodeError>)
        ensures
            match parse_question(data@) {
                Ok((question, read)) => {
                    &&& r matches Ok((rest, got))
                    &&& got@ == question
                    &&& got.name.lengths_agree()
                    &&& 0 < read <= data@.len()
                    &&& rest@ == data@.skip(read)
                },
                Err(e) => r matches Err(got) && got == e && e.offset() <= data@.len(),
            },
    {
        let (rest, name) = LabelSequence::deserialize(data)?;
        let at = data.len() - rest.len();
        let (rest, code) = read_u16(rest, Field::RecordType, at)?;
        let record_type = match RecordType::from_code(code) {
            Ok(record_type) => record_type,
            Err(_) => {
                return Err(DecodeError::UnknownRecordTypeCode { code, offset: at });
            },
        };
        let (rest, class) = read_u16(rest, Field::Class, at + 2)?;
        proof {
            assert(rest@ =~= data@.skip(at + 4));
        }
        Ok((rest, Question { name, record_type, class }))
    }
}

/// Decoding the encoding of a question, whatever bytes follow it, gives
/// the question back and leaves exactly the bytes that followed it,
/// provided that its name is one that decodes to itself: each stored
/// length is the length of its text and no label is empty.
pub proof fn lemma_question_round_trip(q: QuestionView, tail: Seq<u8>)
    requires
        lengths_agree(q.name),
        no_empty_label(q.name),
    ensures
        parse_question(question_bytes(q) + tail) == Ok::<(QuestionView, int), DecodeError>(
            (q, question_bytes(q).len() as int),
        ),
        (question_bytes(q) + tail).skip(question_bytes(q).len() as int) == tail,
{
    let name = name_bytes(q.name);
    let code = u16_bytes(code_of(q.record_type));
    let class = u16_bytes(q.class);
    let s = question_bytes(q) + tail;
    lemma_name_round_trip(q.name, code + class + tail);
    assert(s =~= name + (code + class + tail));
    lemma_u16_round_trip(code_of(q.record_type), name, class + tail);
    assert(s =~= name + code + (class + tail));
    lemma_u16_round_trip(q.class, name + code, tail);
    assert(s =~= name + code + class + tail);
    lemma_code_mapping(q.record_type, 0);
    assert(s.skip(question_bytes(q).len() as int) =~= tail);
}

} // verus!
