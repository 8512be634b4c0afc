//! The reply that the server gives to every query: an answer for one fixed
//! name, under a header made from the query's.

use crate::buffer;
use crate::error::{DecodeError, LabelError};
use crate::header::{header_bytes, parse_header, Header};
use crate::label::{labels_of, texts_of, too_long, Label, LabelSequence};
use crate::question::{question_bytes, Question, QuestionView};
use crate::record::{record_bytes, Record, RecordView};
use crate::record_type::RecordType;
use vstd::prelude::*;
use vstd::utf8::{encode_utf8, is_ascii_chars, is_ascii_chars_encode_utf8};

verus! {

/// Why no reply could be made.
#[derive(Debug, PartialEq, Eq)]
pub enum ResponseError {
    /// The query does not begin with a whole header.
    MalformedHeader(DecodeError),
    /// The name to answer for could not be built.
    InvalidName(LabelError),
}

/// The header of the reply to a query: the query's identifier, opcode and
/// wish for recursion; the reply flag set and every other flag clear; no
/// error for a standard query and "not implemented" for any other; one
/// question and one answer.
pub open spec fn reply_header(query: Header) -> Header {
    Header {
        id: query.id,
        query: true,
        op_code: query.op_code,
        authoritative_answer: false,
        truncation: false,
        recursion_desired: query.recursion_desired,
        recursion_available: false,
        reserved: 0,
        response_code: if query.op_code == 0 {
            0
        } else {
            4
        },
        question_count: 1,
        answer_count: 1,
        authority_count: 0,
        additional_count: 0,
    }
}

/// The name that every reply answers for.
pub open spec fn answered_name() -> Seq<Label> {
    seq![("codecrafters"@, 12u8), ("io"@, 2u8)]
}

/// The question that every reply repeats.
pub open spec fn answered_question() -> QuestionView {
    QuestionView { name: answered_name(), record_type: RecordType::A, class: 1 }
}

/// The answer that every reply gives: the address 8.8.8.8, good for a
/// minute.
pub open spec fn given_answer() -> RecordView {
    RecordView {
        name: answered_name(),
        record_type: RecordType::A,
        class: 1,
        ttl: 60,
        length: 4,
        data: seq![8u8, 8u8, 8u8, 8u8],
    }
}

/// A message of one question and one answer: the given header, the
/// answered question and the given answer, one after the other.
pub open spec fn message_bytes(header: Header) -> Seq<u8> {
    header_bytes(header) + question_bytes(answered_question()) + record_bytes(given_answer())
}

/// The reply to a query with the given header.
pub open spec fn response_bytes(query: Header) -> Seq<u8> {
    message_bytes(reply_header(query))
}

/// The header of the sample reply: identifier 1234, the reply flag, one
/// question and one answer, and nothing else set.
pub open spec fn sample_header() -> Header {
    Header {
        id: 1234,
        query: true,
        op_code: 0,
        authoritative_answer: false,
        truncation: false,
        recursion_desired: false,
        recursion_available: false,
        reserved: 0,
        response_code: 0,
        question_count: 1,
        answer_count: 1,
        authority_count: 0,
        additional_count: 0,
    }
}

/// The two texts of the answered name are short, and the labels made from
/// them are the answered name.
proof fn lemma_answered_name(first: Seq<char>, second: Seq<char>)
    requires
        first == "codecrafters"@,
        second == "io"@,
    ensures
        !too_long(first),
        !too_long(second),
        labels_of(seq![first, second]) == answered_name(),
{
    reveal_strlit("codecrafters");
    reveal_strlit("io");
    assert(is_ascii_chars(first));
    assert(is_ascii_chars(second));
    is_ascii_chars_encode_utf8(first);
    is_ascii_chars_encode_utf8(second);
    assert(encode_utf8(first).len() == 12);
    assert(encode_utf8(second).len() == 2);
    assert(labels_of(seq![first, second]) =~= answered_name());
}

/// Puts together the message that has the given header, the answered
/// question and the given answer. It never fails: the name it is built on
/// is a good one.
pub fn message(header: &Header) -> (r: Result<Vec<u8>, ResponseError>)
    ensures
        r matches Ok(bytes) && bytes@ == message_bytes(*header),
{
    let mut texts: Vec<String> = Vec::new();
    texts.push("codecrafters".to_owned());
    texts.push("io".to_owned());
    proof {
        lemma_answered_name(texts@[0]@, texts@[1]@);
        assert(texts_of(texts@) =~= seq![texts@[0]@, texts@[1]@]);
    }
    let label_sequence = match LabelSequence::new(texts) {
        Ok(name) => name,
        Err(e) => {
            return Err(ResponseError::InvalidName(e));
        },
    };

    let question = Question::new(label_sequence.clone(), RecordType::A);
    let mut address: Vec<u8> = Vec::new();
    address.push(8);
    address.push(8);
    address.push(8);
    address.push(8);
    let answer = Record::new(label_sequence, RecordType::A, address, None);
    proof {
        assert(answer@.data =~= given_answer().data);
    }

    let mut out = buffer::with_capacity(512);
    buffer::put_slice(&mut out, header.serialize().as_slice());
    buffer::put_slice(&mut out, question.serialize().as_slice());
    buffer::put_slice(&mut out, answer.serialize().as_slice());
    Ok(buffer::to_vec(&out))
}

/// Makes the reply to the query in `buf`, of which only the header is
/// read. Fails exactly when `buf` does not begin with a whole header.
pub fn response(buf: &[u8]) -> (r: Result<Vec<u8>, ResponseError>)
    ensures
        match parse_header(buf@) {
            Ok((query, _)) => r matches Ok(bytes) && bytes@ == response_bytes(query),
            Err(e) => r matches Err(ResponseError::MalformedHeader(got)) && got == e,
        },
{
    let query = match Header::deserialize(buf) {
        Ok((_, query)) => query,
        Err(e) => {
            return Err(ResponseError::MalformedHeader(e));
        },
    };
    let output_header = Header {
        id: query.id,
        query: true,
        op_code: query.op_code,
        authoritative_answer: false,
        truncation: false,
        recursion_desired: query.recursion_desired,
        recursion_available: false,
        reserved: 0,
        response_code: if query.op_code == 0 {
            0
        } else {
            4
        },
        question_count: 1,
        answer_count: 1,
        authority_count: 0,
        additional_count: 0,
    };
    message(&output_header)
}

/// Makes the sample reply: the message under the sample header.
pub fn sample_response() -> (r: Result<Vec<u8>, ResponseError>)
    ensures
        r matches Ok(bytes) && bytes@ == message_bytes(sample_header()),
{
    let header = Header {
        id: 1234,
        query: true,
        op_code: 0,
        authoritative_answer: false,
        truncation: false,
        recursion_desired: false,
        recursion_available: false,
        reserved: 0,
        response_code: 0,
        question_count: 1,
        answer_count: 1,
        authority_count: 0,
        additional_count: 0,
    };
    message(&header)
}

} // verus!
