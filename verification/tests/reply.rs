use dns_codec::{
    message, response, sample_response, DecodeError, Field, Header, Question, Record,
    ResponseError,
};

fn query(id: u16, op_code: u8, recursion_desired: bool) -> Vec<u8> {
    let header = Header {
        id,
        query: false,
        op_code,
        authoritative_answer: true,
        truncation: true,
        recursion_desired,
        recursion_available: true,
        reserved: 3,
        response_code: 9,
        question_count: 5,
        answer_count: 6,
        authority_count: 7,
        additional_count: 8,
    };
    let mut bytes = header.serialize();
    bytes.resize(512, 0);
    bytes
}

#[test]
fn reply_to_a_standard_query_is_exact() {
    let reply = response(&query(1234, 0, false)).unwrap();
    let expected: Vec<u8> = vec![
        0x04, 0xD2, 0x80, 0x00, 0x00, 0x01, 0x00, 0x01, 0x00, 0x00, 0x00, 0x00, // header
        0x0C, 0x63, 0x6F, 0x64, 0x65, 0x63, 0x72, 0x61, 0x66, 0x74, 0x65, 0x72, 0x73, 0x02,
        0x69, 0x6F, 0x00, 0x00, 0x01, 0x00, 0x01, // question
        0x0C, 0x63, 0x6F, 0x64, 0x65, 0x63, 0x72, 0x61, 0x66, 0x74, 0x65, 0x72, 0x73, 0x02,
        0x69, 0x6F, 0x00, 0x00, 0x01, 0x00, 0x01, 0x00, 0x00, 0x00, 0x3C, 0x00, 0x04, 0x08,
        0x08, 0x08, 0x08, // answer
    ];
    assert_eq!(reply, expected);
}

#[test]
fn reply_decodes_into_its_three_parts() {
    let reply = response(&query(0xABCD, 0, true)).unwrap();
    let (rest, header) = Header::deserialize(&reply).unwrap();
    assert_eq!(header.id, 0xABCD);
    assert!(header.query);
    assert_eq!(header.op_code, 0);
    assert!(!header.authoritative_answer);
    assert!(!header.truncation);
    assert!(header.recursion_desired);
    assert!(!header.recursion_available);
    assert_eq!(header.reserved, 0);
    assert_eq!(header.response_code, 0);
    assert_eq!(header.question_count, 1);
    assert_eq!(header.answer_count, 1);
    assert_eq!(header.authority_count, 0);
    assert_eq!(header.additional_count, 0);
    let (rest, question) = Question::deserialize(rest).unwrap();
    assert_eq!(question.class, 1);
    assert_eq!(question.name.labels.len(), 2);
    let (rest, answer) = Record::deserialize(rest).unwrap();
    assert_eq!(answer.name, question.name);
    assert_eq!(answer.ttl, 60);
    assert_eq!(answer.data, vec![8, 8, 8, 8]);
    assert!(rest.is_empty());
}

#[test]
fn reply_to_another_opcode_says_not_implemented() {
    let reply = response(&query(7, 2, true)).unwrap();
    let (_, header) = Header::deserialize(&reply).unwrap();
    assert_eq!(header.id, 7);
    assert_eq!(header.op_code, 2);
    assert_eq!(header.response_code, 4);
    assert_eq!(&reply[..4], &[0x00, 0x07, 0x91, 0x04]);
}

#[test]
fn no_reply_to_a_query_without_a_header() {
    assert_eq!(
        response(&[0; 11]),
        Err(ResponseError::MalformedHeader(DecodeError::TruncatedInput {
            field: Field::AdditionalCount,
            offset: 10,
        }))
    );
    assert_eq!(
        response(&[]),
        Err(ResponseError::MalformedHeader(DecodeError::TruncatedInput {
            field: Field::Id,
            offset: 0,
        }))
    );
}

#[test]
fn sample_reply_is_the_reply_to_query_1234() {
    assert_eq!(sample_response(), response(&query(1234, 0, false)));
    let reply = sample_response().unwrap();
    assert_eq!(reply.len(), 12 + 21 + 31);
    assert_eq!(&reply[..12], &[0x04, 0xD2, 0x80, 0, 0, 1, 0, 1, 0, 0, 0, 0]);
}

#[test]
fn message_starts_with_the_given_header() {
    let (header, _) = {
        let bytes = query(9, 3, true);
        let (_, header) = Header::deserialize(&bytes).unwrap();
        (header, bytes)
    };
    let bytes = message(&header).unwrap();
    assert_eq!(&bytes[..12], &header.serialize()[..]);
    assert_eq!(&bytes[12..], &sample_response().unwrap()[12..]);
}
