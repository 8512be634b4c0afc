use dns_codec::{DecodeError, Field, Header};

fn sample() -> Header {
    Header {
        id: 1234,
        query: true,
        op_code: 0,
        authoritative_answer: false,
        truncation: false,
        recursion_desired: false,
        recursion_available: false,
        reserved: 0,
        response_code: 0,
        question_count: 1,
        answer_count: 1,
        authority_count: 0,
        additional_count: 0,
    }
}

fn blank() -> Header {
    Header {
        id: 0,
        query: false,
        op_code: 0,
        authoritative_answer: false,
        truncation: false,
        recursion_desired: false,
        recursion_available: false,
        reserved: 0,
        response_code: 0,
        question_count: 0,
        answer_count: 0,
        authority_count: 0,
        additional_count: 0,
    }
}

#[test]
fn header_encodes_sample_reply() {
    assert_eq!(
        sample().serialize(),
        vec![0x04, 0xD2, 0x80, 0x00, 0x00, 0x01, 0x00, 0x01, 0x00, 0x00, 0x00, 0x00]
    );
}

#[test]
fn header_encoding_is_twelve_bytes() {
    assert_eq!(blank().serialize(), vec![0u8; 12]);
    let full = Header {
        id: 0xFFFF,
        query: true,
        op_code: 0xFF,
        authoritative_answer: true,
        truncation: true,
        recursion_desired: true,
        recursion_available: true,
        reserved: 0xFF,
        response_code: 0xFF,
        question_count: 0xFFFF,
        answer_count: 0xFFFF,
        authority_count: 0xFFFF,
        additional_count: 0xFFFF,
    };
    assert_eq!(full.serialize(), vec![0xFFu8; 12]);
}

#[test]
fn header_places_each_flag_at_its_bit() {
    let word = |h: Header| {
        let bytes = h.serialize();
        (u16::from(bytes[2]) << 8) | u16::from(bytes[3])
    };
    assert_eq!(word(Header { query: true, ..blank() }), 0x8000);
    assert_eq!(word(Header { op_code: 0x0F, ..blank() }), 0x7800);
    assert_eq!(word(Header { op_code: 0x01, ..blank() }), 0x0800);
    assert_eq!(word(Header { authoritative_answer: true, ..blank() }), 0x0400);
    assert_eq!(word(Header { truncation: true, ..blank() }), 0x0200);
    assert_eq!(word(Header { recursion_desired: true, ..blank() }), 0x0100);
    assert_eq!(word(Header { recursion_available: true, ..blank() }), 0x0080);
    assert_eq!(word(Header { reserved: 0x07, ..blank() }), 0x0070);
    assert_eq!(word(Header { reserved: 0x01, ..blank() }), 0x0010);
    assert_eq!(word(Header { response_code: 0x0F, ..blank() }), 0x000F);
}

#[test]
fn header_writes_words_big_endian_in_order() {
    let h = Header {
        id: 0x0102,
        question_count: 0x0304,
        answer_count: 0x0506,
        authority_count: 0x0708,
        additional_count: 0x090A,
        ..blank()
    };
    assert_eq!(h.serialize(), vec![1, 2, 0, 0, 3, 4, 5, 6, 7, 8, 9, 10]);
}

#[test]
fn header_masks_narrow_fields_on_encode() {
    let h = Header { op_code: 0x1F, reserved: 0x0F, response_code: 0x35, ..blank() };
    let bytes = h.serialize();
    assert_eq!(&bytes[2..4], &[0x78, 0x75]);
    let (rest, back) = Header::deserialize(&bytes).unwrap();
    assert!(rest.is_empty());
    assert_eq!(back, Header { op_code: 0x0F, reserved: 0x07, response_code: 0x05, ..blank() });
}

#[test]
fn header_round_trips() {
    let h = Header {
        id: 0xBEEF,
        query: true,
        op_code: 9,
        authoritative_answer: true,
        truncation: false,
        recursion_desired: true,
        recursion_available: false,
        reserved: 5,
        response_code: 11,
        question_count: 2,
        answer_count: 300,
        authority_count: 65535,
        additional_count: 7,
    };
    let bytes = h.serialize();
    assert_eq!(Header::deserialize(&bytes), Ok((&[][..], h)));
    assert_eq!(Header::deserialize(&sample().serialize()), Ok((&[][..], sample())));
}

#[test]
fn header_decode_leaves_what_follows() {
    let mut bytes = sample().serialize();
    bytes.extend_from_slice(&[0xAA, 0xBB, 0xCC]);
    let (rest, h) = Header::deserialize(&bytes).unwrap();
    assert_eq!(h, sample());
    assert_eq!(rest, &[0xAA, 0xBB, 0xCC]);
}

#[test]
fn header_decode_reencodes_to_the_same_bytes() {
    let bytes: Vec<u8> = vec![0x12, 0x34, 0xA5, 0x5A, 0, 9, 0xFF, 0xFE, 1, 2, 3, 4];
    let (_, h) = Header::deserialize(&bytes).unwrap();
    assert_eq!(h.id, 0x1234);
    assert!(h.query);
    assert_eq!(h.op_code, 4);
    assert!(h.authoritative_answer);
    assert!(!h.truncation);
    assert!(h.recursion_desired);
    assert!(!h.recursion_available);
    assert_eq!(h.reserved, 5);
    assert_eq!(h.response_code, 10);
    assert_eq!(h.question_count, 9);
    assert_eq!(h.answer_count, 0xFFFE);
    assert_eq!(h.authority_count, 0x0102);
    assert_eq!(h.additional_count, 0x0304);
    assert_eq!(h.serialize(), bytes);
}

#[test]
fn header_decode_fails_on_short_input() {
    assert_eq!(
        Header::deserialize(&[]),
        Err(DecodeError::TruncatedInput { field: Field::Id, offset: 0 })
    );
    assert_eq!(
        Header::deserialize(&[1]),
        Err(DecodeError::TruncatedInput { field: Field::Id, offset: 0 })
    );
    assert_eq!(
        Header::deserialize(&[1, 2, 3]),
        Err(DecodeError::TruncatedInput { field: Field::Flags, offset: 2 })
    );
    assert_eq!(
        Header::deserialize(&[0; 5]),
        Err(DecodeError::TruncatedInput { field: Field::QuestionCount, offset: 4 })
    );
    assert_eq!(
        Header::deserialize(&[0; 6]),
        Err(DecodeError::TruncatedInput { field: Field::AnswerCount, offset: 6 })
    );
    assert_eq!(
        Header::deserialize(&[0; 9]),
        Err(DecodeError::TruncatedInput { field: Field::AuthorityCount, offset: 8 })
    );
    assert_eq!(
        Header::deserialize(&[0; 11]),
        Err(DecodeError::TruncatedInput { field: Field::AdditionalCount, offset: 10 })
    );
    assert!(Header::deserialize(&[0; 12]).is_ok());
}

#[test]
fn decode_error_reports_its_offset() {
    assert_eq!(DecodeError::TruncatedInput { field: Field::Flags, offset: 2 }.offset(), 2);
    assert_eq!(DecodeError::InvalidLabelEncoding { offset: 7 }.offset(), 7);
    assert_eq!(DecodeError::UnknownRecordTypeCode { code: 17, offset: 9 }.offset(), 9);
}
