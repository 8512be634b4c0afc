use dns_codec::{DecodeError, Field, LabelSequence, Question, Record, RecordType};

fn name(items: &[&str]) -> LabelSequence {
    LabelSequence::new(items.iter().map(|s| s.to_string()).collect()).unwrap()
}

const CODECRAFTERS_IO: [u8; 17] = [
    0x0C, 0x63, 0x6F, 0x64, 0x65, 0x63, 0x72, 0x61, 0x66, 0x74, 0x65, 0x72, 0x73, 0x02, 0x69,
    0x6F, 0x00,
];

#[test]
fn question_is_made_in_the_internet_class() {
    let q = Question::new(name(&["codecrafters", "io"]), RecordType::MX);
    assert_eq!(q.name, name(&["codecrafters", "io"]));
    assert_eq!(q.record_type, RecordType::MX);
    assert_eq!(q.class, 1);
}

#[test]
fn question_encodes_name_type_and_class() {
    let q = Question::new(name(&["codecrafters", "io"]), RecordType::A);
    let mut expected = CODECRAFTERS_IO.to_vec();
    expected.extend_from_slice(&[0x00, 0x01, 0x00, 0x01]);
    assert_eq!(q.serialize(), expected);
}

#[test]
fn question_encodes_type_and_class_big_endian() {
    let q = Question { name: name(&[]), record_type: RecordType::TXT, class: 0x0203 };
    assert_eq!(q.serialize(), vec![0, 0x00, 0x10, 0x02, 0x03]);
}

#[test]
fn question_round_trips() {
    let q = Question::new(name(&["www", "example", "com"]), RecordType::CNAME);
    let bytes = q.serialize();
    assert_eq!(Question::deserialize(&bytes), Ok((&[][..], q)));
}

#[test]
fn question_decode_keeps_any_class() {
    let bytes = [1, b'a', 0, 0x00, 0x0F, 0xAB, 0xCD, 0x77];
    let (rest, q) = Question::deserialize(&bytes).unwrap();
    assert_eq!(rest, &[0x77]);
    assert_eq!(q, Question { name: name(&["a"]), record_type: RecordType::MX, class: 0xABCD });
}

#[test]
fn question_decode_fails_on_unknown_type_code() {
    assert_eq!(
        Question::deserialize(&[1, b'a', 0, 0x00, 0x00, 0x00, 0x01]),
        Err(DecodeError::UnknownRecordTypeCode { code: 0, offset: 3 })
    );
    assert_eq!(
        Question::deserialize(&[1, b'a', 0, 0x00, 0x11, 0x00, 0x01]),
        Err(DecodeError::UnknownRecordTypeCode { code: 17, offset: 3 })
    );
    assert_eq!(
        Question::deserialize(&[0, 0x01, 0x01, 0x00, 0x01]),
        Err(DecodeError::UnknownRecordTypeCode { code: 257, offset: 1 })
    );
}

#[test]
fn question_decode_checks_the_type_before_reading_the_class() {
    assert_eq!(
        Question::deserialize(&[0, 0x00, 0x11]),
        Err(DecodeError::UnknownRecordTypeCode { code: 17, offset: 1 })
    );
}

#[test]
fn question_decode_fails_on_short_input() {
    assert_eq!(
        Question::deserialize(&[1, b'a']),
        Err(DecodeError::TruncatedInput { field: Field::LabelLength, offset: 2 })
    );
    assert_eq!(
        Question::deserialize(&[1, b'a', 0]),
        Err(DecodeError::TruncatedInput { field: Field::RecordType, offset: 3 })
    );
    assert_eq!(
        Question::deserialize(&[1, b'a', 0, 0]),
        Err(DecodeError::TruncatedInput { field: Field::RecordType, offset: 3 })
    );
    assert_eq!(
        Question::deserialize(&[1, b'a', 0, 0, 1]),
        Err(DecodeError::TruncatedInput { field: Field::Class, offset: 5 })
    );
    assert_eq!(
        Question::deserialize(&[1, b'a', 0, 0, 1, 0]),
        Err(DecodeError::TruncatedInput { field: Field::Class, offset: 5 })
    );
}

#[test]
fn question_decode_passes_on_a_name_error() {
    assert_eq!(
        Question::deserialize(&[2, 0xFF, 0xFF, 0, 0, 1, 0, 1]),
        Err(DecodeError::InvalidLabelEncoding { offset: 1 })
    );
}

#[test]
fn record_defaults_to_sixty_seconds() {
    let r = Record::new(name(&["codecrafters", "io"]), RecordType::A, vec![8, 8, 8, 8], None);
    assert_eq!(r.name, name(&["codecrafters", "io"]));
    assert_eq!(r.record_type, RecordType::A);
    assert_eq!(r.class, 1);
    assert_eq!(r.ttl, 60);
    assert_eq!(r.length, 4);
    assert_eq!(r.data, vec![8, 8, 8, 8]);
}

#[test]
fn record_takes_a_given_ttl() {
    let r = Record::new(name(&["a"]), RecordType::TXT, vec![], Some(86_400));
    assert_eq!(r.ttl, 86_400);
    assert_eq!(r.length, 0);
    assert!(r.data.is_empty());
    let r = Record::new(name(&["a"]), RecordType::TXT, vec![1], Some(0));
    assert_eq!(r.ttl, 0);
}

#[test]
fn record_length_is_the_length_of_the_data() {
    let r = Record::new(name(&["a"]), RecordType::NULL, vec![7; 65_535], None);
    assert_eq!(r.length, 65_535);
    assert_eq!(r.data.len(), 65_535);
}

#[test]
fn record_encodes_all_fields_in_order() {
    let r = Record::new(name(&["codecrafters", "io"]), RecordType::A, vec![8, 8, 8, 8], None);
    let mut expected = CODECRAFTERS_IO.to_vec();
    expected.extend_from_slice(&[0, 1, 0, 1, 0, 0, 0, 60, 0, 4, 8, 8, 8, 8]);
    assert_eq!(r.serialize(), expected);
}

#[test]
fn record_encodes_integers_big_endian() {
    let r = Record {
        name: name(&[]),
        record_type: RecordType::PTR,
        class: 0x0102,
        ttl: 0x0A0B0C0D,
        length: 0x0304,
        data: vec![0xEE],
    };
    assert_eq!(r.serialize(), vec![0, 0, 12, 1, 2, 0x0A, 0x0B, 0x0C, 0x0D, 3, 4, 0xEE]);
}

#[test]
fn record_encoding_length_is_name_plus_ten_plus_data() {
    let r = Record::new(name(&["www", "example", "com"]), RecordType::TXT, vec![1; 300], Some(5));
    assert_eq!(r.serialize().len(), 17 + 10 + 300);
}

#[test]
fn record_round_trips() {
    let r = Record::new(name(&["www", "example", "com"]), RecordType::TXT, vec![9; 300], Some(7));
    let bytes = r.serialize();
    assert_eq!(Record::deserialize(&bytes), Ok((&[][..], r)));
    let r = Record::new(name(&["a"]), RecordType::A, vec![], Some(u32::MAX));
    let bytes = r.serialize();
    assert_eq!(Record::deserialize(&bytes), Ok((&[][..], r)));
}

#[test]
fn record_decode_reads_exactly_the_announced_data() {
    let bytes = [1, b'a', 0, 0, 16, 0, 1, 0, 0, 1, 0, 0, 2, 0xAA, 0xBB, 0xCC];
    let (rest, r) = Record::deserialize(&bytes).unwrap();
    assert_eq!(rest, &[0xCC]);
    assert_eq!(
        r,
        Record {
            name: name(&["a"]),
            record_type: RecordType::TXT,
            class: 1,
            ttl: 256,
            length: 2,
            data: vec![0xAA, 0xBB],
        }
    );
}

#[test]
fn record_decode_fails_on_short_input() {
    let whole = [1, b'a', 0, 0, 16, 0, 1, 0, 0, 1, 0, 0, 2, 0xAA, 0xBB];
    let cut = |n: usize| Record::deserialize(&whole[..n]).unwrap_err();
    assert_eq!(cut(0), DecodeError::TruncatedInput { field: Field::LabelLength, offset: 0 });
    assert_eq!(cut(1), DecodeError::TruncatedInput { field: Field::LabelText, offset: 1 });
    assert_eq!(cut(2), DecodeError::TruncatedInput { field: Field::LabelLength, offset: 2 });
    assert_eq!(cut(3), DecodeError::TruncatedInput { field: Field::RecordType, offset: 3 });
    assert_eq!(cut(4), DecodeError::TruncatedInput { field: Field::RecordType, offset: 3 });
    assert_eq!(cut(5), DecodeError::TruncatedInput { field: Field::Class, offset: 5 });
    assert_eq!(cut(6), DecodeError::TruncatedInput { field: Field::Class, offset: 5 });
    assert_eq!(cut(7), DecodeError::TruncatedInput { field: Field::Ttl, offset: 7 });
    assert_eq!(cut(10), DecodeError::TruncatedInput { field: Field::Ttl, offset: 7 });
    assert_eq!(cut(11), DecodeError::TruncatedInput { field: Field::DataLength, offset: 11 });
    assert_eq!(cut(12), DecodeError::TruncatedInput { field: Field::DataLength, offset: 11 });
    assert_eq!(cut(13), DecodeError::TruncatedInput { field: Field::Data, offset: 13 });
    assert_eq!(cut(14), DecodeError::TruncatedInput { field: Field::Data, offset: 13 });
    assert!(Record::deserialize(&whole).is_ok());
}

#[test]
fn record_decode_fails_on_unknown_type_code() {
    assert_eq!(
        Record::deserialize(&[0, 0, 0, 0, 1, 0, 0, 0, 60, 0, 0]),
        Err(DecodeError::UnknownRecordTypeCode { code: 0, offset: 1 })
    );
    assert_eq!(
        Record::deserialize(&[0, 0, 17]),
        Err(DecodeError::UnknownRecordTypeCode { code: 17, offset: 1 })
    );
}
