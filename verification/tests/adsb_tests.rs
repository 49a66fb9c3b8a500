use data_handler::adsb::{parse_raw_message, RawMessage, RAW_BUFFER_SIZE};

fn buffer(text: &[u8]) -> [u8; RAW_BUFFER_SIZE] {
    let mut b = [0u8; RAW_BUFFER_SIZE];
    b[..text.len()].copy_from_slice(text);
    b
}

#[test]
fn long_message_when_end_byte_at_thirty() {
    let b = buffer(b"*8D4840D6202CC371C32CE0576098X;\n");
    assert_eq!(
        parse_raw_message(&b),
        RawMessage::Message("8D4840D6202CC371C32CE0576098".to_string())
    );
}

#[test]
fn short_message_otherwise() {
    let b = buffer(b"*8D4840D6202CC371C32CE0576098;\n");
    assert_eq!(parse_raw_message(&b), RawMessage::Message("8D4840D6202CC3".to_string()));
    let s = buffer(b"*5D4840D6F0A1B2;\n");
    assert_eq!(parse_raw_message(&s), RawMessage::Message("5D4840D6F0A1B2".to_string()));
}

#[test]
fn unknown_and_empty_reads() {
    let b = buffer(b"hello");
    let mut expected = "hello".to_string();
    expected.push_str(&"\0".repeat(RAW_BUFFER_SIZE - 5));
    assert_eq!(parse_raw_message(&b), RawMessage::Unknown(expected));
    let bad = buffer(&[0xff, b'a']);
    match parse_raw_message(&bad) {
        RawMessage::Unknown(s) => assert!(s.starts_with("\u{fffd}a\0")),
        other => panic!("unexpected {:?}", other),
    }
    assert_eq!(parse_raw_message(&[0u8; RAW_BUFFER_SIZE]), RawMessage::Empty);
}
