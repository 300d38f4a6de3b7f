use msbt::error::ParseError;
use msbt::header::MessageHeader;
use msbt::Message;

fn put_u16(v: &mut Vec<u8>, le: bool, x: u16) {
    let b = if le { x.to_le_bytes() } else { x.to_be_bytes() };
    v.extend_from_slice(&b);
}

fn put_u32(v: &mut Vec<u8>, le: bool, x: u32) {
    let b = if le { x.to_le_bytes() } else { x.to_be_bytes() };
    v.extend_from_slice(&b);
}

fn header_bytes(le: bool, encoding: u8, sections: u16, file_size: u32) -> Vec<u8> {
    let mut v = Vec::new();
    v.extend_from_slice(b"MsgStdBn");
    v.extend_from_slice(if le { &[0xFF, 0xFE] } else { &[0xFE, 0xFF] });
    v.extend_from_slice(&[0, 0]);
    v.push(encoding);
    v.push(0);
    put_u16(&mut v, le, sections);
    v.extend_from_slice(&[0, 0]);
    put_u32(&mut v, le, file_size);
    v.extend_from_slice(&[0u8; 10]);
    assert_eq!(v.len(), 32);
    v
}

fn pad16(v: &mut Vec<u8>) {
    while v.len() % 16 != 0 {
        v.push(0);
    }
}

fn text_section_bytes(le: bool, offsets: &[u32], body_size: u32, tail: &[u8]) -> Vec<u8> {
    let mut v = Vec::new();
    v.extend_from_slice(b"TXT2");
    put_u32(&mut v, le, body_size);
    v.extend_from_slice(&[0u8; 8]);
    put_u32(&mut v, le, offsets.len() as u32);
    for off in offsets {
        put_u32(&mut v, le, *off);
    }
    v.extend_from_slice(tail);
    v
}

#[test]
fn utf8_single_text() {
    // Little-endian marker, UTF-8, one text section holding exactly "hi"
    // followed by two NUL terminators.
    let mut v = header_bytes(true, 0, 1, 64);
    v.extend_from_slice(&text_section_bytes(true, &[8], 12, b"hi\0\0"));
    pad16(&mut v);
    assert_eq!(v.len(), 64);
    let message = Message::from_reader(&v, Some(64)).unwrap();
    let texts = message.text_section.unwrap().texts;
    assert_eq!(texts, vec!["hi".to_string()]);
    assert!(message.label_section.is_none());
    assert!(message.attribute_section.is_none());
}

#[test]
fn label_single_bucket() {
    // One bucket whose descriptor says one record at body offset 12:
    // name length 3, "abc", index 0.
    let mut v = header_bytes(true, 0, 1, 80);
    let mut s = Vec::new();
    s.extend_from_slice(b"LBL1");
    put_u32(&mut s, true, 20); // body: count + descriptor + one record
    s.extend_from_slice(&[0u8; 8]);
    put_u32(&mut s, true, 1); // one bucket
    put_u32(&mut s, true, 1); // record count
    put_u32(&mut s, true, 12); // records start after count + descriptor
    s.push(3);
    s.extend_from_slice(b"abc");
    put_u32(&mut s, true, 0);
    v.extend_from_slice(&s);
    pad16(&mut v);
    assert_eq!(v.len(), 80);
    let message = Message::from_reader(&v, Some(80)).unwrap();
    let labels = message.label_section.unwrap().labels;
    assert_eq!(labels.len(), 1);
    assert_eq!(labels[0].len(), 1);
    assert_eq!(labels[0][0].name, "abc".to_string());
    assert_eq!(labels[0][0].index, 0);
}

#[test]
fn misaligned_length_fails_before_header() {
    // The length check comes before any header byte is inspected: the
    // magic here is garbage, yet the error is the alignment fault.
    let v = vec![0xAAu8; 24];
    let r = Message::from_reader(&v, Some(24));
    assert!(matches!(r, Err(ParseError::Misaligned)));
}

#[test]
fn size_mismatch_fails() {
    let mut v = header_bytes(true, 0, 0, 32);
    pad16(&mut v);
    v.extend_from_slice(&[0u8; 16]);
    assert_eq!(v.len(), 48);
    let r = Message::from_reader(&v, Some(48));
    assert!(matches!(r, Err(ParseError::SizeMismatch)));
}

#[test]
fn byte_order_is_threaded_from_marker() {
    // The same header fields encoded little-endian under the 0xFFFE marker
    // and big-endian under the 0xFEFF marker decode to the same values.
    let le = header_bytes(true, 0, 7, 0x12345678);
    let be = header_bytes(false, 0, 7, 0x12345678);
    let h_le = MessageHeader::from_reader(&le).unwrap();
    let h_be = MessageHeader::from_reader(&be).unwrap();
    assert_eq!(h_le.sections_count, 7);
    assert_eq!(h_be.sections_count, 7);
    assert_eq!(h_le.file_size, 0x12345678);
    assert_eq!(h_be.file_size, 0x12345678);
}

#[test]
fn unknown_tag_yields_error_and_no_message() {
    let mut v = header_bytes(true, 0, 1, 48);
    v.extend_from_slice(b"XYZ9");
    pad16(&mut v);
    assert_eq!(v.len(), 48);
    let r = Message::from_reader(&v, Some(48));
    assert!(matches!(r, Err(ParseError::UnsupportedSection)));
}

#[test]
fn empty_message_parses() {
    let v = header_bytes(false, 1, 0, 32);
    let message = Message::from_reader(&v, Some(32)).unwrap();
    assert!(message.attribute_section.is_none());
    assert!(message.label_section.is_none());
    assert!(message.text_section.is_none());
}

#[test]
fn repeated_tag_last_wins() {
    let mut v = header_bytes(true, 0, 2, 96);
    v.extend_from_slice(&text_section_bytes(true, &[8], 11, b"one"));
    pad16(&mut v);
    v.extend_from_slice(&text_section_bytes(true, &[8], 11, b"two"));
    pad16(&mut v);
    assert_eq!(v.len(), 96);
    let message = Message::from_reader(&v, Some(96)).unwrap();
    let texts = message.text_section.unwrap().texts;
    assert_eq!(texts, vec!["two".to_string()]);
}

#[test]
fn attribute_body_skipped_then_text_read() {
    // An attribute section's body is skipped whole; the decoder pads to the
    // next 16-byte boundary and finds the text section there.
    let mut v = header_bytes(true, 0, 2, 112);
    let mut a = Vec::new();
    a.extend_from_slice(b"ATR1");
    put_u32(&mut a, true, 20); // count plus 16 junk body bytes
    a.extend_from_slice(&[0u8; 8]);
    put_u32(&mut a, true, 4);
    a.extend_from_slice(&[0xEEu8; 16]);
    v.extend_from_slice(&a);
    pad16(&mut v);
    v.extend_from_slice(&text_section_bytes(true, &[8], 10, b"ok"));
    pad16(&mut v);
    assert_eq!(v.len(), 112);
    let message = Message::from_reader(&v, Some(112)).unwrap();
    assert!(message.attribute_section.is_some());
    assert_eq!(message.text_section.unwrap().texts, vec!["ok".to_string()]);
}

#[test]
fn none_skips_length_checks() {
    // Without a known total length, neither the alignment nor the declared
    // size is checked; a stream cut off inside the final padding parses.
    let mut v = header_bytes(true, 0, 1, 64);
    v.extend_from_slice(&text_section_bytes(true, &[8], 12, b"hi\0\0"));
    assert_eq!(v.len(), 60);
    let message = Message::from_reader(&v, None).unwrap();
    assert_eq!(message.text_section.unwrap().texts, vec!["hi".to_string()]);
}

#[test]
fn invalid_magic_fails() {
    let mut v = header_bytes(true, 0, 0, 32);
    v[0] = b'X';
    let r = Message::from_reader(&v, Some(32));
    assert!(matches!(r, Err(ParseError::InvalidMagic)));
}

#[test]
fn unknown_byte_order_marker_fails() {
    let mut v = header_bytes(true, 0, 0, 32);
    v[8] = 0x12;
    v[9] = 0x34;
    let r = Message::from_reader(&v, Some(32));
    assert!(matches!(r, Err(ParseError::UnsupportedByteOrder)));
}

#[test]
fn unknown_encoding_fails() {
    let mut v = header_bytes(true, 7, 0, 32);
    let r = Message::from_reader(&v, Some(32));
    assert!(matches!(r, Err(ParseError::UnsupportedEncoding)));
}

#[test]
fn empty_stream_fails_short() {
    let r = Message::from_reader(&[], None);
    assert!(matches!(r, Err(ParseError::UnexpectedEnd)));
}

#[test]
fn big_endian_message_parses() {
    let mut v = header_bytes(false, 0, 1, 64);
    v.extend_from_slice(&text_section_bytes(false, &[8], 12, b"hi\0\0"));
    pad16(&mut v);
    assert_eq!(v.len(), 64);
    let message = Message::from_reader(&v, Some(64)).unwrap();
    assert_eq!(message.text_section.unwrap().texts, vec!["hi".to_string()]);
}
