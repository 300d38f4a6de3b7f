use msbt::bytes::ByteOrder;
use msbt::error::ParseError;
use msbt::section::{from_reader, LabelSection, Section, TextSection};
use msbt::Encoding;

fn put_u32(v: &mut Vec<u8>, le: bool, x: u32) {
    let b = if le { x.to_le_bytes() } else { x.to_be_bytes() };
    v.extend_from_slice(&b);
}

fn tagged_text_section(le: bool, offsets: &[u32], body_size: u32, tail: &[u8]) -> Vec<u8> {
    let mut v = Vec::new();
    v.extend_from_slice(b"TXT2");
    put_u32(&mut v, le, body_size);
    v.extend_from_slice(&[0u8; 8]);
    put_u32(&mut v, le, offsets.len() as u32);
    for off in offsets {
        put_u32(&mut v, le, *off);
    }
    v.extend_from_slice(tail);
    v
}

#[test]
fn empty_label_section_gives_empty_buckets() {
    let mut v = Vec::new();
    v.extend_from_slice(b"LBL1");
    put_u32(&mut v, true, 4); // the body holds only the entry count
    v.extend_from_slice(&[0u8; 8]);
    put_u32(&mut v, true, 0); // zero buckets
    let (section, end) = from_reader(&v, 0, ByteOrder::LittleEndian, Encoding::Utf8).unwrap();
    match section {
        Section::Label(s) => assert!(s.labels.is_empty()),
        _ => panic!("expected a label section"),
    }
    // body start 16, body size 4, padded to the next 16-byte boundary
    assert_eq!(end, 32);
}

#[test]
fn text_count_matches_entries_and_last_uses_body_size() {
    // Three offsets; the last entry's end is the synthetic boundary at the
    // body size (21), so "d" is one byte long.
    let v = tagged_text_section(true, &[16, 18, 20], 21, b"a\0bcd");
    let (section, end) = from_reader(&v, 0, ByteOrder::LittleEndian, Encoding::Utf8).unwrap();
    match section {
        Section::Text(s) => {
            assert_eq!(s.texts.len(), 3);
            assert_eq!(s.texts, vec!["a".to_string(), "bc".to_string(), "d".to_string()]);
        },
        _ => panic!("expected a text section"),
    }
    assert_eq!(end, 48);
}

#[test]
fn utf16_strips_trailing_nuls_keeps_internal() {
    // Code units h, NUL, i, NUL, NUL: the two trailing NULs go, the
    // internal one stays.
    let body: &[u8] = &[0x68, 0, 0, 0, 0x69, 0, 0, 0, 0, 0];
    let v = tagged_text_section(true, &[8], 18, body);
    let (section, _) = from_reader(&v, 0, ByteOrder::LittleEndian, Encoding::Utf16).unwrap();
    match section {
        Section::Text(s) => assert_eq!(s.texts, vec!["h\u{0}i".to_string()]),
        _ => panic!("expected a text section"),
    }
}

#[test]
fn utf16_big_endian_units() {
    // The same text under the big-endian order: each unit's high byte first.
    let body: &[u8] = &[0, 0x68, 0, 0x69];
    let v = tagged_text_section(false, &[8], 12, body);
    let (section, _) = from_reader(&v, 0, ByteOrder::BigEndian, Encoding::Utf16).unwrap();
    match section {
        Section::Text(s) => assert_eq!(s.texts, vec!["hi".to_string()]),
        _ => panic!("expected a text section"),
    }
}

#[test]
fn utf16_odd_byte_count_fails() {
    let v = tagged_text_section(true, &[8], 11, b"abc");
    let r = from_reader(&v, 0, ByteOrder::LittleEndian, Encoding::Utf16);
    assert!(matches!(r, Err(ParseError::InvalidText)));
}

#[test]
fn utf16_lone_surrogate_fails() {
    let body: &[u8] = &[0x00, 0xD8]; // a high surrogate with no partner
    let v = tagged_text_section(true, &[8], 10, body);
    let r = from_reader(&v, 0, ByteOrder::LittleEndian, Encoding::Utf16);
    assert!(matches!(r, Err(ParseError::InvalidText)));
}

#[test]
fn utf16_surrogate_pair_decodes() {
    // U+1F600 as the pair D83D DE00, little-endian bytes.
    let body: &[u8] = &[0x3D, 0xD8, 0x00, 0xDE];
    let v = tagged_text_section(true, &[8], 12, body);
    let (section, _) = from_reader(&v, 0, ByteOrder::LittleEndian, Encoding::Utf16).unwrap();
    match section {
        Section::Text(s) => assert_eq!(s.texts, vec!["\u{1F600}".to_string()]),
        _ => panic!("expected a text section"),
    }
}

#[test]
fn utf8_invalid_bytes_fail() {
    let v = tagged_text_section(true, &[8], 9, &[0xFF]);
    let r = from_reader(&v, 0, ByteOrder::LittleEndian, Encoding::Utf8);
    assert!(matches!(r, Err(ParseError::InvalidText)));
}

#[test]
fn utf8_multibyte_text_decodes() {
    // Two bytes, one character: the decoder is not a byte-for-byte copy.
    let v = tagged_text_section(true, &[8], 10, &[0xC3, 0xA9]);
    let (section, _) = from_reader(&v, 0, ByteOrder::LittleEndian, Encoding::Utf8).unwrap();
    match section {
        Section::Text(s) => {
            assert_eq!(s.texts, vec!["\u{E9}".to_string()]);
            assert_eq!(s.texts[0].chars().count(), 1);
        },
        _ => panic!("expected a text section"),
    }
}

#[test]
fn decreasing_offsets_fail() {
    let v = tagged_text_section(true, &[10, 8], 20, &[0u8; 8]);
    let r = from_reader(&v, 0, ByteOrder::LittleEndian, Encoding::Utf8);
    assert!(matches!(r, Err(ParseError::OffsetOrder)));
}

#[test]
fn truncated_text_section_fails() {
    // The offset table claims two entries but the stream ends after one.
    let mut v = Vec::new();
    v.extend_from_slice(b"TXT2");
    put_u32(&mut v, true, 12);
    v.extend_from_slice(&[0u8; 8]);
    put_u32(&mut v, true, 2);
    put_u32(&mut v, true, 12);
    let r = from_reader(&v, 0, ByteOrder::LittleEndian, Encoding::Utf8);
    assert!(matches!(r, Err(ParseError::UnexpectedEnd)));
}

#[test]
fn label_name_multibyte_utf8() {
    let mut v = Vec::new();
    v.extend_from_slice(b"LBL1");
    put_u32(&mut v, true, 19);
    v.extend_from_slice(&[0u8; 8]);
    put_u32(&mut v, true, 1);
    put_u32(&mut v, true, 1);
    put_u32(&mut v, true, 12);
    v.push(2);
    v.extend_from_slice(&[0xC3, 0xA9]);
    put_u32(&mut v, true, 5);
    let (section, _) = from_reader(&v, 0, ByteOrder::LittleEndian, Encoding::Utf8).unwrap();
    match section {
        Section::Label(s) => {
            assert_eq!(s.labels.len(), 1);
            assert_eq!(s.labels[0][0].name, "\u{E9}".to_string());
            assert_eq!(s.labels[0][0].index, 5);
        },
        _ => panic!("expected a label section"),
    }
}

#[test]
fn label_name_invalid_utf8_fails() {
    let mut v = Vec::new();
    v.extend_from_slice(b"LBL1");
    put_u32(&mut v, true, 18);
    v.extend_from_slice(&[0u8; 8]);
    put_u32(&mut v, true, 1);
    put_u32(&mut v, true, 1);
    put_u32(&mut v, true, 12);
    v.push(1);
    v.push(0xFF);
    put_u32(&mut v, true, 0);
    let r = from_reader(&v, 0, ByteOrder::LittleEndian, Encoding::Utf8);
    assert!(matches!(r, Err(ParseError::InvalidText)));
}

#[test]
fn two_buckets_keep_order() {
    // Bucket bodies stored in reverse of descriptor order: the descriptor
    // order is what counts.
    let mut v = Vec::new();
    v.extend_from_slice(b"LBL1");
    put_u32(&mut v, true, 34);
    v.extend_from_slice(&[0u8; 8]);
    put_u32(&mut v, true, 2);
    // descriptor 0: one record at offset 27 (the second body below)
    put_u32(&mut v, true, 1);
    put_u32(&mut v, true, 27);
    // descriptor 1: one record at offset 20 (the first body below)
    put_u32(&mut v, true, 1);
    put_u32(&mut v, true, 20);
    // body at offset 20: "b2", index 2
    v.push(2);
    v.extend_from_slice(b"b2");
    put_u32(&mut v, true, 2);
    // body at offset 27: "b1", index 1
    v.push(2);
    v.extend_from_slice(b"b1");
    put_u32(&mut v, true, 1);
    let (section, _) = from_reader(&v, 0, ByteOrder::LittleEndian, Encoding::Utf8).unwrap();
    match section {
        Section::Label(s) => {
            assert_eq!(s.labels.len(), 2);
            assert_eq!(s.labels[0][0].name, "b1".to_string());
            assert_eq!(s.labels[0][0].index, 1);
            assert_eq!(s.labels[1][0].name, "b2".to_string());
            assert_eq!(s.labels[1][0].index, 2);
        },
        _ => panic!("expected a label section"),
    }
}

#[test]
fn direct_section_decoders() {
    // The tag-less decoders, called where the router would leave the cursor.
    let mut v = Vec::new();
    put_u32(&mut v, true, 4);
    v.extend_from_slice(&[0u8; 8]);
    put_u32(&mut v, true, 0);
    let (s, end) = LabelSection::from_reader(&v, 0, ByteOrder::LittleEndian).unwrap();
    assert!(s.labels.is_empty());
    assert_eq!(end, 16);

    let mut t = Vec::new();
    put_u32(&mut t, true, 8);
    t.extend_from_slice(&[0u8; 8]);
    put_u32(&mut t, true, 0);
    let (s, end) = TextSection::from_reader(&t, 0, ByteOrder::LittleEndian, Encoding::Utf8)
        .unwrap();
    assert!(s.texts.is_empty());
    assert_eq!(end, 32);
}

#[test]
fn unknown_tag_fails() {
    let mut v = Vec::new();
    v.extend_from_slice(b"NLI1");
    v.extend_from_slice(&[0u8; 16]);
    let r = from_reader(&v, 0, ByteOrder::LittleEndian, Encoding::Utf8);
    assert!(matches!(r, Err(ParseError::UnsupportedSection)));
}
