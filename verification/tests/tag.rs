use embedded_bacnet::common::error::Error;
use embedded_bacnet::common::helper::{decode_unsigned, encode_unsigned, get_len_u32};
use embedded_bacnet::common::io::{Reader, Writer};
use embedded_bacnet::common::tag::{ApplicationTagNumber, Tag, TagNumber};

fn tag_bytes(tag: &Tag) -> Vec<u8> {
    let mut writer = Writer::new(vec![0; 16]);
    tag.encode(&mut writer).unwrap();
    writer.to_bytes().to_vec()
}

fn tag_back(tag: &Tag) -> (Tag, usize) {
    let bytes = tag_bytes(tag);
    let mut reader = Reader::new();
    let decoded = Tag::decode(&mut reader, &bytes).unwrap();
    assert_eq!(reader.index, bytes.len());
    (decoded, bytes.len())
}

#[test]
fn writer_appends_and_reports_prefix() {
    let mut writer = Writer::new(vec![0; 4]);
    assert_eq!(writer.len(), 0);
    assert_eq!(writer.room(), 4);
    writer.push(1).unwrap();
    writer.extend_from_slice(&[2, 3]).unwrap();
    assert_eq!(writer.to_bytes(), &[1, 2, 3]);
    assert_eq!(writer.len(), 3);
    assert_eq!(writer.room(), 1);
}

#[test]
fn writer_overflow_writes_nothing() {
    let mut writer = Writer::new(vec![0; 2]);
    writer.push(9).unwrap();
    assert_eq!(writer.extend_from_slice(&[1, 2]), Err(Error::Overflow));
    assert_eq!(writer.to_bytes(), &[9]);
    writer.push(8).unwrap();
    assert_eq!(writer.push(7), Err(Error::Overflow));
    assert_eq!(writer.to_bytes(), &[9, 8]);
}

#[test]
fn writer_truncate_and_patch() {
    let mut writer = Writer::new(vec![0; 8]);
    writer.extend_from_slice(&[1, 2, 3, 4, 5]).unwrap();
    writer.patch_u16(1, 0xABCD);
    assert_eq!(writer.to_bytes(), &[1, 0xAB, 0xCD, 4, 5]);
    writer.truncate(2);
    assert_eq!(writer.to_bytes(), &[1, 0xAB]);
}

#[test]
fn reader_reads_in_order_and_stops_at_end() {
    let buf = [1u8, 2, 3, 4, 5];
    let mut reader = Reader::new();
    assert_eq!(reader.read_byte(&buf), Ok(1));
    assert_eq!(reader.read_slice(3, &buf), Ok(&buf[1..4]));
    assert_eq!(reader.available(&buf), 1);
    assert!(!reader.eof(&buf));
    assert_eq!(reader.read_slice(2, &buf), Err(Error::Truncated));
    assert_eq!(reader.index, 4);
    assert_eq!(reader.read_byte(&buf), Ok(5));
    assert!(reader.eof(&buf));
    assert_eq!(reader.read_byte(&buf), Err(Error::Truncated));
    assert_eq!(reader.read_slice(0, &buf), Ok(&buf[0..0]));
}

#[test]
fn reader_respects_its_own_end() {
    let buf = [1u8, 2, 3, 4, 5];
    let mut reader = Reader::new_with_len(2);
    assert_eq!(reader.available(&buf), 2);
    assert_eq!(reader.read_slice(3, &buf), Err(Error::Truncated));
    assert_eq!(reader.read_slice(2, &buf), Ok(&buf[0..2]));
    assert_eq!(reader.read_byte(&buf), Err(Error::Truncated));
}

#[test]
fn unsigned_length_is_minimal() {
    assert_eq!(get_len_u32(0), 1);
    assert_eq!(get_len_u32(255), 1);
    assert_eq!(get_len_u32(256), 2);
    assert_eq!(get_len_u32(65_535), 2);
    assert_eq!(get_len_u32(65_536), 3);
    assert_eq!(get_len_u32(16_777_215), 3);
    assert_eq!(get_len_u32(16_777_216), 4);
    assert_eq!(get_len_u32(u32::MAX), 4);
}

#[test]
fn unsigned_roundtrip_at_the_boundaries() {
    for value in [0u32, 255, 256, 65_535, 65_536, 16_777_215, 16_777_216, u32::MAX] {
        let len = get_len_u32(value);
        let mut writer = Writer::new(vec![0; 8]);
        encode_unsigned(&mut writer, len, value).unwrap();
        let bytes = writer.to_bytes().to_vec();
        assert_eq!(bytes.len(), len as usize);
        let mut reader = Reader::new();
        assert_eq!(decode_unsigned(len, &mut reader, &bytes), Ok(value));
        assert_eq!(reader.index, bytes.len());
    }
}

#[test]
fn unsigned_bytes_are_big_endian() {
    let mut writer = Writer::new(vec![0; 8]);
    encode_unsigned(&mut writer, 3, 0x01_02_03).unwrap();
    encode_unsigned(&mut writer, 4, 0xDEAD_BEEF).unwrap();
    assert_eq!(writer.to_bytes(), &[1, 2, 3, 0xDE, 0xAD, 0xBE, 0xEF]);
    let mut reader = Reader::new();
    assert_eq!(decode_unsigned(2, &mut reader, &[0x12, 0x34]), Ok(0x1234));
}

#[test]
fn unsigned_refuses_impossible_lengths() {
    let mut writer = Writer::new(vec![0; 8]);
    assert_eq!(encode_unsigned(&mut writer, 0, 1), Err(Error::InvalidValue));
    assert_eq!(encode_unsigned(&mut writer, 5, 1), Err(Error::InvalidValue));
    assert_eq!(writer.len(), 0);
    let buf = [0u8; 8];
    let mut reader = Reader::new();
    assert_eq!(decode_unsigned(0, &mut reader, &buf), Err(Error::InvalidValue));
    assert_eq!(decode_unsigned(5, &mut reader, &buf), Err(Error::InvalidValue));
    assert_eq!(decode_unsigned(4, &mut reader, &buf[..3]), Err(Error::Truncated));
    assert_eq!(reader.index, 0);
}

#[test]
fn tag_header_bytes() {
    let tag = Tag::new(TagNumber::Application(ApplicationTagNumber::Date), 4);
    assert_eq!(tag_bytes(&tag), vec![0xA4]);
    let tag = Tag::new(TagNumber::Application(ApplicationTagNumber::Boolean), 1);
    assert_eq!(tag_bytes(&tag), vec![0x11]);
    let tag = Tag::new(TagNumber::ContextSpecific(0), 4);
    assert_eq!(tag_bytes(&tag), vec![0x0C]);
    let tag = Tag::new(TagNumber::ContextSpecific(2), 1);
    assert_eq!(tag_bytes(&tag), vec![0x29]);
    let tag = Tag::new(TagNumber::ContextSpecificOpening(1), 0);
    assert_eq!(tag_bytes(&tag), vec![0x1E]);
    let tag = Tag::new(TagNumber::ContextSpecificClosing(4), 0);
    assert_eq!(tag_bytes(&tag), vec![0x4F]);
    let tag = Tag::new(TagNumber::Application(ApplicationTagNumber::CharacterString), 5);
    assert_eq!(tag_bytes(&tag), vec![0x75, 5]);
    let tag = Tag::new(TagNumber::Application(ApplicationTagNumber::CharacterString), 254);
    assert_eq!(tag_bytes(&tag), vec![0x75, 254, 0, 254]);
    let tag = Tag::new(TagNumber::Application(ApplicationTagNumber::OctetString), 65_536);
    assert_eq!(tag_bytes(&tag), vec![0x65, 255, 0, 1, 0, 0]);
    let tag = Tag::new(TagNumber::ContextSpecific(15), 2);
    assert_eq!(tag_bytes(&tag), vec![0xFA, 15]);
    let tag = Tag::new(TagNumber::ContextSpecificOpening(200), 0);
    assert_eq!(tag_bytes(&tag), vec![0xFE, 200]);
}

#[test]
fn tag_identity_over_numbers() {
    for number in 0u8..=255 {
        for value in [0u32, 3, 4, 5, 253, 254, 65_535, 65_536, u32::MAX] {
            let tag = Tag::new(TagNumber::ContextSpecific(number), value);
            let (decoded, len) = tag_back(&tag);
            assert_eq!(decoded, tag);
            assert_eq!(len, tag.encoded_len());
        }
        let opening = Tag::new(TagNumber::ContextSpecificOpening(number), 0);
        assert_eq!(tag_back(&opening).0, opening);
        let closing = Tag::new(TagNumber::ContextSpecificClosing(number), 0);
        assert_eq!(tag_back(&closing).0, closing);
    }
}

#[test]
fn tag_identity_over_application_types() {
    for code in 0u8..=12 {
        let number = ApplicationTagNumber::from_u8(code).unwrap();
        assert_eq!(number.to_u8(), code);
        for value in [0u32, 1, 4, 5, 6, 253, 254, 255, 65_535, 65_536] {
            let tag = Tag::new(TagNumber::Application(number), value);
            assert_eq!(tag_back(&tag).0, tag);
        }
    }
    assert_eq!(ApplicationTagNumber::from_u8(13), None);
    assert_eq!(ApplicationTagNumber::from_u8(15), None);
}

#[test]
fn tag_length_boundary_four_and_five() {
    let four = Tag::new(TagNumber::Application(ApplicationTagNumber::UnsignedInt), 4);
    let five = Tag::new(TagNumber::Application(ApplicationTagNumber::UnsignedInt), 5);
    assert_eq!(tag_bytes(&four), vec![0x24]);
    assert_eq!(tag_bytes(&five), vec![0x25, 5]);
    assert_eq!(tag_back(&four), (four, 1));
    assert_eq!(tag_back(&five), (five, 2));
}

#[test]
fn tag_number_boundary_fourteen_and_fifteen() {
    let direct = Tag::new(TagNumber::ContextSpecific(14), 1);
    let escaped = Tag::new(TagNumber::ContextSpecific(15), 1);
    assert_eq!(tag_bytes(&direct), vec![0xE9]);
    assert_eq!(tag_bytes(&escaped), vec![0xF9, 15]);
    assert_eq!(tag_back(&direct), (direct, 1));
    assert_eq!(tag_back(&escaped), (escaped, 2));
}

#[test]
fn tag_decode_refuses_unknown_application_numbers() {
    let mut reader = Reader::new();
    assert_eq!(Tag::decode(&mut reader, &[0xD1]), Err(Error::InvalidValue));
    assert_eq!(Tag::decode(&mut reader, &[0xF1, 20]), Err(Error::InvalidValue));
    assert_eq!(Tag::decode(&mut reader, &[0x26]), Err(Error::InvalidValue));
    assert_eq!(reader.index, 0);
}

#[test]
fn tag_truncations_are_errors() {
    let tags = [
        Tag::new(TagNumber::Application(ApplicationTagNumber::CharacterString), 300),
        Tag::new(TagNumber::Application(ApplicationTagNumber::CharacterString), 70_000),
        Tag::new(TagNumber::ContextSpecific(77), 70_000),
        Tag::new(TagNumber::ContextSpecificOpening(77), 0),
    ];
    for tag in tags {
        let bytes = tag_bytes(&tag);
        for k in 0..bytes.len() {
            let mut reader = Reader::new();
            assert_eq!(Tag::decode(&mut reader, &bytes[..k]), Err(Error::Truncated));
            assert_eq!(reader.index, 0);
        }
    }
}

#[test]
fn tag_encode_overflow_writes_nothing() {
    let tag = Tag::new(TagNumber::ContextSpecific(77), 70_000);
    let mut writer = Writer::new(vec![0; 6]);
    assert_eq!(tag.encode(&mut writer), Err(Error::Overflow));
    assert_eq!(writer.len(), 0);
    let mut writer = Writer::new(vec![0; 7]);
    assert_eq!(tag.encode(&mut writer), Ok(()));
    assert_eq!(writer.to_bytes(), &[0xFD, 77, 255, 0, 1, 0x11, 0x70]);
}
