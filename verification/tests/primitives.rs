use items_dat::cipher::{decrypt_value, KEY_LEN};
use items_dat::error::DecodeError;
use items_dat::item::ByteField;
use items_dat::reader::{read_string, read_u16, read_u32, read_uint, read_value, skip, Reader};
use items_dat::text::bytes_to_str;

const SECRET: &[u8; 16] = b"PBG892FXX982ABC*";

fn mask(plain: &[u8], item_id: u32) -> Vec<u8> {
    plain
        .iter()
        .enumerate()
        .map(|(i, b)| b ^ SECRET[(i + item_id as usize) % 16])
        .collect()
}

fn prefixed(payload: &[u8]) -> Vec<u8> {
    let mut out = vec![payload.len() as u8, (payload.len() >> 8) as u8];
    out.extend_from_slice(payload);
    out
}

#[test]
fn key_has_sixteen_bytes() {
    assert_eq!(KEY_LEN, 16);
    assert_eq!(SECRET.len(), KEY_LEN);
}

#[test]
fn decrypt_value_recovers_fist_under_identifier_zero() {
    let raw = mask(b"Fist", 0);
    assert_eq!(raw, vec![b'F' ^ b'P', b'i' ^ b'B', b's' ^ b'G', b't' ^ b'8']);
    assert_eq!(decrypt_value(&raw, 0), "Fist");
}

#[test]
fn decrypt_value_with_identifier_zero_uses_key_in_order() {
    let zeros = [0u8; 20];
    assert_eq!(decrypt_value(&zeros, 0), "PBG892FXX982ABC*PBG8");
}

#[test]
fn decrypt_value_rotates_key_by_identifier() {
    let zeros = [0u8; 16];
    assert_eq!(decrypt_value(&zeros, 3), "892FXX982ABC*PBG");
    assert_eq!(decrypt_value(&zeros, 16), "PBG892FXX982ABC*");
    assert_eq!(decrypt_value(&zeros, 19), "892FXX982ABC*PBG");
    assert_eq!(decrypt_value(&zeros, u32::MAX), "*PBG892FXX982ABC");
}

#[test]
fn decrypt_value_of_nothing_is_empty() {
    assert_eq!(decrypt_value(&[], 0), "");
    assert_eq!(decrypt_value(&[], 77), "");
}

#[test]
fn decrypt_value_maps_high_bytes_to_single_characters() {
    // 0xff ^ 'P' = 0xaf, which stands for the character U+00AF.
    let text = decrypt_value(&[0xff], 0);
    assert_eq!(text.chars().count(), 1);
    assert_eq!(text.chars().next(), Some('\u{af}'));
}

#[test]
fn masking_twice_gives_the_bytes_back() {
    let plain = b"Dirt Block with a rather long name".to_vec();
    for id in [0u32, 1, 15, 16, 17, 4242, u32::MAX] {
        let hidden = mask(&plain, id);
        assert_ne!(hidden, plain);
        assert_eq!(mask(&hidden, id), plain);
        assert_eq!(decrypt_value(&hidden, id).as_bytes(), plain.as_slice());
    }
}

#[test]
fn bytes_to_str_accepts_utf8() {
    assert_eq!(bytes_to_str(b"tiles_page1.rttex"), Ok(String::from("tiles_page1.rttex")));
    assert_eq!(bytes_to_str("caf\u{e9} \u{2603}".as_bytes()), Ok(String::from("caf\u{e9} \u{2603}")));
    assert_eq!(bytes_to_str(&[]), Ok(String::new()));
}

#[test]
fn bytes_to_str_decodes_each_width() {
    let text = bytes_to_str(&[0x41, 0xc3, 0xa9, 0xe2, 0x82, 0xac, 0xf0, 0x9f, 0x98, 0x80]).unwrap();
    let chars: Vec<char> = text.chars().collect();
    assert_eq!(chars, vec!['A', '\u{e9}', '\u{20ac}', '\u{1f600}']);
    assert_eq!(bytes_to_str(&[0xf4, 0x8f, 0xbf, 0xbf]), Ok(String::from("\u{10ffff}")));
    assert_eq!(bytes_to_str(&[0xf4, 0x90, 0x80, 0x80]), Err(DecodeError::InvalidEncoding));
}

#[test]
fn bytes_to_str_rejects_invalid_utf8() {
    assert_eq!(bytes_to_str(&[0xff]), Err(DecodeError::InvalidEncoding));
    assert_eq!(bytes_to_str(&[b'a', 0xc3]), Err(DecodeError::InvalidEncoding));
    assert_eq!(bytes_to_str(&[0xed, 0xa0, 0x80]), Err(DecodeError::InvalidEncoding));
    assert_eq!(bytes_to_str(&[0xc0, 0x80]), Err(DecodeError::InvalidEncoding));
}

#[test]
fn read_value_takes_bytes_in_order() {
    let data = [1u8, 2, 3, 4, 5];
    let mut reader = Reader::new(&data);
    assert_eq!(reader.position(), 0);
    assert_eq!(reader.remaining(), 5);
    assert_eq!(read_value(&mut reader, 2), Ok(&data[0..2]));
    assert_eq!(reader.position(), 2);
    assert_eq!(read_value(&mut reader, 0), Ok(&data[2..2]));
    assert_eq!(read_value(&mut reader, 3), Ok(&data[2..5]));
    assert_eq!(reader.position(), 5);
    assert_eq!(reader.remaining(), 0);
}

#[test]
fn read_value_fails_on_short_input_and_stays() {
    let data = [1u8, 2, 3];
    let mut reader = Reader::new(&data);
    assert_eq!(read_value(&mut reader, 1), Ok(&data[0..1]));
    assert_eq!(read_value(&mut reader, 3), Err(DecodeError::TruncatedInput));
    assert_eq!(reader.position(), 1);
    assert_eq!(read_value(&mut reader, usize::MAX), Err(DecodeError::TruncatedInput));
    assert_eq!(reader.position(), 1);
    assert_eq!(read_value(&mut reader, 2), Ok(&data[1..3]));
}

#[test]
fn skip_moves_forward_or_fails() {
    let data = [0u8; 10];
    let mut reader = Reader::new(&data);
    assert_eq!(skip(&mut reader, 4), Ok(()));
    assert_eq!(reader.position(), 4);
    assert_eq!(skip(&mut reader, 7), Err(DecodeError::TruncatedInput));
    assert_eq!(reader.position(), 4);
    assert_eq!(skip(&mut reader, 6), Ok(()));
    assert_eq!(reader.position(), 10);
    assert_eq!(skip(&mut reader, 0), Ok(()));
    assert_eq!(skip(&mut reader, 1), Err(DecodeError::TruncatedInput));
}

#[test]
fn integers_are_little_endian() {
    let data = [0x34u8, 0x12, 0x78, 0x56, 0x34, 0x12, 0xfe, 0x01, 0x02, 0x03];
    let mut reader = Reader::new(&data);
    assert_eq!(read_u16(&mut reader), Ok(0x1234));
    assert_eq!(read_u32(&mut reader), Ok(0x1234_5678));
    assert_eq!(read_uint(&mut reader, 1), Ok(0xfe));
    assert_eq!(read_uint(&mut reader, 3), Ok(0x03_0201));
    assert_eq!(reader.position(), 10);
}

#[test]
fn read_uint_takes_up_to_eight_bytes() {
    let data = [1u8, 2, 3, 4, 5, 6, 7, 8, 9];
    let mut reader = Reader::new(&data);
    assert_eq!(read_uint(&mut reader, 8), Ok(0x0807_0605_0403_0201));
    assert_eq!(reader.position(), 8);
}

#[test]
fn integers_fail_on_short_input_and_stay() {
    let data = [0xaau8, 0xbb, 0xcc];
    let mut reader = Reader::new(&data);
    assert_eq!(read_u32(&mut reader), Err(DecodeError::TruncatedInput));
    assert_eq!(reader.position(), 0);
    assert_eq!(read_u16(&mut reader), Ok(0xbbaa));
    assert_eq!(read_u16(&mut reader), Err(DecodeError::TruncatedInput));
    assert_eq!(read_uint(&mut reader, 2), Err(DecodeError::TruncatedInput));
    assert_eq!(reader.position(), 2);
    assert_eq!(read_uint(&mut reader, 1), Ok(0xcc));
    assert_eq!(read_uint(&mut reader, 1), Err(DecodeError::TruncatedInput));
}

#[test]
fn read_string_plain() {
    let data = prefixed(b"seed.rttex");
    let mut reader = Reader::new(&data);
    assert_eq!(read_string(&mut reader, None, None), Ok(String::from("seed.rttex")));
    assert_eq!(reader.position(), 12);
}

#[test]
fn read_string_plain_when_flag_is_false() {
    let data = prefixed(b"abc");
    let mut reader = Reader::new(&data);
    assert_eq!(read_string(&mut reader, Some(false), Some(9)), Ok(String::from("abc")));
}

#[test]
fn read_string_hidden() {
    let data = prefixed(&mask(b"Cave Background", 14));
    let mut reader = Reader::new(&data);
    assert_eq!(read_string(&mut reader, Some(true), Some(14)), Ok(String::from("Cave Background")));
    assert_eq!(reader.position(), 17);
}

#[test]
fn read_string_of_length_zero_is_empty() {
    let data = [0u8, 0, 0xff, 0xff];
    let mut reader = Reader::new(&data);
    assert_eq!(read_string(&mut reader, None, None), Ok(String::new()));
    assert_eq!(reader.position(), 2);
    let mut reader = Reader::new(&data);
    assert_eq!(read_string(&mut reader, Some(true), Some(5)), Ok(String::new()));
    assert_eq!(reader.position(), 2);
    let mut reader = Reader::new(&data);
    assert_eq!(read_string(&mut reader, Some(true), Some(0)), Ok(String::new()));
    assert_eq!(reader.position(), 2);
}

#[test]
fn read_string_fails_on_missing_prefix() {
    let data = [3u8];
    let mut reader = Reader::new(&data);
    assert_eq!(read_string(&mut reader, None, None), Err(DecodeError::TruncatedInput));
    assert_eq!(reader.position(), 0);
}

#[test]
fn read_string_fails_on_short_payload_and_stays() {
    let data = [9u8, 4, 0, b'a', b'b', b'c'];
    let mut reader = Reader::new(&data);
    assert_eq!(read_uint(&mut reader, 1), Ok(9));
    assert_eq!(read_string(&mut reader, None, None), Err(DecodeError::TruncatedInput));
    assert_eq!(reader.position(), 1);
    assert_eq!(read_string(&mut reader, Some(true), Some(1)), Err(DecodeError::TruncatedInput));
    assert_eq!(reader.position(), 1);
}

#[test]
fn read_string_fails_on_invalid_utf8_and_stays() {
    let data = [2u8, 0, 0xc3, 0x28, 7];
    let mut reader = Reader::new(&data);
    assert_eq!(read_string(&mut reader, None, None), Err(DecodeError::InvalidEncoding));
    assert_eq!(reader.position(), 0);
}

#[test]
fn read_string_hidden_takes_any_bytes() {
    let data = [2u8, 0, 0xc3, 0x28];
    let mut reader = Reader::new(&data);
    let text = read_string(&mut reader, Some(true), Some(0)).unwrap();
    let chars: Vec<char> = text.chars().collect();
    assert_eq!(chars, vec![(0xc3u8 ^ b'P') as char, (0x28u8 ^ b'B') as char]);
    assert_eq!(reader.position(), 4);
}

#[test]
fn read_string_uses_both_length_bytes() {
    let payload = vec![b'x'; 300];
    let data = prefixed(&payload);
    assert_eq!(&data[0..2], &[0x2c, 0x01]);
    let mut reader = Reader::new(&data);
    let text = read_string(&mut reader, None, None).unwrap();
    assert_eq!(text.len(), 300);
    assert_eq!(reader.position(), 302);
}

#[test]
fn break_hits_is_divided_by_six() {
    assert_eq!(ByteField::BreakHits.decode(0), 0);
    assert_eq!(ByteField::BreakHits.decode(12), 2);
    assert_eq!(ByteField::BreakHits.decode(17), 2);
    assert_eq!(ByteField::BreakHits.decode(5), 0);
    assert_eq!(ByteField::BreakHits.decode(255), 42);
}

#[test]
fn other_byte_fields_are_kept_as_stored() {
    assert_eq!(ByteField::MaxAmount.decode(12), 12);
    assert_eq!(ByteField::EditableType.decode(255), 255);
    assert_eq!(ByteField::TreeLeaves.decode(6), 6);
}

#[test]
fn messages_name_the_failed_validation() {
    assert_eq!(DecodeError::TruncatedInput.message(), "input ended before a field was complete");
    assert_eq!(DecodeError::InvalidEncoding.message(), "text field is not valid UTF-8");
    assert_eq!(
        DecodeError::OrderingViolation.message(),
        "items unordered: identifier differs from position"
    );
}
