use items_dat::document::{decode, read_header, read_items, FileHeader, ItemDataFile, HEADER_LEN};
use items_dat::error::{DecodeError, Failure, Stage};
use items_dat::item::Item;
use items_dat::reader::Reader;

const SECRET: &[u8; 16] = b"PBG892FXX982ABC*";

fn mask(plain: &[u8], item_id: u32) -> Vec<u8> {
    plain
        .iter()
        .enumerate()
        .map(|(i, b)| b ^ SECRET[(i + item_id as usize) % 16])
        .collect()
}

fn header(version: u16, count: u32) -> Vec<u8> {
    let mut out = Vec::new();
    out.extend_from_slice(&version.to_le_bytes());
    out.extend_from_slice(&count.to_le_bytes());
    out
}

/// A record whose fields are all zero or empty but the identifier and the name.
fn record(id: u32, name: &str, version: u16) -> Vec<u8> {
    let mut out = Vec::new();
    out.extend_from_slice(&id.to_le_bytes());
    out.extend_from_slice(&[0; 4]);
    out.extend_from_slice(&(name.len() as u16).to_le_bytes());
    out.extend_from_slice(&mask(name.as_bytes(), id));
    out.extend_from_slice(&[0; 2]); // texture_file
    out.extend_from_slice(&[0; 4 + 1 + 4 + 6 + 4 + 1 + 2 + 1]);
    out.extend_from_slice(&[0; 2]); // extra_file
    out.extend_from_slice(&[0; 8]);
    out.extend_from_slice(&[0; 8]); // four pet texts
    out.extend_from_slice(&[0; 4 + 4 + 4]);
    out.extend_from_slice(&[0; 4]); // slot of a removed field
    out.extend_from_slice(&[0; 4 + 2 + 2]);
    out.extend_from_slice(&[0; 6]); // three texts
    out.extend_from_slice(&[0; 80]);
    if version >= 11 {
        out.extend_from_slice(&[0; 2]);
    }
    if version >= 12 {
        out.extend_from_slice(&[0; 13]);
    }
    if version >= 13 {
        out.extend_from_slice(&[0; 4]);
    }
    if version >= 14 {
        out.extend_from_slice(&[0; 4]);
    }
    out
}

fn named(id: u32, name: &str) -> Item {
    let mut item = Item::new();
    item.item_id = id;
    item.item_name = String::from(name);
    item
}

fn file(version: u16, names: &[&str]) -> Vec<u8> {
    let mut out = header(version, names.len() as u32);
    for (i, name) in names.iter().enumerate() {
        out.extend_from_slice(&record(i as u32, name, version));
    }
    out
}

#[test]
fn header_is_six_bytes() {
    assert_eq!(HEADER_LEN, 6);
    let data = [0x0eu8, 0x00, 0x10, 0x27, 0x00, 0x00, 0x99];
    let mut reader = Reader::new(&data);
    assert_eq!(read_header(&mut reader), Ok(FileHeader { file_version: 14, item_count: 10000 }));
    assert_eq!(reader.position(), 6);
}

#[test]
fn header_is_little_endian() {
    let data = [0x02u8, 0x01, 0x06, 0x05, 0x04, 0x03];
    let mut reader = Reader::new(&data);
    assert_eq!(
        read_header(&mut reader),
        Ok(FileHeader { file_version: 0x0102, item_count: 0x03040506 })
    );
}

#[test]
fn short_header_is_truncated() {
    for len in 0..6 {
        let data = vec![1u8; len];
        let mut reader = Reader::new(&data);
        assert_eq!(read_header(&mut reader), Err(DecodeError::TruncatedInput));
        assert_eq!(reader.position(), 0);
        assert_eq!(
            decode(&data),
            Err(Failure { stage: Stage::Header, error: DecodeError::TruncatedInput })
        );
    }
}

#[test]
fn minimal_file_holds_fist() {
    let mut data = header(10, 1);
    data.extend_from_slice(&record(0, "Fist", 10));
    let file = decode(&data).unwrap();
    assert_eq!(file.file_version, 10);
    assert_eq!(file.item_count, 1);
    assert_eq!(file.items.len(), 1);
    assert_eq!(file.items[0].item_name, "Fist");
    assert_eq!(file.items[0], named(0, "Fist"));
}

#[test]
fn minimal_file_byte_for_byte() {
    let mut data = vec![10u8, 0, 1, 0, 0, 0];
    data.extend_from_slice(&[0, 0, 0, 0]);
    data.extend_from_slice(&[0, 0, 0, 0]);
    data.extend_from_slice(&[4, 0, 0x16, 0x2b, 0x34, 0x4c]);
    data.extend_from_slice(&vec![0u8; 153]);
    assert_eq!(data.len(), 6 + 167);
    let file = decode(&data).unwrap();
    assert_eq!(file, ItemDataFile { file_version: 10, item_count: 1, items: vec![named(0, "Fist")] });
}

#[test]
fn empty_file_has_no_items() {
    let data = header(14, 0);
    assert_eq!(decode(&data), Ok(ItemDataFile { file_version: 14, item_count: 0, items: vec![] }));
}

#[test]
fn decode_counts_and_orders_items() {
    let names = ["Blank", "Dirt", "Dirt Seed", "Rock", "Rock Seed", "Lava", "Lava Seed"];
    for version in [10u16, 11, 12, 13, 14] {
        let data = file(version, &names);
        let decoded = decode(&data).unwrap();
        assert_eq!(decoded.file_version, version);
        assert_eq!(decoded.item_count, 7);
        assert_eq!(decoded.items.len(), 7);
        for (i, item) in decoded.items.iter().enumerate() {
            assert_eq!(item.item_id, i as u32);
            assert_eq!(item.item_name, names[i]);
            assert_eq!(*item, named(i as u32, names[i]));
        }
    }
}

#[test]
fn decode_ignores_bytes_after_the_last_record() {
    let mut data = file(12, &["a", "b"]);
    data.extend_from_slice(&[0xff; 9]);
    let decoded = decode(&data).unwrap();
    assert_eq!(decoded.items, vec![named(0, "a"), named(1, "b")]);
}

#[test]
fn read_items_reads_as_many_as_asked() {
    let data = file(10, &["a", "b", "c"]);
    let mut reader = Reader::new(&data);
    assert!(read_header(&mut reader).is_ok());
    assert_eq!(read_items(&mut reader, 10, 2), Ok(vec![named(0, "a"), named(1, "b")]));
    assert_eq!(reader.position(), 6 + 2 * 164);
}

#[test]
fn read_items_gives_nothing_back_on_failure() {
    let data = file(10, &["a", "b", "c"]);
    let mut reader = Reader::new(&data);
    assert!(read_header(&mut reader).is_ok());
    assert_eq!(
        read_items(&mut reader, 10, 4),
        Err(Failure { stage: Stage::Record(3), error: DecodeError::TruncatedInput })
    );
    assert_eq!(reader.position(), 6);
}

#[test]
fn truncated_file_fails_at_the_record_that_is_cut() {
    let data = file(10, &["a", "b", "c"]);
    let one = record(0, "a", 10).len();
    for cut in 6..data.len() {
        let at = ((cut - 6) / one) as u32;
        assert_eq!(
            decode(&data[..cut]),
            Err(Failure { stage: Stage::Record(at), error: DecodeError::TruncatedInput })
        );
    }
}

#[test]
fn header_that_counts_too_many_is_truncated() {
    let mut data = header(10, 3);
    data.extend_from_slice(&record(0, "a", 10));
    data.extend_from_slice(&record(1, "b", 10));
    assert_eq!(
        decode(&data),
        Err(Failure { stage: Stage::Record(2), error: DecodeError::TruncatedInput })
    );
}

#[test]
fn swapped_records_fail_at_the_first_of_them() {
    let mut good = header(10, 6);
    let mut bad = header(10, 6);
    for i in 0..6u32 {
        good.extend_from_slice(&record(i, "item", 10));
        let id = match i {
            3 => 4,
            4 => 3,
            _ => i,
        };
        bad.extend_from_slice(&record(id, "item", 10));
    }
    assert_eq!(good.len(), bad.len());
    assert!(decode(&good).is_ok());
    assert_eq!(
        decode(&bad),
        Err(Failure { stage: Stage::Record(3), error: DecodeError::OrderingViolation })
    );
}

#[test]
fn first_identifier_must_be_zero() {
    let mut data = header(10, 1);
    data.extend_from_slice(&record(1, "Dirt", 10));
    assert_eq!(
        decode(&data),
        Err(Failure { stage: Stage::Record(0), error: DecodeError::OrderingViolation })
    );
}

#[test]
fn wrong_version_shows_as_ordering_violation() {
    // Records of version 14 read as version 10: the second record starts too early.
    let mut data = file(14, &["a", "b"]);
    data[0] = 10;
    assert_eq!(
        decode(&data),
        Err(Failure { stage: Stage::Record(1), error: DecodeError::OrderingViolation })
    );
}

#[test]
fn invalid_text_fails_at_its_record() {
    let mut data = file(10, &["a", "b"]);
    let second = 6 + record(0, "a", 10).len();
    // length and first byte of the second record's texture file
    let at = second + 4 + 4 + 3;
    data.splice(at..at + 2, [1u8, 0, 0x80]);
    assert_eq!(
        decode(&data),
        Err(Failure { stage: Stage::Record(1), error: DecodeError::InvalidEncoding })
    );
}
