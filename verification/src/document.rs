//! A whole file: the header, then as many records as the header counts.

use crate::error::{DecodeError, Failure, Stage};
use crate::item::{Item, ItemView};
use crate::endian::lemma_le_value_by_width;
use crate::reader::{read_u16, read_u32, Reader};
use crate::record::{item_at, lemma_item_cut, parse_item, record_fields};
use vstd::prelude::*;

verus! {

/// Number of bytes in the header.
pub const HEADER_LEN: usize = 6;

/// What a file says of itself before its first record.
#[derive(Clone, Copy, PartialEq, Eq, Debug, Structural)]
pub struct FileHeader {
    pub file_version: u16,
    pub item_count: u32,
}

/// A decoded file.
#[derive(Clone, Debug, PartialEq, Eq)]
pub struct ItemDataFile {
    pub file_version: u16,
    pub item_count: u32,
    pub items: Vec<Item>,
}

/// A decoded file with its items as a sequence of views.
pub struct ItemDataFileView {
    pub file_version: u16,
    pub item_count: u32,
    pub items: Seq<ItemView>,
}

/// The views of `items`, in the same order.
pub open spec fn item_views(items: Seq<Item>) -> Seq<ItemView> {
    items.map_values(|item: Item| item@)
}

impl View for ItemDataFile {
    type V = ItemDataFileView;

    open spec fn view(&self) -> ItemDataFileView {
        ItemDataFileView {
            file_version: self.file_version,
            item_count: self.item_count,
            items: item_views(self.items@),
        }
    }
}

/// The header at `at`: two bytes of format version and four bytes of record
/// count, both little-endian.
pub open spec fn header_at(bytes: Seq<u8>, at: int) -> Result<(FileHeader, int), DecodeError> {
    if at + HEADER_LEN <= bytes.len() {
        Ok(
            (
                FileHeader {
                    file_version: (bytes[at] + 0x100 * bytes[at + 1]) as u16,
                    item_count: (bytes[at + 2] + 0x100 * bytes[at + 3] + 0x1_0000 * bytes[at + 4]
                        + 0x100_0000 * bytes[at + 5]) as u32,
                },
                at + HEADER_LEN,
            ),
        )
    } else {
        Err(DecodeError::TruncatedInput)
    }
}

/// The first `n` records from `start` on and where they end, or the first
/// failure among them.
pub open spec fn items_at(bytes: Seq<u8>, start: int, version: u16, n: nat) -> Result<
    (Seq<ItemView>, int),
    Failure,
>
    decreases n,
{
    if n == 0 {
        Ok((Seq::empty(), start))
    } else {
        match items_at(bytes, start, version, (n - 1) as nat) {
            Err(failure) => Err(failure),
            Ok((items, at)) => match item_at(bytes, at, version, (n - 1) as u32) {
                Ok((item, end)) => Ok((items.push(item), end)),
                Err(error) => Err(Failure { stage: Stage::Record((n - 1) as u32), error }),
            },
        }
    }
}

/// What the file `bytes` decodes to. Bytes after the last record are not
/// looked at.
pub open spec fn document(bytes: Seq<u8>) -> Result<ItemDataFileView, Failure> {
    match header_at(bytes, 0) {
        Err(error) => Err(Failure { stage: Stage::Header, error }),
        Ok((header, at)) => match items_at(
            bytes,
            at,
            header.file_version,
            header.item_count as nat,
        ) {
            Err(failure) => Err(failure),
            Ok((items, _)) => Ok(
                ItemDataFileView {
                    file_version: header.file_version,
                    item_count: header.item_count,
                    items,
                },
            ),
        },
    }
}

/// The place `m` lies in the record at position `k`: at or after its first
/// byte, before its end.
pub open spec fn inside_record(bytes: Seq<u8>, start: int, version: u16, k: u32, m: int) -> bool {
    match (
        items_at(bytes, start, version, k as nat),
        items_at(bytes, start, version, (k + 1) as nat),
    ) {
        (Ok((_, begin)), Ok((_, end))) => begin <= m < end,
        _ => false,
    }
}

/// The input cut at `m` fails as truncated at one of the first `n` records,
/// and `m` lies in that record.
pub open spec fn cut_inside(bytes: Seq<u8>, start: int, version: u16, n: nat, m: int) -> bool {
    match items_at(bytes.take(m), start, version, n) {
        Ok(_) => false,
        Err(failure) => failure.error == DecodeError::TruncatedInput && match failure.stage {
            Stage::Header => false,
            Stage::Record(k) => k < n && inside_record(bytes, start, version, k, m),
        },
    }
}

/// Where the last record of the file ends, if the file decodes.
pub open spec fn document_end(bytes: Seq<u8>) -> Option<int> {
    match header_at(bytes, 0) {
        Err(_) => None,
        Ok((header, at)) => match items_at(
            bytes,
            at,
            header.file_version,
            header.item_count as nat,
        ) {
            Err(_) => None,
            Ok((_, end)) => Some(end),
        },
    }
}

/// Once a record has failed, the records after it change nothing.
pub proof fn lemma_first_failure_stays(bytes: Seq<u8>, start: int, version: u16, k: nat, n: nat)
    requires
        k <= n,
        items_at(bytes, start, version, k) is Err,
    ensures
        items_at(bytes, start, version, n) == items_at(bytes, start, version, k),
    decreases n - k,
{
    if k < n {
        lemma_first_failure_stays(bytes, start, version, k, (n - 1) as nat);
    }
}

/// Records that decode are as many as were asked for, and each carries its
/// position as its identifier.
pub proof fn lemma_items_in_order(bytes: Seq<u8>, start: int, version: u16, n: nat)
    requires
        n <= u32::MAX,
    ensures
        items_at(bytes, start, version, n) matches Ok((items, _)) ==> items.len() == n && forall|
            i: int,
        |
            0 <= i < n ==> (#[trigger] items[i]).item_id == i,
    decreases n,
{
    if n > 0 {
        lemma_items_in_order(bytes, start, version, (n - 1) as nat);
    }
}

/// A file that decodes holds as many items as its header counts, and each
/// carries its position as its identifier.
pub proof fn lemma_document_in_order(bytes: Seq<u8>)
    ensures
        document(bytes) matches Ok(file) ==> file.items.len() == file.item_count && forall|i: int|
            0 <= i < file.item_count ==> (#[trigger] file.items[i]).item_id == i,
{
    if let Ok((header, at)) = header_at(bytes, 0) {
        lemma_items_in_order(bytes, at, header.file_version, header.item_count as nat);
    }
}

/// Where the first `k` records read well and the fields of the next one do
/// too, but its identifier is not `k`, reading fails there with an ordering
/// violation, however many records were asked for.
pub proof fn lemma_first_mismatch(bytes: Seq<u8>, start: int, version: u16, k: nat, n: nat)
    requires
        k < n,
        k <= u32::MAX,
        match items_at(bytes, start, version, k) {
            Ok((_, at)) => match record_fields(bytes, at, version) {
                Ok(p) => p.item.item_id != k,
                Err(_) => false,
            },
            Err(_) => false,
        },
    ensures
        items_at(bytes, start, version, n) == Err::<(Seq<ItemView>, int), Failure>(
            Failure { stage: Stage::Record(k as u32), error: DecodeError::OrderingViolation },
        ),
{
    lemma_first_failure_stays(bytes, start, version, k + 1, n);
}

/// Records that read well end at or after their start. They read the same
/// when the input is cut at or after their end. Cut between their start and
/// their end, the input fails as truncated, and at the record in which it
/// was cut.
pub proof fn lemma_items_cut(bytes: Seq<u8>, start: int, version: u16, n: nat, m: int)
    requires
        0 <= start,
        0 <= m <= bytes.len(),
        n <= u32::MAX,
        items_at(bytes, start, version, n) is Ok,
    ensures
        match items_at(bytes, start, version, n) {
            Ok((_, end)) => start <= end && (start <= m ==> if end <= m {
                items_at(bytes.take(m), start, version, n) == items_at(bytes, start, version, n)
            } else {
                cut_inside(bytes, start, version, n, m)
            }),
            Err(_) => false,
        },
    decreases n,
{
    if n > 0 {
        let before = (n - 1) as nat;
        lemma_items_cut(bytes, start, version, before, m);
        let at = items_at(bytes, start, version, before)->Ok_0.1;
        lemma_item_cut(bytes, at, version, before as u32, m);
    }
}

/// A file that decodes no longer does when it is cut before the end of its
/// last record: it fails as truncated input, at the header if fewer than six
/// bytes are left, else at the record in which it was cut.
pub proof fn lemma_cut_file_is_truncated(bytes: Seq<u8>, m: int)
    requires
        0 <= m <= bytes.len(),
        match document_end(bytes) {
            Some(end) => m < end,
            None => false,
        },
    ensures
        match document(bytes.take(m)) {
            Ok(_) => false,
            Err(failure) => failure.error == DecodeError::TruncatedInput && match failure.stage {
                Stage::Header => m < HEADER_LEN,
                Stage::Record(k) => m >= HEADER_LEN && inside_record(
                    bytes,
                    HEADER_LEN as int,
                    header_at(bytes, 0)->Ok_0.0.file_version,
                    k,
                    m,
                ),
            },
        },
{
    let header = header_at(bytes, 0)->Ok_0.0;
    if m >= HEADER_LEN {
        lemma_items_cut(bytes, 6, header.file_version, header.item_count as nat, m);
    }
}

/// Reads the header: six bytes, or none at all if fewer are left.
pub fn read_header(reader: &mut Reader) -> (r: Result<FileHeader, DecodeError>)
    ensures
        final(reader).bytes() == old(reader).bytes(),
        match header_at(old(reader).bytes(), old(reader).offset()) {
            Ok((header, end)) => r == Ok::<FileHeader, DecodeError>(header) && final(
                reader).offset() == end,
            Err(e) => r == Err::<FileHeader, DecodeError>(e) && final(reader).offset() == old(
                reader).offset(),
        },
{
    let start = *reader;
    proof {
        let at = start.offset();
        start.lemma_offset_not_negative();
        if at + 2 <= start.bytes().len() {
            lemma_le_value_by_width(start.bytes().subrange(at, at + 2));
        }
        if at + 6 <= start.bytes().len() {
            lemma_le_value_by_width(start.bytes().subrange(at + 2, at + 6));
        }
    }
    let file_version = match read_u16(reader) {
        Ok(version) => version,
        Err(e) => {
            return Err(e);
        },
    };
    let item_count = match read_u32(reader) {
        Ok(count) => count,
        Err(e) => {
            *reader = start;
            return Err(e);
        },
    };
    Ok(FileHeader { file_version, item_count })
}

/// Reads `count` records of the format `version`. Either all of them come
/// back, in file order, or the first failure and nothing else.
pub fn read_items(reader: &mut Reader, version: u16, count: u32) -> (r: Result<Vec<Item>, Failure>)
    ensures
        final(reader).bytes() == old(reader).bytes(),
        match items_at(old(reader).bytes(), old(reader).offset(), version, count as nat) {
            Ok((items, end)) => r is Ok && item_views(r->Ok_0@) == items && final(
                reader).offset() == end,
            Err(failure) => r == Err::<Vec<Item>, Failure>(failure) && final(reader).offset()
                == old(reader).offset(),
        },
        r matches Ok(items) ==> items@.len() == count && forall|i: int|
            0 <= i < count ==> (#[trigger] items@[i]).item_id == i,
{
    let start = *reader;
    let mut items: Vec<Item> = Vec::new();
    let mut i: u32 = 0;
    assert(item_views(items@) =~= Seq::<ItemView>::empty());
    while i < count
        invariant
            i <= count,
            start == *old(reader),
            reader.bytes() == start.bytes(),
            items@.len() == i,
            forall|j: int| 0 <= j < i ==> (#[trigger] items@[j]).item_id == j,
            items_at(start.bytes(), start.offset(), version, i as nat) == Ok::<
                (Seq<ItemView>, int),
                Failure,
            >((item_views(items@), reader.offset())),
        decreases count - i,
    {
        match parse_item(reader, version, i) {
            Ok(item) => {
                proof {
                    assert(item_views(items@.push(item)) =~= item_views(items@).push(item@));
                }
                items.push(item);
            },
            Err(error) => {
                proof {
                    lemma_first_failure_stays(
                        start.bytes(),
                        start.offset(),
                        version,
                        (i + 1) as nat,
                        count as nat,
                    );
                }
                *reader = start;
                return Err(Failure { stage: Stage::Record(i), error });
            },
        }
        i += 1;
    }
    Ok(items)
}

/// Decodes a whole file. Either the document comes back, or the first
/// failure with the place where it happened.
pub fn decode(data: &[u8]) -> (r: Result<ItemDataFile, Failure>)
    ensures
        match document(data@) {
            Ok(file) => r is Ok && r->Ok_0@ == file,
            Err(failure) => r == Err::<ItemDataFile, Failure>(failure),
        },
        r matches Ok(file) ==> file.items@.len() == file.item_count && forall|i: int|
            0 <= i < file.item_count ==> (#[trigger] file.items@[i]).item_id == i,
{
    let mut reader = Reader::new(data);
    let header = match read_header(&mut reader) {
        Ok(header) => header,
        Err(error) => {
            return Err(Failure { stage: Stage::Header, error });
        },
    };
    let items = match read_items(&mut reader, header.file_version, header.item_count) {
        Ok(items) => items,
        Err(failure) => {
            return Err(failure);
        },
    };
    Ok(ItemDataFile { file_version: header.file_version, item_count: header.item_count, items })
}

} // verus!
