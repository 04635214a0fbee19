//! A cursor over the bytes of a file, and the reads that the format is made
//! of. A read that fails leaves the cursor where it was.

use crate::cipher::{decrypt_value, decrypted};
use crate::endian::{le_u16, le_u32, le_uint, le_value};
use crate::error::DecodeError;
use crate::text::{bytes_to_str, plain_text};
use vstd::prelude::*;
use vstd::slice::slice_subrange;

verus! {

/// The input and how far it has been read.
#[derive(Clone, Copy, Debug)]
pub struct Reader<'a> {
    data: &'a [u8],
    pos: usize,
}

impl<'a> Reader<'a> {
    #[verifier::type_invariant]
    spec fn within_input(self) -> bool {
        self.pos <= self.data@.len()
    }

    /// All the bytes of the input.
    pub closed spec fn bytes(self) -> Seq<u8> {
        self.data@
    }

    /// Number of bytes read so far.
    pub closed spec fn offset(self) -> int {
        self.pos as int
    }

    /// The cursor never stands before the start of the input.
    pub proof fn lemma_offset_not_negative(self)
        ensures
            0 <= self.offset(),
    {
    }

    /// A cursor at the start of `data`.
    pub fn new(data: &'a [u8]) -> (reader: Self)
        ensures
            reader.bytes() == data@,
            reader.offset() == 0,
    {
        Reader { data, pos: 0 }
    }

    /// Number of bytes read so far.
    pub fn position(&self) -> (pos: usize)
        ensures
            pos == self.offset(),
            pos <= self.bytes().len(),
    {
        proof {
            use_type_invariant(self);
        }
        self.pos
    }

    /// Number of bytes not read yet.
    pub fn remaining(&self) -> (left: usize)
        ensures
            left == self.bytes().len() - self.offset(),
    {
        proof {
            use_type_invariant(self);
        }
        self.data.len() - self.pos
    }
}

/// The `width` bytes at `at`, as long as the input holds them.
pub open spec fn span_at(bytes: Seq<u8>, at: int, width: int) -> Result<
    (Seq<u8>, int),
    DecodeError,
> {
    if at + width <= bytes.len() {
        Ok((bytes.subrange(at, at + width), at + width))
    } else {
        Err(DecodeError::TruncatedInput)
    }
}

/// The little-endian unsigned integer of `width` bytes at `at`.
pub open spec fn uint_at(bytes: Seq<u8>, at: int, width: int) -> Result<(nat, int), DecodeError> {
    match span_at(bytes, at, width) {
        Ok((raw, end)) => Ok((le_value(raw), end)),
        Err(e) => Err(e),
    }
}

/// The length-prefixed text at `at`: two bytes of length, then that many
/// bytes, hidden under the identifier `key` or plain UTF-8 if there is none.
pub open spec fn string_at(bytes: Seq<u8>, at: int, key: Option<u32>) -> Result<
    (Seq<char>, int),
    DecodeError,
> {
    match uint_at(bytes, at, 2) {
        Err(e) => Err(e),
        Ok((len, body)) => match span_at(bytes, body, len as int) {
            Err(e) => Err(e),
            Ok((raw, end)) => match key {
                Some(item_id) => Ok((decrypted(raw, item_id), end)),
                None => match plain_text(raw) {
                    Ok(text) => Ok((text, end)),
                    Err(e) => Err(e),
                },
            },
        },
    }
}

/// A text field whose length prefix is zero is empty and two bytes long,
/// hidden or not.
pub proof fn lemma_empty_string(bytes: Seq<u8>, at: int, key: Option<u32>)
    requires
        0 <= at,
        at + 2 <= bytes.len(),
        le_value(bytes.subrange(at, at + 2)) == 0,
    ensures
        string_at(bytes, at, key) == Ok::<(Seq<char>, int), DecodeError>((Seq::empty(), at + 2)),
{
    let raw = bytes.subrange(at + 2, at + 2);
    if let Some(item_id) = key {
        assert(decrypted(raw, item_id) =~= Seq::<char>::empty());
    }
}

/// A span that the input holds is still there when the input is cut at or
/// after its end, and is missing when the input is cut before its end.
pub proof fn lemma_span_cut(bytes: Seq<u8>, at: int, width: int, m: int)
    requires
        0 <= at,
        0 <= width,
        0 <= m <= bytes.len(),
        span_at(bytes, at, width) is Ok,
    ensures
        at + width <= m ==> span_at(bytes.take(m), at, width) == span_at(bytes, at, width),
        at + width > m ==> span_at(bytes.take(m), at, width) == Err::<(Seq<u8>, int), DecodeError>(
            DecodeError::TruncatedInput,
        ),
{
    if at + width <= m {
        assert(bytes.take(m).subrange(at, at + width) =~= bytes.subrange(at, at + width));
    }
}

/// A text field that reads well reads the same when the input is cut at or
/// after its end, and fails as truncated when the input is cut before its
/// end.
pub proof fn lemma_string_cut(bytes: Seq<u8>, at: int, key: Option<u32>, m: int)
    requires
        0 <= at,
        0 <= m <= bytes.len(),
        string_at(bytes, at, key) is Ok,
    ensures
        string_at(bytes, at, key) matches Ok((_, end)) && at + 2 <= end && (end <= m
            ==> string_at(bytes.take(m), at, key) == string_at(bytes, at, key)) && (end > m
            ==> string_at(bytes.take(m), at, key) == Err::<(Seq<char>, int), DecodeError>(
            DecodeError::TruncatedInput,
        )),
{
    lemma_span_cut(bytes, at, 2, m);
    if at + 2 <= m {
        let len = le_value(bytes.subrange(at, at + 2));
        lemma_span_cut(bytes, at + 2, len as int, m);
    }
}

/// Takes the next `size` bytes.
pub fn read_value<'a>(reader: &mut Reader<'a>, size: usize) -> (r: Result<&'a [u8], DecodeError>)
    ensures
        final(reader).bytes() == old(reader).bytes(),
        match span_at(old(reader).bytes(), old(reader).offset(), size as int) {
            Ok((raw, end)) => r is Ok && r->Ok_0@ == raw && final(reader).offset() == end,
            Err(e) => r == Err::<&[u8], DecodeError>(e)
                && final(reader).offset() == old(reader).offset(),
        },
{
    proof {
        use_type_invariant(&*reader);
    }
    if size > reader.data.len() - reader.pos {
        return Err(DecodeError::TruncatedInput);
    }
    let start = reader.pos;
    let buf = slice_subrange(reader.data, start, start + size);
    reader.pos = start + size;
    Ok(buf)
}

/// Passes over the next `count` bytes without looking at them.
pub fn skip(reader: &mut Reader, count: usize) -> (r: Result<(), DecodeError>)
    ensures
        final(reader).bytes() == old(reader).bytes(),
        match span_at(old(reader).bytes(), old(reader).offset(), count as int) {
            Ok((_, end)) => r is Ok && final(reader).offset() == end,
            Err(e) => r == Err::<(), DecodeError>(e)
                && final(reader).offset() == old(reader).offset(),
        },
{
    match read_value(reader, count) {
        Ok(_) => Ok(()),
        Err(e) => Err(e),
    }
}

/// Reads an unsigned integer of `nbytes` bytes.
pub fn read_uint(reader: &mut Reader, nbytes: usize) -> (r: Result<u64, DecodeError>)
    requires
        1 <= nbytes <= 8,
    ensures
        final(reader).bytes() == old(reader).bytes(),
        match uint_at(old(reader).bytes(), old(reader).offset(), nbytes as int) {
            Ok((value, end)) => r is Ok && r->Ok_0 == value && final(reader).offset() == end,
            Err(e) => r == Err::<u64, DecodeError>(e)
                && final(reader).offset() == old(reader).offset(),
        },
{
    match read_value(reader, nbytes) {
        Ok(buf) => {
            assert(buf@.subrange(0, nbytes as int) =~= buf@);
            Ok(le_uint(buf, nbytes))
        },
        Err(e) => Err(e),
    }
}

/// Reads an unsigned integer of two bytes.
pub fn read_u16(reader: &mut Reader) -> (r: Result<u16, DecodeError>)
    ensures
        final(reader).bytes() == old(reader).bytes(),
        match uint_at(old(reader).bytes(), old(reader).offset(), 2) {
            Ok((value, end)) => r is Ok && r->Ok_0 == value && final(reader).offset() == end,
            Err(e) => r == Err::<u16, DecodeError>(e)
                && final(reader).offset() == old(reader).offset(),
        },
{
    match read_value(reader, 2) {
        Ok(buf) => {
            assert(buf@.subrange(0, 2) =~= buf@);
            Ok(le_u16(buf))
        },
        Err(e) => Err(e),
    }
}

/// Reads an unsigned integer of four bytes.
pub fn read_u32(reader: &mut Reader) -> (r: Result<u32, DecodeError>)
    ensures
        final(reader).bytes() == old(reader).bytes(),
        match uint_at(old(reader).bytes(), old(reader).offset(), 4) {
            Ok((value, end)) => r is Ok && r->Ok_0 == value && final(reader).offset() == end,
            Err(e) => r == Err::<u32, DecodeError>(e)
                && final(reader).offset() == old(reader).offset(),
        },
{
    match read_value(reader, 4) {
        Ok(buf) => {
            assert(buf@.subrange(0, 4) =~= buf@);
            Ok(le_u32(buf))
        },
        Err(e) => Err(e),
    }
}

/// The identifier under which a text field is hidden, if it is hidden at all.
pub open spec fn text_key(decrypt: Option<bool>, item_id: Option<u32>) -> Option<u32> {
    if decrypt == Some(true) {
        item_id
    } else {
        None
    }
}

/// Reads a length-prefixed text field. With `decrypt` set the payload is
/// taken as hidden under `item_id`; otherwise it must be UTF-8.
pub fn read_string(reader: &mut Reader, decrypt: Option<bool>, item_id: Option<u32>) -> (r: Result<
    String,
    DecodeError,
>)
    requires
        decrypt == Some(true) ==> item_id is Some,
    ensures
        final(reader).bytes() == old(reader).bytes(),
        match string_at(old(reader).bytes(), old(reader).offset(), text_key(decrypt, item_id)) {
            Ok((text, end)) => r is Ok && r->Ok_0@ == text && final(reader).offset() == end,
            Err(e) => r == Err::<String, DecodeError>(e)
                && final(reader).offset() == old(reader).offset(),
        },
{
    let start = *reader;
    let strlen = match read_u16(reader) {
        Ok(n) => n,
        Err(e) => {
            return Err(e);
        },
    };
    if strlen != 0 {
        let buf = match read_value(reader, strlen as usize) {
            Ok(buf) => buf,
            Err(e) => {
                *reader = start;
                return Err(e);
            },
        };
        if decrypt.unwrap_or(false) {
            Ok(decrypt_value(buf, item_id.unwrap()))
        } else {
            match bytes_to_str(buf) {
                Ok(text) => Ok(text),
                Err(e) => {
                    *reader = start;
                    Err(e)
                },
            }
        }
    } else {
        proof {
            lemma_empty_string(start.bytes(), start.offset(), text_key(decrypt, item_id));
        }
        Ok(String::new())
    }
}

} // verus!
