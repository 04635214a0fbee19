//! The light obfuscation of item names: each byte is XOR-ed with a byte of a
//! fixed key, the key rotated by the item's identifier. It hides plain text
//! from a casual look and protects nothing.

use vstd::prelude::*;
use vstd::string::StrSliceExecFns;

verus! {

/// Number of bytes in the key.
pub const KEY_LEN: usize = 16;

/// The key, as the text it is written as.
pub open spec fn secret() -> Seq<char> {
    "PBG892FXX982ABC*"@
}

/// The key byte that meets byte `i` of a field of the item `item_id`.
pub open spec fn key_byte(i: int, item_id: u32) -> u8 {
    secret()[(i + item_id) % (KEY_LEN as int)] as u8
}

/// The transform on bytes: byte `i` XOR-ed with `key_byte(i, item_id)`.
pub open spec fn xor_with_key(buf: Seq<u8>, item_id: u32) -> Seq<u8> {
    Seq::new(buf.len(), |i: int| buf[i] ^ key_byte(i, item_id))
}

/// Each byte taken as the character with that code point.
pub open spec fn as_chars(bytes: Seq<u8>) -> Seq<char> {
    Seq::new(bytes.len(), |i: int| bytes[i] as char)
}

/// The text that `buf` hides under the identifier `item_id`.
pub open spec fn decrypted(buf: Seq<u8>, item_id: u32) -> Seq<char> {
    as_chars(xor_with_key(buf, item_id))
}

/// `String::push`, which vstd leaves without a specification: the character
/// is appended and nothing else changes.
pub assume_specification[ String::push ](s: &mut String, ch: char)
    ensures
        final(s)@ == old(s)@.push(ch),
;

/// The key byte at `(i + item_id) mod 16`, computed without overflow.
fn key_at(i: usize, item_id: u32) -> (key: u8)
    ensures
        key == key_byte(i as int, item_id),
{
    let secret = "PBG892FXX982ABC*";
    proof {
        reveal_strlit("PBG892FXX982ABC*");
    }
    let key_pos: usize = (i % KEY_LEN + (item_id as usize) % KEY_LEN) % KEY_LEN;
    secret.get_ascii(key_pos)
}

/// Recovers the text of an obfuscated field of the item `item_id`.
pub fn decrypt_value(buf: &[u8], item_id: u32) -> (name: String)
    ensures
        name@ == decrypted(buf@, item_id),
{
    let mut name = String::new();
    let mut i: usize = 0;
    while i < buf.len()
        invariant
            i <= buf@.len(),
            name@ == decrypted(buf@, item_id).take(i as int),
        decreases buf@.len() - i,
    {
        let xor_key = key_at(i, item_id);
        let dec_char = buf[i] ^ xor_key;
        name.push(dec_char as char);
        i += 1;
    }
    name
}

/// Applying the transform twice under one identifier gives the bytes back.
pub proof fn lemma_xor_twice(plain: Seq<u8>, item_id: u32)
    ensures
        xor_with_key(xor_with_key(plain, item_id), item_id) == plain,
{
    let once = xor_with_key(plain, item_id);
    let twice = xor_with_key(once, item_id);
    assert forall|i: int| 0 <= i < plain.len() implies twice[i] == plain[i] by {
        let b = plain[i];
        let k = key_byte(i, item_id);
        assert((b ^ k) ^ k == b) by (bit_vector);
    }
}

/// Under the identifier 0, byte `i` meets the key character at `i mod 16`.
pub proof fn lemma_identifier_zero(buf: Seq<u8>, i: int)
    requires
        0 <= i < buf.len(),
    ensures
        xor_with_key(buf, 0)[i] == buf[i] ^ (secret()[i % 16] as u8),
        decrypted(buf, 0)[i] == (buf[i] ^ (secret()[i % 16] as u8)) as char,
{
}

} // verus!
