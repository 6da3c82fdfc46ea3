//! Content hashing: SHA-256 digests, their lower-case hexadecimal text, and
//! the keyed digest (HMAC) that the vault builds on.

use vstd::prelude::*;
use vstd::string::*;
use vstd::utf8::{encode_utf8, is_ascii_chars, is_ascii_chars_encode_utf8};
use sha2::Digest;
use crate::bytes::extend;

verus! {

/// Length in bytes of a SHA-256 digest.
pub const DIGEST_LEN: usize = 32;

/// Length in bytes of the block that SHA-256 works on.
pub const BLOCK_LEN: usize = 64;

/// The SHA-256 digest of `data`.
pub uninterp spec fn sha256_digest(data: Seq<u8>) -> Seq<u8>;

/// Calls `sha2::Sha256::digest`. Trusted: the result is the SHA-256 digest of
/// `data`, named `sha256_digest(data@)`, and it is 32 bytes long.
#[verifier::external_body]
pub(crate) fn sha256(data: &[u8]) -> (digest: Vec<u8>)
    ensures
        digest@ == sha256_digest(data@),
        digest@.len() == DIGEST_LEN,
{
    sha2::Sha256::digest(data).to_vec()
}

/// The lower-case hexadecimal digit for a value below 16.
pub open spec fn hex_digit(nibble: int) -> char {
    if nibble == 0 {
        '0'
    } else if nibble == 1 {
        '1'
    } else if nibble == 2 {
        '2'
    } else if nibble == 3 {
        '3'
    } else if nibble == 4 {
        '4'
    } else if nibble == 5 {
        '5'
    } else if nibble == 6 {
        '6'
    } else if nibble == 7 {
        '7'
    } else if nibble == 8 {
        '8'
    } else if nibble == 9 {
        '9'
    } else if nibble == 10 {
        'a'
    } else if nibble == 11 {
        'b'
    } else if nibble == 12 {
        'c'
    } else if nibble == 13 {
        'd'
    } else if nibble == 14 {
        'e'
    } else {
        'f'
    }
}

/// Lower-case hexadecimal text of `bytes`: two digits per byte, high nibble
/// first.
pub open spec fn hex_lower(bytes: Seq<u8>) -> Seq<char> {
    Seq::new(
        2 * bytes.len(),
        |i: int|
            if i % 2 == 0 {
                hex_digit(bytes[i / 2] as int / 16)
            } else {
                hex_digit(bytes[i / 2] as int % 16)
            },
    )
}

/// Length of the hexadecimal text of a SHA-256 digest.
pub const HASH_TEXT_LEN: usize = 64;

/// Hexadecimal text has two characters for each byte, all of them ASCII,
/// so it is as long in bytes as in characters.
pub proof fn lemma_hex_len(bytes: Seq<u8>)
    ensures
        hex_lower(bytes).len() == 2 * bytes.len(),
        is_ascii_chars(hex_lower(bytes)),
        encode_utf8(hex_lower(bytes)).len() == 2 * bytes.len(),
{
    let text = hex_lower(bytes);
    assert forall|i: int| 0 <= i < text.len() implies '\0' <= #[trigger] text[i] <= '\u{7f}' by {
        let high = bytes[i / 2] as int / 16;
        let low = bytes[i / 2] as int % 16;
        assert(0 <= high < 16 && 0 <= low < 16);
    }
    is_ascii_chars_encode_utf8(text);
}

fn hex_digit_str(nibble: u8) -> (s: &'static str)
    requires
        nibble < 16,
    ensures
        s@ == seq![hex_digit(nibble as int)],
{
    proof {
        reveal_strlit("0");
        reveal_strlit("1");
        reveal_strlit("2");
        reveal_strlit("3");
        reveal_strlit("4");
        reveal_strlit("5");
        reveal_strlit("6");
        reveal_strlit("7");
        reveal_strlit("8");
        reveal_strlit("9");
        reveal_strlit("a");
        reveal_strlit("b");
        reveal_strlit("c");
        reveal_strlit("d");
        reveal_strlit("e");
        reveal_strlit("f");
    }
    let s = match nibble {
        0 => "0",
        1 => "1",
        2 => "2",
        3 => "3",
        4 => "4",
        5 => "5",
        6 => "6",
        7 => "7",
        8 => "8",
        9 => "9",
        10 => "a",
        11 => "b",
        12 => "c",
        13 => "d",
        14 => "e",
        _ => "f",
    };
    assert(s@ =~= seq![hex_digit(nibble as int)]);
    s
}

/// Writes `bytes` as lower-case hexadecimal text.
pub fn to_hex(bytes: &[u8]) -> (text: String)
    ensures
        text@ == hex_lower(bytes@),
{
    let mut text = String::new();
    let mut i: usize = 0;
    while i < bytes.len()
        invariant
            i <= bytes.len(),
            text@.len() == 2 * i,
            forall|k: int| 0 <= k < 2 * i ==> text@[k] == hex_lower(bytes@)[k],
        decreases bytes.len() - i,
    {
        let b = bytes[i];
        text.append(hex_digit_str(b / 16));
        text.append(hex_digit_str(b % 16));
        i += 1;
    }
    assert(text@ =~= hex_lower(bytes@));
    text
}

/// The key as SHA-256's keyed digest uses it: a key longer than one block is
/// replaced by its digest.
pub open spec fn block_key(key: Seq<u8>) -> Seq<u8> {
    if key.len() > BLOCK_LEN {
        sha256_digest(key)
    } else {
        key
    }
}

/// One block: `key` filled up with zero bytes, every byte combined with `pad`
/// by exclusive or.
pub open spec fn padded_key(key: Seq<u8>, pad: u8) -> Seq<u8> {
    Seq::new(
        BLOCK_LEN as nat,
        |i: int|
            if i < key.len() {
                key[i] ^ pad
            } else {
                0u8 ^ pad
            },
    )
}

/// HMAC-SHA256 of `message` under `key`.
pub open spec fn hmac_sha256(key: Seq<u8>, message: Seq<u8>) -> Seq<u8> {
    let k = block_key(key);
    sha256_digest(padded_key(k, 0x5c) + sha256_digest(padded_key(k, 0x36) + message))
}

fn pad_key(key: &[u8], pad: u8) -> (block: Vec<u8>)
    requires
        key@.len() <= BLOCK_LEN,
    ensures
        block@ == padded_key(key@, pad),
{
    let mut block: Vec<u8> = Vec::new();
    let mut i: usize = 0;
    while i < BLOCK_LEN
        invariant
            i <= BLOCK_LEN,
            key@.len() <= BLOCK_LEN,
            block@.len() == i,
            forall|k: int| 0 <= k < i ==> block@[k] == padded_key(key@, pad)[k],
        decreases BLOCK_LEN - i,
    {
        let b: u8 = if i < key.len() {
            key[i]
        } else {
            0
        };
        block.push(b ^ pad);
        i += 1;
    }
    assert(block@ =~= padded_key(key@, pad));
    block
}

/// Computes HMAC-SHA256 of `message` under `key`.
pub fn hmac(key: &[u8], message: &[u8]) -> (tag: Vec<u8>)
    ensures
        tag@ == hmac_sha256(key@, message@),
        tag@.len() == DIGEST_LEN,
{
    let shortened: Vec<u8>;
    let k: &[u8] = if key.len() > BLOCK_LEN {
        shortened = sha256(key);
        shortened.as_slice()
    } else {
        key
    };
    assert(k@ == block_key(key@));
    let mut inner = pad_key(k, 0x36);
    extend(&mut inner, message);
    let inner_digest = sha256(inner.as_slice());
    let mut outer = pad_key(k, 0x5c);
    extend(&mut outer, inner_digest.as_slice());
    sha256(outer.as_slice())
}

} // verus!
