//! Authenticated encryption of vault entries.
//!
//! An envelope is a nonce, a tag and the ciphertext, in that order. The
//! keystream and the tag are keyed digests (HMAC-SHA256) under the vault
//! key; the tag covers the nonce and the ciphertext. The nonce is derived
//! from the plaintext, so sealing the same plaintext twice gives the same
//! envelope.

use vstd::prelude::*;
use crate::bytes::{be64, extend, push_be64, same_bytes, slice_of};
use crate::hash::{hmac, hmac_sha256, DIGEST_LEN};

verus! {

/// Length of the nonce at the head of an envelope.
pub const NONCE_LEN: usize = 16;

/// Length of the tag that follows the nonce.
pub const TAG_LEN: usize = 32;

/// Length of nonce and tag together: where the ciphertext starts.
pub const HEADER_LEN: usize = 48;

/// Marks the digest that derives the vault key from the secret.
pub const LABEL_KEY: u8 = 1;

/// Marks the digest that derives a nonce from a plaintext.
pub const LABEL_NONCE: u8 = 2;

/// Marks the digests that make up the keystream.
pub const LABEL_STREAM: u8 = 3;

/// Marks the digest that authenticates an envelope.
pub const LABEL_TAG: u8 = 4;

/// `s` cut or filled with zero bytes to exactly `n` bytes.
pub open spec fn fit(s: Seq<u8>, n: nat) -> Seq<u8> {
    Seq::new(
        n,
        |i: int|
            if i < s.len() {
                s[i]
            } else {
                0u8
            },
    )
}

/// The vault key that belongs to a secret.
pub open spec fn vault_key(secret: Seq<u8>) -> Seq<u8> {
    fit(hmac_sha256(secret, seq![LABEL_KEY]), DIGEST_LEN as nat)
}

/// The nonce under which a plaintext is sealed.
pub open spec fn nonce_for(key: Seq<u8>, plaintext: Seq<u8>) -> Seq<u8> {
    fit(hmac_sha256(key, seq![LABEL_NONCE] + plaintext), NONCE_LEN as nat)
}

/// One block of the keystream.
pub open spec fn stream_block(key: Seq<u8>, nonce: Seq<u8>, index: u64) -> Seq<u8> {
    fit(hmac_sha256(key, seq![LABEL_STREAM] + nonce + be64(index)), DIGEST_LEN as nat)
}

/// The keystream byte at position `at`.
pub open spec fn stream_byte(key: Seq<u8>, nonce: Seq<u8>, at: int) -> u8 {
    stream_block(key, nonce, (at / DIGEST_LEN as int) as u64)[at % DIGEST_LEN as int]
}

/// `data` with the keystream laid over it by exclusive or. It turns
/// plaintext into ciphertext and ciphertext into plaintext.
pub open spec fn masked(key: Seq<u8>, nonce: Seq<u8>, data: Seq<u8>) -> Seq<u8> {
    Seq::new(data.len(), |i: int| data[i] ^ stream_byte(key, nonce, i))
}

/// The tag that authenticates a nonce and a ciphertext.
pub open spec fn tag_for(key: Seq<u8>, nonce: Seq<u8>, ciphertext: Seq<u8>) -> Seq<u8> {
    fit(hmac_sha256(key, seq![LABEL_TAG] + nonce + ciphertext), TAG_LEN as nat)
}

/// The envelope of `plaintext` under `key`.
pub open spec fn sealed(key: Seq<u8>, plaintext: Seq<u8>) -> Seq<u8> {
    let nonce = nonce_for(key, plaintext);
    let ciphertext = masked(key, nonce, plaintext);
    nonce + tag_for(key, nonce, ciphertext) + ciphertext
}

/// The plaintext of an envelope, when the envelope is long enough to hold
/// nonce and tag and its tag is the one that belongs to its nonce and
/// ciphertext.
pub open spec fn opened(key: Seq<u8>, envelope: Seq<u8>) -> Option<Seq<u8>> {
    if envelope.len() < HEADER_LEN {
        None
    } else {
        let nonce = envelope.subrange(0, NONCE_LEN as int);
        let tag = envelope.subrange(NONCE_LEN as int, HEADER_LEN as int);
        let ciphertext = envelope.subrange(HEADER_LEN as int, envelope.len() as int);
        if tag == tag_for(key, nonce, ciphertext) {
            Some(masked(key, nonce, ciphertext))
        } else {
            None
        }
    }
}

/// Laying the keystream over data twice gives the data back.
pub proof fn lemma_masked_twice(key: Seq<u8>, nonce: Seq<u8>, data: Seq<u8>)
    ensures
        masked(key, nonce, masked(key, nonce, data)) == data,
{
    let once = masked(key, nonce, data);
    assert forall|i: int| 0 <= i < data.len() implies #[trigger] masked(key, nonce, once)[i]
        == data[i] by {
        let d = data[i];
        let s = stream_byte(key, nonce, i);
        assert((d ^ s) ^ s == d) by (bit_vector);
    }
    assert(masked(key, nonce, once) =~= data);
}

/// Opening what was sealed under the same key gives the plaintext back,
/// byte for byte.
pub proof fn lemma_seal_then_open(key: Seq<u8>, plaintext: Seq<u8>)
    ensures
        opened(key, sealed(key, plaintext)) == Some(plaintext),
{
    let nonce = nonce_for(key, plaintext);
    let ciphertext = masked(key, nonce, plaintext);
    let tag = tag_for(key, nonce, ciphertext);
    let envelope = sealed(key, plaintext);
    assert(envelope.subrange(0, NONCE_LEN as int) =~= nonce);
    assert(envelope.subrange(NONCE_LEN as int, HEADER_LEN as int) =~= tag);
    assert(envelope.subrange(HEADER_LEN as int, envelope.len() as int) =~= ciphertext);
    lemma_masked_twice(key, nonce, plaintext);
}

/// Derives the vault key from the configured secret.
pub fn derive_key(secret: &[u8]) -> (key: Vec<u8>)
    ensures
        key@ == vault_key(secret@),
        key@.len() == DIGEST_LEN,
{
    let label: Vec<u8> = vec![LABEL_KEY];
    assert(label@ =~= seq![LABEL_KEY]);
    let key = hmac(secret, label.as_slice());
    assert(key@ =~= vault_key(secret@));
    key
}

fn keyed(key: &[u8], label: u8, first: &[u8], second: &[u8]) -> (digest: Vec<u8>)
    ensures
        digest@ == hmac_sha256(key@, seq![label] + first@ + second@),
        digest@.len() == DIGEST_LEN,
{
    let mut message: Vec<u8> = vec![label];
    assert(message@ =~= seq![label]);
    extend(&mut message, first);
    extend(&mut message, second);
    hmac(key, message.as_slice())
}

fn mask(key: &[u8], nonce: &[u8], data: &[u8]) -> (out: Vec<u8>)
    ensures
        out@ == masked(key@, nonce@, data@),
{
    let mut out: Vec<u8> = Vec::new();
    let mut block: Vec<u8> = Vec::new();
    let mut i: usize = 0;
    while i < data.len()
        invariant
            i <= data.len(),
            out@.len() == i,
            forall|k: int| 0 <= k < i ==> out@[k] == masked(key@, nonce@, data@)[k],
            i % DIGEST_LEN != 0 ==> block@ == stream_block(
                key@,
                nonce@,
                (i as int / DIGEST_LEN as int) as u64,
            ),
        decreases data.len() - i,
    {
        if i % DIGEST_LEN == 0 {
            let index: u64 = (i / DIGEST_LEN) as u64;
            let mut counter: Vec<u8> = Vec::new();
            push_be64(&mut counter, index);
            assert(counter@ =~= be64(index));
            block = keyed(key, LABEL_STREAM, nonce, counter.as_slice());
            assert(block@ =~= stream_block(key@, nonce@, index));
        }
        assert(block@.len() == DIGEST_LEN);
        out.push(data[i] ^ block[i % DIGEST_LEN]);
        i += 1;
    }
    assert(out@ =~= masked(key@, nonce@, data@));
    out
}

/// Seals `plaintext` under `key`.
pub fn seal(key: &[u8], plaintext: &[u8]) -> (envelope: Vec<u8>)
    ensures
        envelope@ == sealed(key@, plaintext@),
{
    let empty: Vec<u8> = Vec::new();
    let digest = keyed(key, LABEL_NONCE, plaintext, empty.as_slice());
    assert(seq![LABEL_NONCE] + plaintext@ + empty@ =~= seq![LABEL_NONCE] + plaintext@);
    let nonce = slice_of(digest.as_slice(), 0, NONCE_LEN);
    assert(nonce@ =~= nonce_for(key@, plaintext@));
    let ciphertext = mask(key, nonce.as_slice(), plaintext);
    let tag = keyed(key, LABEL_TAG, nonce.as_slice(), ciphertext.as_slice());
    assert(tag@ =~= tag_for(key@, nonce@, ciphertext@));
    let mut envelope: Vec<u8> = Vec::new();
    extend(&mut envelope, nonce.as_slice());
    extend(&mut envelope, tag.as_slice());
    extend(&mut envelope, ciphertext.as_slice());
    assert(envelope@ =~= sealed(key@, plaintext@));
    envelope
}

/// Opens an envelope under `key`: the plaintext, or nothing when the
/// envelope is too short or its tag does not belong to it.
pub fn open(key: &[u8], envelope: &[u8]) -> (plaintext: Option<Vec<u8>>)
    ensures
        match opened(key@, envelope@) {
            Some(p) => plaintext matches Some(out) && out@ == p,
            None => plaintext is None,
        },
{
    if envelope.len() < HEADER_LEN {
        return None;
    }
    let nonce = slice_of(envelope, 0, NONCE_LEN);
    let tag = slice_of(envelope, NONCE_LEN, HEADER_LEN);
    let ciphertext = slice_of(envelope, HEADER_LEN, envelope.len());
    let expected = keyed(key, LABEL_TAG, nonce.as_slice(), ciphertext.as_slice());
    assert(expected@ =~= tag_for(key@, nonce@, ciphertext@));
    if !same_bytes(tag.as_slice(), expected.as_slice()) {
        return None;
    }
    Some(mask(key, nonce.as_slice(), ciphertext.as_slice()))
}

} // verus!
