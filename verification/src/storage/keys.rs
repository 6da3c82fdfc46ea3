//! The keys under which the two stores keep their entries.
//!
//! Registry: `record:<id>` holds the serialized record of an identity,
//! `did_index:<did>` the identity id that a DID names, `face_ptr:<id>` the
//! hash pointer of the identity's current template.
//!
//! Vault: `template:<id>:<hash>` holds the sealed template of identity
//! `<id>` whose embedding has the hash `<hash>`. The hash is part of the
//! key because a re-enrollment writes the new template before the hash
//! pointer moves and removes the earlier one only afterwards: for a while
//! the vault holds both, side by side, and the pointer tells which one
//! counts. A key of the identity id alone would have the new template
//! overwrite the one that the pointer still names. So a template is read
//! and removed by identity id and hash pointer together.
//!
//! Every hash pointer that the engine writes is 64 characters long. Keys
//! of templates whose hashes have one length are different for different
//! identities or different hashes (`lemma_template_key_injective`); with
//! hashes of different lengths, an id that holds a `:` could give the key
//! of another id.
//!
//! The engine removes a template by its key and cannot list keys. When
//! the removal of an earlier template fails, the registration is undone.
//! Only when the undoing fails as well, or when the putting back fails
//! after a registry write that failed, does a template stay in the vault
//! that no pointer names; it stays until it is removed from outside.

use vstd::prelude::*;
use crate::bytes::extend;

verus! {

/// The bytes of `record:`.
pub open spec fn record_prefix() -> Seq<u8> {
    seq![114u8, 101, 99, 111, 114, 100, 58]
}

/// The bytes of `did_index:`.
pub open spec fn did_index_prefix() -> Seq<u8> {
    seq![100u8, 105, 100, 95, 105, 110, 100, 101, 120, 58]
}

/// The bytes of `face_ptr:`.
pub open spec fn pointer_prefix() -> Seq<u8> {
    seq![102u8, 97, 99, 101, 95, 112, 116, 114, 58]
}

/// The bytes of `template:`.
pub open spec fn template_prefix() -> Seq<u8> {
    seq![116u8, 101, 109, 112, 108, 97, 116, 101, 58]
}

/// The byte `:` that parts an identity id from a hash.
pub const SEPARATOR: u8 = 58;

/// The registry key of the record of identity `id`.
pub open spec fn record_key(id: Seq<u8>) -> Seq<u8> {
    record_prefix() + id
}

/// The registry key of the index entry of `did`.
pub open spec fn did_index_key(did: Seq<u8>) -> Seq<u8> {
    did_index_prefix() + did
}

/// The registry key of the hash pointer of identity `id`.
pub open spec fn pointer_key(id: Seq<u8>) -> Seq<u8> {
    pointer_prefix() + id
}

/// The vault key of the template of identity `id` with hash `hash`:
/// `template:<id>:<hash>`, so that the earlier and the new template of an
/// identity have different keys while a re-enrollment is under way.
pub open spec fn template_key(id: Seq<u8>, hash: Seq<u8>) -> Seq<u8> {
    template_prefix() + id + seq![SEPARATOR] + hash
}

/// Builds the registry key of a record.
pub fn record_key_of(id: &[u8]) -> (key: Vec<u8>)
    ensures
        key@ == record_key(id@),
{
    let mut key: Vec<u8> = vec![114u8, 101, 99, 111, 114, 100, 58];
    assert(key@ =~= record_prefix());
    extend(&mut key, id);
    key
}

/// Builds the registry key of an index entry.
pub fn did_index_key_of(did: &[u8]) -> (key: Vec<u8>)
    ensures
        key@ == did_index_key(did@),
{
    let mut key: Vec<u8> = vec![100u8, 105, 100, 95, 105, 110, 100, 101, 120, 58];
    assert(key@ =~= did_index_prefix());
    extend(&mut key, did);
    key
}

/// Builds the registry key of a hash pointer.
pub fn pointer_key_of(id: &[u8]) -> (key: Vec<u8>)
    ensures
        key@ == pointer_key(id@),
{
    let mut key: Vec<u8> = vec![102u8, 97, 99, 101, 95, 112, 116, 114, 58];
    assert(key@ =~= pointer_prefix());
    extend(&mut key, id);
    key
}

/// Builds the vault key of a template.
pub fn template_key_of(id: &[u8], hash: &[u8]) -> (key: Vec<u8>)
    ensures
        key@ == template_key(id@, hash@),
{
    let mut key: Vec<u8> = vec![116u8, 101, 109, 112, 108, 97, 116, 101, 58];
    assert(key@ =~= template_prefix());
    extend(&mut key, id);
    key.push(SEPARATOR);
    assert(key@ =~= template_prefix() + id@ + seq![SEPARATOR]);
    extend(&mut key, hash);
    key
}

/// Keys of different kinds never meet: they differ in their first byte.
pub proof fn lemma_registry_keys_apart(a: Seq<u8>, b: Seq<u8>)
    ensures
        record_key(a) != did_index_key(b),
        record_key(a) != pointer_key(b),
        did_index_key(a) != pointer_key(b),
{
    assert(record_key(a)[0] == 114);
    assert(did_index_key(b)[0] == 100);
    assert(pointer_key(b)[0] == 102);
    assert(did_index_key(a)[0] == 100);
}

/// Two byte strings behind one prefix are equal when the whole keys are.
pub proof fn lemma_same_prefix(prefix: Seq<u8>, a: Seq<u8>, b: Seq<u8>)
    requires
        prefix + a == prefix + b,
    ensures
        a == b,
{
    let n = prefix.len() as int;
    assert((prefix + a).len() == n + a.len());
    assert((prefix + b).len() == n + b.len());
    assert(a.len() == b.len());
    assert forall|i: int| 0 <= i < a.len() implies a[i] == b[i] by {
        assert((prefix + a)[n + i] == a[i]);
        assert((prefix + b)[n + i] == b[i]);
    }
    assert(a =~= b);
}

/// Each kind of registry key names one identity or one DID only.
pub proof fn lemma_registry_keys_injective(a: Seq<u8>, b: Seq<u8>)
    ensures
        record_key(a) == record_key(b) ==> a == b,
        did_index_key(a) == did_index_key(b) ==> a == b,
        pointer_key(a) == pointer_key(b) ==> a == b,
{
    if record_key(a) == record_key(b) {
        lemma_same_prefix(record_prefix(), a, b);
    }
    if did_index_key(a) == did_index_key(b) {
        lemma_same_prefix(did_index_prefix(), a, b);
    }
    if pointer_key(a) == pointer_key(b) {
        lemma_same_prefix(pointer_prefix(), a, b);
    }
}

/// Two templates of one identity have one key only when they have one
/// hash.
pub proof fn lemma_template_key_tells_hash(id: Seq<u8>, first: Seq<u8>, second: Seq<u8>)
    requires
        template_key(id, first) == template_key(id, second),
    ensures
        first == second,
{
    lemma_same_prefix(template_prefix() + id + seq![SEPARATOR], first, second);
}

/// Templates with hashes of one length have one key only when they belong
/// to one identity and have one hash.
pub proof fn lemma_template_key_injective(a: Seq<u8>, first: Seq<u8>, b: Seq<u8>, second: Seq<u8>)
    requires
        first.len() == second.len(),
        template_key(a, first) == template_key(b, second),
    ensures
        a == b,
        first == second,
{
    let ka = template_key(a, first);
    let kb = template_key(b, second);
    let p = template_prefix().len() as int;
    assert(ka.len() == p + a.len() + 1 + first.len());
    assert(kb.len() == p + b.len() + 1 + second.len());
    assert forall|i: int| 0 <= i < a.len() implies a[i] == b[i] by {
        assert(ka[p + i] == a[i]);
        assert(kb[p + i] == b[i]);
    }
    assert(a =~= b);
    lemma_template_key_tells_hash(a, first, second);
}

} // verus!
