//! The two stores: the registry of identity records and hash pointers, and
//! the vault of sealed templates.
//!
//! Neither type here holds a database. Each builds the operations that a
//! store is asked to perform and reads the replies that come back.

use vstd::prelude::*;
use vstd::string::*;
use vstd::utf8::encode_utf8;
use crate::bytes::{copy_of, same_bytes};
use crate::exchange::{
    bytes_view, delete, failure_reason, put, MutationView, Reply, ReplyView, StoreOp, StoreOpView,
};
use crate::face_recognition::face_hash_of;
use crate::hash::{sha256, to_hex};
use crate::storage::keys::{
    did_index_key, did_index_key_of, pointer_key, pointer_key_of, record_key, record_key_of,
    template_key, template_key_of,
};
use crate::storage::seal::{derive_key, open, opened, seal, sealed, vault_key};
use crate::storage::template::{decoded, encoded, Template, TemplateView};
use crate::types::{FaceData, FaceDataView, StorageConfig, UserInfo};

pub mod keys;
pub mod seal;
pub mod template;

verus! {

/// Why a store could not serve.
#[derive(Debug, Clone, PartialEq, Eq)]
pub enum StorageError {
    /// Nothing is stored under what was asked for.
    NotFound(String),
    /// What is stored fails its authentication or is not what it must be.
    IntegrityError(String),
    /// The DID, or the identity, is already bound.
    DuplicateDid(String),
    /// The store itself failed.
    IoError(String),
}

/// A storage error, as mathematical values.
pub enum StorageErrorView {
    NotFound(Seq<char>),
    IntegrityError(Seq<char>),
    DuplicateDid(Seq<char>),
    IoError(Seq<char>),
}

impl View for StorageError {
    type V = StorageErrorView;

    open spec fn view(&self) -> StorageErrorView {
        match self {
            StorageError::NotFound(m) => StorageErrorView::NotFound(m@),
            StorageError::IntegrityError(m) => StorageErrorView::IntegrityError(m@),
            StorageError::DuplicateDid(m) => StorageErrorView::DuplicateDid(m@),
            StorageError::IoError(m) => StorageErrorView::IoError(m@),
        }
    }
}

impl StorageError {
    /// The error in words.
    pub open spec fn text(self) -> Seq<char> {
        match self {
            StorageError::NotFound(m) => "Not found: "@ + m@,
            StorageError::IntegrityError(m) => "Integrity error: "@ + m@,
            StorageError::DuplicateDid(m) => "Duplicate DID: "@ + m@,
            StorageError::IoError(m) => "I/O error: "@ + m@,
        }
    }

    /// Writes the error in words.
    pub fn message(&self) -> (text: String)
        ensures
            text@ == self.text(),
    {
        match self {
            StorageError::NotFound(m) => "Not found: ".to_owned().concat(m.as_str()),
            StorageError::IntegrityError(m) => "Integrity error: ".to_owned().concat(m.as_str()),
            StorageError::DuplicateDid(m) => "Duplicate DID: ".to_owned().concat(m.as_str()),
            StorageError::IoError(m) => "I/O error: ".to_owned().concat(m.as_str()),
        }
    }
}

/// What a reply to a read holds: the value or its absence, or the error of
/// a failed or mismatched reply.
pub open spec fn value_outcome(reply: ReplyView) -> Result<Option<Seq<u8>>, StorageErrorView> {
    match reply {
        ReplyView::Value(v) => Ok(v),
        _ => Err(StorageErrorView::IoError(failure_reason(reply))),
    }
}

/// What a reply to a write holds: success, or the error of a failed or
/// mismatched reply.
pub open spec fn write_outcome(reply: ReplyView) -> Result<(), StorageErrorView> {
    match reply {
        ReplyView::Done => Ok(()),
        _ => Err(StorageErrorView::IoError(failure_reason(reply))),
    }
}

/// The reason that a reply gives for not being the expected one.
pub fn reason_of(reply: Reply) -> (reason: String)
    ensures
        reason@ == failure_reason(reply@),
{
    match reply {
        Reply::Failed(reason) => reason,
        _ => "unexpected reply".to_owned(),
    }
}

/// Reads the reply to a read.
pub fn value_of(reply: Reply) -> (result: Result<Option<Vec<u8>>, StorageError>)
    ensures
        match value_outcome(reply@) {
            Ok(v) => result matches Ok(found) && bytes_view(found) == v,
            Err(e) => result matches Err(err) && err@ == e,
        },
{
    match reply {
        Reply::Value(v) => Ok(v),
        other => Err(StorageError::IoError(reason_of(other))),
    }
}

/// Reads the reply to a write.
pub fn done_of(reply: Reply) -> (result: Result<(), StorageError>)
    ensures
        match write_outcome(reply@) {
            Ok(_) => result is Ok,
            Err(e) => result matches Err(err) && err@ == e,
        },
{
    match reply {
        Reply::Done => Ok(()),
        other => Err(StorageError::IoError(reason_of(other))),
    }
}

/// Whether a DID can be registered for an identity, given the index entry
/// of the DID: a DID without an entry is free, a DID that names this
/// identity is its own, and a DID that names another identity is taken,
/// which is `DuplicateDid`. The answer tells whether the DID names this
/// identity already.
pub open spec fn did_claim(id: Seq<u8>, did: Seq<char>, found: Option<Seq<u8>>) -> Result<
    bool,
    StorageErrorView,
> {
    match found {
        None => Ok(false),
        Some(owner) => if owner == id {
            Ok(true)
        } else {
            Err(StorageErrorView::DuplicateDid(did))
        },
    }
}

/// Whether an identity can be stored under a DID, given the index entry of
/// the DID and the record of the identity as the registry holds them.
///
/// A DID that names another identity is taken, which is `DuplicateDid`
/// with the DID. An identity that has a record while the DID is free is
/// the identity of another DID, which is `DuplicateDid` with the identity
/// id. Else the identity can be stored, and the answer tells whether the
/// DID names it already.
pub open spec fn store_claim(
    user_id: Seq<char>,
    did: Seq<char>,
    found: Option<Seq<u8>>,
    existing: Option<Seq<u8>>,
) -> Result<bool, StorageErrorView> {
    match did_claim(encode_utf8(user_id), did, found) {
        Err(e) => Err(e),
        Ok(indexed) => if !indexed && existing is Some {
            Err(StorageErrorView::DuplicateDid(user_id))
        } else {
            Ok(indexed)
        },
    }
}

/// The changes that store the record of an identity: the record alone
/// when the DID names the identity already, and the record with the index
/// entry of the DID when the DID is new. The hash pointer is no part of
/// them.
pub open spec fn record_batch(id: Seq<u8>, did: Seq<u8>, record: Seq<u8>, indexed: bool) -> Seq<
    MutationView,
> {
    if indexed {
        seq![MutationView { key: record_key(id), value: Some(record) }]
    } else {
        seq![
            MutationView { key: record_key(id), value: Some(record) },
            MutationView { key: did_index_key(did), value: Some(id) },
        ]
    }
}

/// The change that moves the hash pointer of an identity.
pub open spec fn pointer_batch(id: Seq<u8>, hash: Seq<u8>) -> Seq<MutationView> {
    seq![MutationView { key: pointer_key(id), value: Some(hash) }]
}

/// The text of the error for an identity that the registry does not hold.
pub open spec fn unknown_identity(user_id: Seq<char>) -> Seq<char> {
    "Face hash for user "@ + user_id + " not found"@
}

/// The registry: identity records and hash pointers, found by identity id
/// and by DID.
#[derive(Debug, Clone, Copy, PartialEq, Eq, Structural)]
pub struct OnChainStorage {}

impl OnChainStorage {
    /// A registry. It never fails.
    pub fn new() -> (result: Result<OnChainStorage, StorageError>)
        ensures
            result is Ok,
    {
        Ok(OnChainStorage {  })
    }

    /// Asks which identity a DID names.
    pub fn find_did(&self, did: &str) -> (op: StoreOp)
        ensures
            op@ == (StoreOpView::Read { key: did_index_key(encode_utf8(did@)) }),
    {
        StoreOp::Read { key: did_index_key_of(did.as_bytes()) }
    }

    /// Reads the index entry of a DID for a registration: refuses a DID
    /// that names another identity with `DuplicateDid`, and else tells
    /// whether the DID names this identity already.
    pub fn claim_did(&self, user_id: &str, did: &str, found: &Option<Vec<u8>>) -> (result: Result<
        bool,
        StorageError,
    >)
        ensures
            match did_claim(encode_utf8(user_id@), did@, bytes_view(*found)) {
                Ok(indexed) => result == Ok::<bool, StorageError>(indexed),
                Err(e) => result matches Err(err) && err@ == e,
            },
    {
        match found {
            None => Ok(false),
            Some(owner) => {
                if same_bytes(owner.as_slice(), user_id.as_bytes()) {
                    Ok(true)
                } else {
                    Err(StorageError::DuplicateDid(did.to_owned()))
                }
            },
        }
    }

    /// Stores the record of an identity.
    ///
    /// `found` is the index entry of the DID and `existing` the record of
    /// the identity, as the registry holds them. The store is refused with
    /// `DuplicateDid` when the DID names another identity, and when the
    /// DID is free while the identity has a record and so belongs to
    /// another DID. Else the write holds the record, and the index entry
    /// of the DID when the DID is new. It never holds a hash pointer: that
    /// one moves through `store_face_hash` only.
    pub fn store_user_info(
        &self,
        user_info: &UserInfo,
        record: &[u8],
        found: &Option<Vec<u8>>,
        existing: &Option<Vec<u8>>,
    ) -> (result: Result<StoreOp, StorageError>)
        ensures
            match store_claim(
                user_info.id@,
                user_info.did@,
                bytes_view(*found),
                bytes_view(*existing),
            ) {
                Ok(indexed) => result matches Ok(op) && op@ == (StoreOpView::Write {
                    batch: record_batch(
                        encode_utf8(user_info.id@),
                        encode_utf8(user_info.did@),
                        record@,
                        indexed,
                    ),
                }),
                Err(e) => result matches Err(err) && err@ == e,
            },
    {
        let indexed = match self.claim_did(user_info.id.as_str(), user_info.did.as_str(), found) {
            Ok(indexed) => indexed,
            Err(e) => {
                return Err(e);
            },
        };
        if !indexed && existing.is_some() {
            return Err(StorageError::DuplicateDid(user_info.id.clone()));
        }
        let id = user_info.id.as_str().as_bytes();
        let first = put(record_key_of(id), copy_of(record));
        let op = if indexed {
            let batch = vec![first];
            let op = StoreOp::Write { batch };
            assert(op@->Write_batch =~= seq![first@]);
            op
        } else {
            let second = put(did_index_key_of(user_info.did.as_str().as_bytes()), copy_of(id));
            let batch = vec![first, second];
            let op = StoreOp::Write { batch };
            assert(op@->Write_batch =~= seq![first@, second@]);
            op
        };
        Ok(op)
    }

    /// Asks for the serialized record of an identity.
    pub fn get_user_info(&self, user_id: &str) -> (op: StoreOp)
        ensures
            op@ == (StoreOpView::Read { key: record_key(encode_utf8(user_id@)) }),
    {
        StoreOp::Read { key: record_key_of(user_id.as_bytes()) }
    }

    /// Reads the reply to `get_user_info`: the serialized record;
    /// `NotFound` when the registry holds none; `IoError` when the read
    /// failed.
    pub fn user_info_from(&self, user_id: &str, reply: Reply) -> (result: Result<
        Vec<u8>,
        StorageError,
    >)
        ensures
            match value_outcome(reply@) {
                Ok(Some(v)) => result matches Ok(record) && record@ == v,
                Ok(None) => result matches Err(err) && err@ == StorageErrorView::NotFound(
                    "User "@ + user_id@ + " not found"@,
                ),
                Err(e) => result matches Err(err) && err@ == e,
            },
    {
        match value_of(reply) {
            Ok(Some(record)) => Ok(record),
            Ok(None) => Err(
                StorageError::NotFound("User ".to_owned().concat(user_id).concat(" not found")),
            ),
            Err(e) => Err(e),
        }
    }

    /// Moves the hash pointer of an identity: builds the write of the one
    /// entry, whatever the registry holds.
    pub fn store_face_hash(&self, user_id: &str, face_hash: &str) -> (op: StoreOp)
        ensures
            op@ == (StoreOpView::Write {
                batch: pointer_batch(encode_utf8(user_id@), encode_utf8(face_hash@)),
            }),
    {
        let change = put(pointer_key_of(user_id.as_bytes()), copy_of(face_hash.as_bytes()));
        let batch = vec![change];
        let op = StoreOp::Write { batch };
        assert(op@->Write_batch =~= seq![change@]);
        op
    }

    /// Asks for the hash pointer of an identity.
    pub fn get_face_hash(&self, user_id: &str) -> (op: StoreOp)
        ensures
            op@ == (StoreOpView::Read { key: pointer_key(encode_utf8(user_id@)) }),
    {
        StoreOp::Read { key: pointer_key_of(user_id.as_bytes()) }
    }

    /// Reads the reply to `get_face_hash`: the bytes of the hash pointer;
    /// `NotFound` when the identity has none; `IoError` when the read
    /// failed.
    pub fn face_hash_from(&self, user_id: &str, reply: Reply) -> (result: Result<
        Vec<u8>,
        StorageError,
    >)
        ensures
            match value_outcome(reply@) {
                Ok(Some(v)) => result matches Ok(hash) && hash@ == v,
                Ok(None) => result matches Err(err) && err@ == StorageErrorView::NotFound(
                    unknown_identity(user_id@),
                ),
                Err(e) => result matches Err(err) && err@ == e,
            },
    {
        match value_of(reply) {
            Ok(Some(hash)) => Ok(hash),
            Ok(None) => Err(StorageError::NotFound(unknown_identity_text(user_id))),
            Err(e) => Err(e),
        }
    }
}

/// Writes the text of the error for an identity that the registry does
/// not hold.
pub fn unknown_identity_text(user_id: &str) -> (text: String)
    ensures
        text@ == unknown_identity(user_id@),
{
    "Face hash for user ".to_owned().concat(user_id).concat(" not found")
}

/// The stored form of a template: its owner as the bytes of the identity
/// id, without the hash pointer, which its embedding determines.
pub open spec fn stored_form(template: FaceDataView) -> TemplateView {
    TemplateView {
        owner: encode_utf8(template.user_id),
        embedding: template.face_data,
        angles: template.angles,
        created_at: template.created_at,
    }
}

/// The template inside an envelope: the envelope opens under `key` and its
/// plaintext is the byte form of a template.
pub open spec fn unsealed(key: Seq<u8>, envelope: Seq<u8>) -> Option<TemplateView> {
    match opened(key, envelope) {
        Some(plaintext) => decoded(plaintext),
        None => None,
    }
}

/// The text of the error for a template whose hash pointer is not the
/// hash of its embedding.
pub open spec fn hash_mismatch() -> Seq<char> {
    "hash pointer is not the hash of the embedding"@
}

/// Whether the hash pointer of a template is the hash of its embedding.
pub open spec fn content_addressed(template: FaceDataView) -> bool {
    template.face_hash == face_hash_of(template.face_data)
}

/// What a read of a template gives for the identity whose id has the
/// bytes `owner`, from the reply to the read.
///
/// `IoError` when the read failed; nothing when the vault holds no entry;
/// `IntegrityError` when the entry does not open or holds no template,
/// and when it holds the template of another identity; else the template.
pub open spec fn template_outcome(key: Seq<u8>, owner: Seq<u8>, reply: ReplyView) -> Result<
    Option<TemplateView>,
    StorageErrorView,
> {
    match value_outcome(reply) {
        Err(e) => Err(e),
        Ok(None) => Ok(None),
        Ok(Some(envelope)) => match unsealed(key, envelope) {
            None => Err(StorageErrorView::IntegrityError(not_authentic())),
            Some(t) => if t.owner == owner {
                Ok(Some(t))
            } else {
                Err(StorageErrorView::IntegrityError(wrong_owner()))
            },
        },
    }
}

/// What a read of a template gives for identity `user_id`, from the reply
/// to the read.
///
/// `IoError` when the read failed; `NotFound` when the vault holds no
/// entry; `IntegrityError` when the entry does not open, holds no
/// template, or holds the template of another identity; else the
/// template, with the hash pointer that its embedding has.
pub open spec fn face_data_outcome(key: Seq<u8>, user_id: Seq<char>, reply: ReplyView) -> Result<
    FaceDataView,
    StorageErrorView,
> {
    match template_outcome(key, encode_utf8(user_id), reply) {
        Err(e) => Err(e),
        Ok(None) => Err(
            StorageErrorView::NotFound("Face data for user "@ + user_id + " not found"@),
        ),
        Ok(Some(t)) => Ok(
            FaceDataView {
                user_id,
                face_hash: face_hash_of(t.embedding),
                face_data: t.embedding,
                angles: t.angles,
                created_at: t.created_at,
            },
        ),
    }
}

/// The text of the error for an envelope that does not open.
pub open spec fn not_authentic() -> Seq<char> {
    "stored data failed authentication"@
}

/// The text of the error for a template that is stored for one identity
/// and belongs to another.
pub open spec fn wrong_owner() -> Seq<char> {
    "template belongs to another identity"@
}

/// The write that puts a sealed template into the vault.
pub open spec fn template_put(
    key: Seq<u8>,
    id: Seq<u8>,
    hash: Seq<u8>,
    template: TemplateView,
) -> StoreOpView {
    StoreOpView::Write {
        batch: seq![
            MutationView {
                key: template_key(id, hash),
                value: Some(sealed(key, encoded(template))),
            },
        ],
    }
}

/// The write that removes a template from the vault.
pub open spec fn template_removal(id: Seq<u8>, hash: Seq<u8>) -> StoreOpView {
    StoreOpView::Write { batch: seq![MutationView { key: template_key(id, hash), value: None }] }
}

/// Builds the write that puts a sealed template into the vault.
pub(crate) fn template_put_op(key: &[u8], id: &[u8], hash: &[u8], template: &Template) -> (op: StoreOp)
    ensures
        op@ == template_put(key@, id@, hash@, template@),
{
    let plaintext = template.encode();
    let change = put(template_key_of(id, hash), seal(key, plaintext.as_slice()));
    let batch = vec![change];
    let op = StoreOp::Write { batch };
    assert(op@->Write_batch =~= seq![change@]);
    op
}

/// Builds the write that removes a template from the vault.
pub(crate) fn template_removal_op(id: &[u8], hash: &[u8]) -> (op: StoreOp)
    ensures
        op@ == template_removal(id@, hash@),
{
    let change = delete(template_key_of(id, hash));
    let batch = vec![change];
    let op = StoreOp::Write { batch };
    assert(op@->Write_batch =~= seq![change@]);
    op
}

/// The vault: sealed templates, found by identity id and hash pointer.
#[derive(Debug, Clone, PartialEq, Eq)]
pub struct OffChainStorage {
    encryption_key: Vec<u8>,
}

impl OffChainStorage {
    /// The vault key.
    pub closed spec fn key(&self) -> Seq<u8> {
        self.encryption_key@
    }

    /// A vault whose key is derived from the configured secret. It never
    /// fails.
    pub fn new(config: &StorageConfig) -> (result: Result<OffChainStorage, StorageError>)
        ensures
            result matches Ok(vault) && vault.key() == vault_key(
                encode_utf8(config.encryption_key@),
            ),
    {
        Ok(OffChainStorage { encryption_key: derive_key(config.encryption_key.as_str().as_bytes()) })
    }

    /// Seals `data` under the vault key. It never fails.
    pub fn encrypt_data(&self, data: &[u8]) -> (result: Result<Vec<u8>, StorageError>)
        ensures
            result matches Ok(envelope) && envelope@ == sealed(self.key(), data@),
    {
        Ok(seal(self.encryption_key.as_slice(), data))
    }

    /// Opens an envelope under the vault key: the plaintext, or
    /// `IntegrityError` when the envelope is too short or its tag does not
    /// belong to it.
    pub fn decrypt_data(&self, data: &[u8]) -> (result: Result<Vec<u8>, StorageError>)
        ensures
            match opened(self.key(), data@) {
                Some(plaintext) => result matches Ok(out) && out@ == plaintext,
                None => result matches Err(err) && err@ == StorageErrorView::IntegrityError(
                    not_authentic(),
                ),
            },
    {
        match open(self.encryption_key.as_slice(), data) {
            Some(plaintext) => Ok(plaintext),
            None => Err(StorageError::IntegrityError("stored data failed authentication".to_owned())),
        }
    }

    /// Opens an envelope and reads the template in it; nothing when the
    /// envelope does not open or does not hold a template.
    pub fn unseal(&self, envelope: &[u8]) -> (result: Option<Template>)
        ensures
            match unsealed(self.key(), envelope@) {
                Some(t) => result matches Some(template) && template@ == t,
                None => result is None,
            },
    {
        match open(self.encryption_key.as_slice(), envelope) {
            Some(plaintext) => Template::decode(plaintext.as_slice()),
            None => None,
        }
    }

    /// Builds the write that stores the template of an identity, sealed,
    /// under the identity id and the hash pointer of the template.
    ///
    /// The vault is addressed by content: a template whose hash pointer is
    /// not the hash of its embedding is refused with `IntegrityError`.
    /// What is stored is therefore read back as it was.
    pub fn store_face_data(&self, face_data: &FaceData) -> (result: Result<StoreOp, StorageError>)
        ensures
            if content_addressed(face_data@) {
                result matches Ok(op) && op@ == template_put(
                    self.key(),
                    encode_utf8(face_data.user_id@),
                    encode_utf8(face_data.face_hash@),
                    stored_form(face_data@),
                )
            } else {
                result matches Err(err) && err@ == StorageErrorView::IntegrityError(hash_mismatch())
            },
    {
        let digest = sha256(face_data.face_data.as_slice());
        let hash = to_hex(digest.as_slice());
        if hash != face_data.face_hash {
            return Err(
                StorageError::IntegrityError(
                    "hash pointer is not the hash of the embedding".to_owned(),
                ),
            );
        }
        let mut angles = Vec::new();
        let mut i: usize = 0;
        while i < face_data.angles.len()
            invariant
                i <= face_data.angles.len(),
                angles@ == face_data.angles@.take(i as int),
            decreases face_data.angles.len() - i,
        {
            angles.push(face_data.angles[i]);
            i += 1;
            assert(angles@ =~= face_data.angles@.take(i as int));
        }
        assert(face_data.angles@.take(face_data.angles@.len() as int) =~= face_data.angles@);
        let template = Template {
            owner: copy_of(face_data.user_id.as_str().as_bytes()),
            embedding: copy_of(face_data.face_data.as_slice()),
            angles,
            created_at: face_data.created_at,
        };
        Ok(
            template_put_op(
                self.encryption_key.as_slice(),
                face_data.user_id.as_str().as_bytes(),
                face_data.face_hash.as_str().as_bytes(),
                &template,
            ),
        )
    }

    /// Asks for the template of an identity with a given hash pointer, the
    /// pointer as the registry holds it.
    pub fn get_face_data(&self, user_id: &str, face_hash: &[u8]) -> (op: StoreOp)
        ensures
            op@ == (StoreOpView::Read { key: template_key(encode_utf8(user_id@), face_hash@) }),
    {
        StoreOp::Read { key: template_key_of(user_id.as_bytes(), face_hash) }
    }

    /// Builds the write that removes the template of an identity with a
    /// given hash pointer.
    pub fn delete_face_data(&self, user_id: &str, face_hash: &[u8]) -> (op: StoreOp)
        ensures
            op@ == template_removal(encode_utf8(user_id@), face_hash@),
    {
        template_removal_op(user_id.as_bytes(), face_hash)
    }

    /// Reads the reply to a read of the template of the identity whose id
    /// has the bytes `owner`: what `template_outcome` says.
    pub fn template_from(&self, owner: &[u8], reply: Reply) -> (result: Result<
        Option<Template>,
        StorageError,
    >)
        ensures
            match template_outcome(self.key(), owner@, reply@) {
                Ok(Some(t)) => result matches Ok(Some(template)) && template@ == t,
                Ok(None) => result matches Ok(None),
                Err(e) => result matches Err(err) && err@ == e,
            },
    {
        let envelope = match value_of(reply) {
            Ok(Some(envelope)) => envelope,
            Ok(None) => {
                return Ok(None);
            },
            Err(e) => {
                return Err(e);
            },
        };
        let template = match self.unseal(envelope.as_slice()) {
            Some(template) => template,
            None => {
                return Err(
                    StorageError::IntegrityError("stored data failed authentication".to_owned()),
                );
            },
        };
        if !same_bytes(template.owner.as_slice(), owner) {
            return Err(
                StorageError::IntegrityError("template belongs to another identity".to_owned()),
            );
        }
        Ok(Some(template))
    }

    /// Reads the reply to `get_face_data`: what `face_data_outcome` says.
    pub fn face_data_from(&self, user_id: &str, reply: Reply) -> (result: Result<
        FaceData,
        StorageError,
    >)
        ensures
            match face_data_outcome(self.key(), user_id@, reply@) {
                Ok(t) => result matches Ok(template) && template@ == t,
                Err(e) => result matches Err(err) && err@ == e,
            },
    {
        let template = match self.template_from(user_id.as_bytes(), reply) {
            Ok(Some(template)) => template,
            Ok(None) => {
                return Err(
                    StorageError::NotFound(
                        "Face data for user ".to_owned().concat(user_id).concat(" not found"),
                    ),
                );
            },
            Err(e) => {
                return Err(e);
            },
        };
        let digest = sha256(template.embedding.as_slice());
        Ok(
            FaceData {
                user_id: user_id.to_owned(),
                face_hash: to_hex(digest.as_slice()),
                face_data: template.embedding,
                angles: template.angles,
                created_at: template.created_at,
            },
        )
    }
}

} // verus!
