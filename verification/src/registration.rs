//! Registration and re-enrollment of an identity.
//!
//! The registry is read first: the index entry of the DID, the record of
//! the identity and its hash pointer. The registry's store decides from
//! the first two whether the identity can be stored under the DID. Then
//! the template is written to the vault, and only then is the registry
//! made to point at it, so the registry never points at a template that
//! is not there.
//!
//! A registration is all or nothing. Before the vault is written, what it
//! holds under the key of the new template is read. When the registry
//! write fails, that is put back, and the failure of the registry write is
//! reported. On re-enrollment the earlier template is removed only after
//! the hash pointer has moved; when that removal fails, the registry write
//! is undone, what the vault held is put back, and the failure of the
//! removal is reported. A registration that ends with an error has not
//! changed the registry, and has not changed the vault unless the putting
//! back failed as well.
//!
//! Only when the undoing of the registry write fails in turn does the
//! registration stand, and end with success, while the earlier template
//! is still in the vault, named by no pointer.

use vstd::prelude::*;
use vstd::utf8::encode_utf8;
use crate::bytes::same_bytes;
use crate::exchange::{
    bytes_view, copy_entry, join, joined, restore, restoring, Reply, ReplyView, Request,
    RequestView, Step, StepView, StoreOp, StoreOpView,
};
use crate::face_recognition::{
    canonical_of, capture_outcome, template_of, FaceRecognition, Frame,
};
use crate::storage::keys::{
    did_index_key, did_index_key_of, pointer_key, pointer_key_of, record_key, record_key_of,
    template_key, template_key_of,
};
use crate::storage::{
    done_of, pointer_batch, record_batch, store_claim, stored_form, template_put,
    template_removal, value_of, value_outcome, write_outcome, OffChainStorage, OnChainStorage,
    StorageError, StorageErrorView,
};
use crate::types::UserInfo;
use crate::{DilokDidError, DilokDidErrorView};

verus! {

/// What a registration waits for.
#[derive(Debug, Clone, PartialEq, Eq)]
pub enum Phase {
    /// The index entry of the DID. The vault write is kept for later.
    Index { write: StoreOp },
    /// The record of the identity; `found` is the index entry of the DID.
    Record { write: StoreOp, found: Option<Vec<u8>> },
    /// The hash pointer of the identity; `storing` is the write of the
    /// record that the registry's store has built, `found` and `existing`
    /// are the index entry and the record as the registry holds them.
    Pointer { write: StoreOp, storing: StoreOp, found: Option<Vec<u8>>, existing: Option<Vec<u8>> },
    /// What the vault holds under the key of the new template; `commit`
    /// is the registry write, `undo` the write that puts the registry
    /// back, and `prior` the hash pointer of the earlier template when
    /// there is one with another hash.
    Before { write: StoreOp, commit: StoreOp, undo: StoreOp, prior: Option<Vec<u8>> },
    /// The write of the new template to the vault; `before` is what the
    /// vault held under its key.
    VaultWrite { commit: StoreOp, undo: StoreOp, prior: Option<Vec<u8>>, before: Option<Vec<u8>> },
    /// The write to the registry.
    Commit { undo: StoreOp, prior: Option<Vec<u8>>, before: Option<Vec<u8>> },
    /// The removal of the earlier template.
    Cleanup { undo: StoreOp, before: Option<Vec<u8>> },
    /// The undoing of the registry write, after the removal of the
    /// earlier template failed with `cause`.
    Undo { cause: StorageError, before: Option<Vec<u8>> },
    /// The putting back of what the vault held, after the failure
    /// `cause`.
    Compensate { cause: StorageError },
}

/// A phase, as mathematical values.
pub enum PhaseView {
    Index { write: StoreOpView },
    Record { write: StoreOpView, found: Option<Seq<u8>> },
    Pointer {
        write: StoreOpView,
        storing: StoreOpView,
        found: Option<Seq<u8>>,
        existing: Option<Seq<u8>>,
    },
    Before { write: StoreOpView, commit: StoreOpView, undo: StoreOpView, prior: Option<Seq<u8>> },
    VaultWrite {
        commit: StoreOpView,
        undo: StoreOpView,
        prior: Option<Seq<u8>>,
        before: Option<Seq<u8>>,
    },
    Commit { undo: StoreOpView, prior: Option<Seq<u8>>, before: Option<Seq<u8>> },
    Cleanup { undo: StoreOpView, before: Option<Seq<u8>> },
    Undo { cause: StorageErrorView, before: Option<Seq<u8>> },
    Compensate { cause: StorageErrorView },
}

impl View for Phase {
    type V = PhaseView;

    open spec fn view(&self) -> PhaseView {
        match self {
            Phase::Index { write } => PhaseView::Index { write: write@ },
            Phase::Record { write, found } => PhaseView::Record {
                write: write@,
                found: bytes_view(*found),
            },
            Phase::Pointer { write, storing, found, existing } => PhaseView::Pointer {
                write: write@,
                storing: storing@,
                found: bytes_view(*found),
                existing: bytes_view(*existing),
            },
            Phase::Before { write, commit, undo, prior } => PhaseView::Before {
                write: write@,
                commit: commit@,
                undo: undo@,
                prior: bytes_view(*prior),
            },
            Phase::VaultWrite { commit, undo, prior, before } => PhaseView::VaultWrite {
                commit: commit@,
                undo: undo@,
                prior: bytes_view(*prior),
                before: bytes_view(*before),
            },
            Phase::Commit { undo, prior, before } => PhaseView::Commit {
                undo: undo@,
                prior: bytes_view(*prior),
                before: bytes_view(*before),
            },
            Phase::Cleanup { undo, before } => PhaseView::Cleanup {
                undo: undo@,
                before: bytes_view(*before),
            },
            Phase::Undo { cause, before } => PhaseView::Undo {
                cause: cause@,
                before: bytes_view(*before),
            },
            Phase::Compensate { cause } => PhaseView::Compensate { cause: cause@ },
        }
    }
}

/// A registration under way: the identity, with the hash pointer of the
/// new template in `face_hash`, its serialized record, and what the
/// registration waits for.
#[derive(Debug, Clone, PartialEq, Eq)]
pub struct Registration {
    pub user_info: UserInfo,
    pub record: Vec<u8>,
    pub phase: Phase,
}

/// A registration under way, as mathematical values.
pub struct RegistrationView {
    pub user_id: Seq<char>,
    pub did: Seq<char>,
    pub record: Seq<u8>,
    pub face_hash: Seq<char>,
    pub phase: PhaseView,
}

impl View for Registration {
    type V = RegistrationView;

    open spec fn view(&self) -> RegistrationView {
        RegistrationView {
            user_id: self.user_info.id@,
            did: self.user_info.did@,
            record: self.record@,
            face_hash: self.user_info.face_hash@,
            phase: self.phase@,
        }
    }
}

/// The hash pointer of the earlier template that a registration has to
/// remove: the pointer that the identity has, when it has one and it is
/// not the hash of the new template.
pub open spec fn earlier(pointer: Option<Seq<u8>>, hash: Seq<u8>) -> Option<Seq<u8>> {
    match pointer {
        Some(prior) => if prior == hash {
            None
        } else {
            Some(prior)
        },
        None => None,
    }
}

/// The write that puts the registry back as it was: the record of the
/// identity, the index entry of the DID and the hash pointer of the
/// identity, each as the registry held it, or gone when it held none.
pub open spec fn undoing(
    id: Seq<u8>,
    did: Seq<u8>,
    existing: Option<Seq<u8>>,
    found: Option<Seq<u8>>,
    pointer: Option<Seq<u8>>,
) -> StoreOpView {
    joined(
        restoring(record_key(id), existing),
        joined(restoring(did_index_key(did), found), restoring(pointer_key(id), pointer)),
    )
}

/// The step that ends a registration with a storage error.
pub open spec fn refused(e: StorageErrorView) -> StepView<RegistrationView, Seq<char>> {
    StepView::Finish(Err(DilokDidErrorView::StorageError(e)))
}

/// The registration in another phase.
pub open spec fn in_phase(s: RegistrationView, phase: PhaseView) -> RegistrationView {
    RegistrationView { phase, ..s }
}

/// How a registration begins.
///
/// A capture that fails ends it at once with the error of the capture, and
/// nothing is asked of any store. Else the template is built and sealed,
/// and the index entry of the DID is asked for.
pub open spec fn registration_start(
    recognizer: FaceRecognition,
    key: Seq<u8>,
    user_id: Seq<char>,
    did: Seq<char>,
    record: Seq<u8>,
    frames: Seq<Frame>,
    now: i64,
) -> StepView<RegistrationView, Seq<char>> {
    match capture_outcome(frames, recognizer.quality_threshold) {
        Err(e) => StepView::Finish(Err(DilokDidErrorView::FaceRecognitionError(e))),
        Ok(samples) => {
            let template = template_of(samples, canonical_of(samples), user_id, now);
            StepView::Continue(
                RegistrationView {
                    user_id,
                    did,
                    record,
                    face_hash: template.face_hash,
                    phase: PhaseView::Index {
                        write: template_put(
                            key,
                            encode_utf8(user_id),
                            encode_utf8(template.face_hash),
                            stored_form(template),
                        ),
                    },
                },
                RequestView::Registry(StoreOpView::Read { key: did_index_key(encode_utf8(did)) }),
            )
        },
    }
}

/// What a registration in state `s` does when `reply` comes.
///
/// - The three reads of the registry follow one another. After the second
///   the registry's store decides: a DID that names another identity, and
///   an identity that has a record under another DID, end the registration
///   with `DuplicateDid`.
/// - The registry write is the write of the record, as the store built it,
///   joined with the move of the hash pointer.
/// - What the vault holds under the key of the new template is read, and
///   the new template is written.
/// - When the registry write fails, what the vault held is put back, and
///   the failure of the registry write is the result, whatever comes of
///   the putting back.
/// - When the registry write succeeds and there is no earlier template
///   with another hash, the identity id is the result. Else the earlier
///   template is removed, and the identity id is the result.
/// - When that removal fails, the registry write is undone and what the
///   vault held is put back; the failure of the removal is the result.
///   Only when the undoing fails as well does the registration stand: the
///   identity id is the result.
/// - A read that fails, and a vault write that fails, end the registration
///   with their error.
pub open spec fn registration_next(s: RegistrationView, reply: ReplyView) -> StepView<
    RegistrationView,
    Seq<char>,
> {
    let id = encode_utf8(s.user_id);
    let did = encode_utf8(s.did);
    let hash = encode_utf8(s.face_hash);
    match s.phase {
        PhaseView::Index { write } => match value_outcome(reply) {
            Err(e) => refused(e),
            Ok(found) => StepView::Continue(
                in_phase(s, PhaseView::Record { write, found }),
                RequestView::Registry(StoreOpView::Read { key: record_key(id) }),
            ),
        },
        PhaseView::Record { write, found } => match value_outcome(reply) {
            Err(e) => refused(e),
            Ok(existing) => match store_claim(s.user_id, s.did, found, existing) {
                Err(e) => refused(e),
                Ok(indexed) => StepView::Continue(
                    in_phase(
                        s,
                        PhaseView::Pointer {
                            write,
                            storing: StoreOpView::Write {
                                batch: record_batch(id, did, s.record, indexed),
                            },
                            found,
                            existing,
                        },
                    ),
                    RequestView::Registry(StoreOpView::Read { key: pointer_key(id) }),
                ),
            },
        },
        PhaseView::Pointer { write, storing, found, existing } => match value_outcome(reply) {
            Err(e) => refused(e),
            Ok(pointer) => StepView::Continue(
                in_phase(
                    s,
                    PhaseView::Before {
                        write,
                        commit: joined(
                            storing,
                            StoreOpView::Write { batch: pointer_batch(id, hash) },
                        ),
                        undo: undoing(id, did, existing, found, pointer),
                        prior: earlier(pointer, hash),
                    },
                ),
                RequestView::Vault(StoreOpView::Read { key: template_key(id, hash) }),
            ),
        },
        PhaseView::Before { write, commit, undo, prior } => match value_outcome(reply) {
            Err(e) => refused(e),
            Ok(before) => StepView::Continue(
                in_phase(s, PhaseView::VaultWrite { commit, undo, prior, before }),
                RequestView::Vault(write),
            ),
        },
        PhaseView::VaultWrite { commit, undo, prior, before } => match write_outcome(reply) {
            Err(e) => refused(e),
            Ok(_) => StepView::Continue(
                in_phase(s, PhaseView::Commit { undo, prior, before }),
                RequestView::Registry(commit),
            ),
        },
        PhaseView::Commit { undo, prior, before } => match write_outcome(reply) {
            Ok(_) => match prior {
                Some(hash_before) => StepView::Continue(
                    in_phase(s, PhaseView::Cleanup { undo, before }),
                    RequestView::Vault(template_removal(id, hash_before)),
                ),
                None => StepView::Finish(Ok(s.user_id)),
            },
            Err(e) => StepView::Continue(
                in_phase(s, PhaseView::Compensate { cause: e }),
                RequestView::Vault(restoring(template_key(id, hash), before)),
            ),
        },
        PhaseView::Cleanup { undo, before } => match write_outcome(reply) {
            Ok(_) => StepView::Finish(Ok(s.user_id)),
            Err(e) => StepView::Continue(
                in_phase(s, PhaseView::Undo { cause: e, before }),
                RequestView::Registry(undo),
            ),
        },
        PhaseView::Undo { cause, before } => match write_outcome(reply) {
            Ok(_) => StepView::Continue(
                in_phase(s, PhaseView::Compensate { cause }),
                RequestView::Vault(restoring(template_key(id, hash), before)),
            ),
            Err(_) => StepView::Finish(Ok(s.user_id)),
        },
        PhaseView::Compensate { cause } => refused(cause),
    }
}

impl Registration {
    /// Takes the reply to the request that is out and says what comes
    /// next.
    pub fn step(self, registry: &OnChainStorage, vault: &OffChainStorage, reply: Reply) -> (next:
        Step<Registration, String>)
        ensures
            next@ == registration_next(self@, reply@),
    {
        let Registration { user_info, record, phase } = self;
        match phase {
            Phase::Index { write } => match value_of(reply) {
                Err(e) => Step::Finish(Err(DilokDidError::StorageError(e))),
                Ok(found) => {
                    let request = Request::Registry(registry.get_user_info(user_info.id.as_str()));
                    Step::Continue(
                        Registration { user_info, record, phase: Phase::Record { write, found } },
                        request,
                    )
                },
            },
            Phase::Record { write, found } => match value_of(reply) {
                Err(e) => Step::Finish(Err(DilokDidError::StorageError(e))),
                Ok(existing) => match registry.store_user_info(
                    &user_info,
                    record.as_slice(),
                    &found,
                    &existing,
                ) {
                    Err(e) => Step::Finish(Err(DilokDidError::StorageError(e))),
                    Ok(storing) => {
                        let request = Request::Registry(
                            registry.get_face_hash(user_info.id.as_str()),
                        );
                        Step::Continue(
                            Registration {
                                user_info,
                                record,
                                phase: Phase::Pointer { write, storing, found, existing },
                            },
                            request,
                        )
                    },
                },
            },
            Phase::Pointer { write, storing, found, existing } => match value_of(reply) {
                Err(e) => Step::Finish(Err(DilokDidError::StorageError(e))),
                Ok(pointer) => {
                    let id = user_info.id.as_str().as_bytes();
                    let hash = user_info.face_hash.as_str().as_bytes();
                    let commit = join(
                        storing,
                        registry.store_face_hash(
                            user_info.id.as_str(),
                            user_info.face_hash.as_str(),
                        ),
                    );
                    let undo = join(
                        restore(record_key_of(id), existing),
                        join(
                            restore(did_index_key_of(user_info.did.as_str().as_bytes()), found),
                            restore(pointer_key_of(id), copy_entry(&pointer)),
                        ),
                    );
                    let prior = match pointer {
                        Some(held) => {
                            if same_bytes(held.as_slice(), hash) {
                                None
                            } else {
                                Some(held)
                            }
                        },
                        None => None,
                    };
                    let request = Request::Vault(vault.get_face_data(user_info.id.as_str(), hash));
                    Step::Continue(
                        Registration {
                            user_info,
                            record,
                            phase: Phase::Before { write, commit, undo, prior },
                        },
                        request,
                    )
                },
            },
            Phase::Before { write, commit, undo, prior } => match value_of(reply) {
                Err(e) => Step::Finish(Err(DilokDidError::StorageError(e))),
                Ok(before) => Step::Continue(
                    Registration {
                        user_info,
                        record,
                        phase: Phase::VaultWrite { commit, undo, prior, before },
                    },
                    Request::Vault(write),
                ),
            },
            Phase::VaultWrite { commit, undo, prior, before } => match done_of(reply) {
                Err(e) => Step::Finish(Err(DilokDidError::StorageError(e))),
                Ok(_) => Step::Continue(
                    Registration {
                        user_info,
                        record,
                        phase: Phase::Commit { undo, prior, before },
                    },
                    Request::Registry(commit),
                ),
            },
            Phase::Commit { undo, prior, before } => match done_of(reply) {
                Ok(_) => match prior {
                    Some(hash_before) => {
                        let removal = vault.delete_face_data(
                            user_info.id.as_str(),
                            hash_before.as_slice(),
                        );
                        Step::Continue(
                            Registration {
                                user_info,
                                record,
                                phase: Phase::Cleanup { undo, before },
                            },
                            Request::Vault(removal),
                        )
                    },
                    None => Step::Finish(Ok(user_info.id)),
                },
                Err(e) => {
                    let putting_back = put_back(&user_info, before);
                    Step::Continue(
                        Registration { user_info, record, phase: Phase::Compensate { cause: e } },
                        Request::Vault(putting_back),
                    )
                },
            },
            Phase::Cleanup { undo, before } => match done_of(reply) {
                Ok(_) => Step::Finish(Ok(user_info.id)),
                Err(e) => Step::Continue(
                    Registration { user_info, record, phase: Phase::Undo { cause: e, before } },
                    Request::Registry(undo),
                ),
            },
            Phase::Undo { cause, before } => match done_of(reply) {
                Ok(_) => {
                    let putting_back = put_back(&user_info, before);
                    Step::Continue(
                        Registration { user_info, record, phase: Phase::Compensate { cause } },
                        Request::Vault(putting_back),
                    )
                },
                Err(_) => Step::Finish(Ok(user_info.id)),
            },
            Phase::Compensate { cause } => Step::Finish(Err(DilokDidError::StorageError(cause))),
        }
    }
}

/// Builds the write that puts back what the vault held under the key of
/// the new template of an identity.
fn put_back(user_info: &UserInfo, before: Option<Vec<u8>>) -> (op: StoreOp)
    ensures
        op@ == restoring(
            template_key(encode_utf8(user_info.id@), encode_utf8(user_info.face_hash@)),
            bytes_view(before),
        ),
{
    restore(
        template_key_of(
            user_info.id.as_str().as_bytes(),
            user_info.face_hash.as_str().as_bytes(),
        ),
        before,
    )
}

} // verus!
