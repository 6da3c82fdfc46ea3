//! Verification of a live capture against the enrolled template of a DID.
//!
//! The registry gives the identity and its hash pointer, the vault gives
//! the template, and only then is the live capture asked for. Whatever
//! shows that registry and vault do not agree ends the verification with
//! `IntegrityViolation`; it is never answered as a face that does not
//! match.

use vstd::prelude::*;
use vstd::string::*;
use vstd::utf8::encode_utf8;
use crate::bytes::same_bytes;
use crate::exchange::{
    failure_reason, Reply, ReplyView, Request, RequestView, Step, StepView, StoreOp, StoreOpView,
};
use crate::face_recognition::{
    capture_outcome, face_hash_of, verdict, FaceRecognition, FaceRecognitionError,
    FaceRecognitionErrorView,
};
use crate::hash::{sha256, to_hex};
use crate::lookup::{unknown_did, unknown_did_text};
use crate::storage::keys::{
    did_index_key, pointer_key, pointer_key_of, template_key, template_key_of,
};
use crate::storage::{
    reason_of, template_outcome, value_of, value_outcome, OffChainStorage, StorageError,
    StorageErrorView,
};
use crate::types::VerificationResult;
use crate::{DilokDidError, DilokDidErrorView};

verus! {

/// What a verification waits for.
#[derive(Debug, Clone, PartialEq, Eq)]
pub enum Verification {
    /// The index entry of the DID.
    Index { did: String, now: i64 },
    /// The hash pointer of the identity.
    Pointer { id: Vec<u8>, now: i64 },
    /// The template that the hash pointer names.
    Template { id: Vec<u8>, pointer: Vec<u8>, now: i64 },
    /// The live capture, to be scored against the stored embedding.
    Capture { embedding: Vec<u8>, now: i64 },
}

/// A verification under way, as mathematical values.
pub enum VerificationView {
    Index { did: Seq<char>, now: i64 },
    Pointer { id: Seq<u8>, now: i64 },
    Template { id: Seq<u8>, pointer: Seq<u8>, now: i64 },
    Capture { embedding: Seq<u8>, now: i64 },
}

impl View for Verification {
    type V = VerificationView;

    open spec fn view(&self) -> VerificationView {
        match self {
            Verification::Index { did, now } => VerificationView::Index { did: did@, now: *now },
            Verification::Pointer { id, now } => VerificationView::Pointer { id: id@, now: *now },
            Verification::Template { id, pointer, now } => VerificationView::Template {
                id: id@,
                pointer: pointer@,
                now: *now,
            },
            Verification::Capture { embedding, now } => VerificationView::Capture {
                embedding: embedding@,
                now: *now,
            },
        }
    }
}

/// The text of the error for a DID whose identity has no hash pointer.
pub open spec fn missing_pointer() -> Seq<char> {
    "identity has no hash pointer"@
}

/// The text of the error for a hash pointer whose template the vault does
/// not hold.
pub open spec fn missing_template() -> Seq<char> {
    "vault holds no template for the hash pointer"@
}

/// The text of the error for a template whose embedding does not have the
/// hash that the pointer names.
pub open spec fn pointer_mismatch() -> Seq<char> {
    "template does not match the hash pointer"@
}

/// The step that ends a verification with an integrity violation.
pub open spec fn violated(text: Seq<char>) -> StepView<VerificationView, VerificationResult> {
    StepView::Finish(Err(DilokDidErrorView::IntegrityViolation(text)))
}

/// How a verification begins: with the index entry of the DID.
pub open spec fn verification_start(did: Seq<char>, now: i64) -> StepView<
    VerificationView,
    VerificationResult,
> {
    StepView::Continue(
        VerificationView::Index { did, now },
        RequestView::Registry(StoreOpView::Read { key: did_index_key(encode_utf8(did)) }),
    )
}

/// What a verification in state `s` does when `reply` comes.
///
/// - A read that fails ends it with the error of the store, and a DID
///   without an index entry with `NotFound`.
/// - An identity without a hash pointer, a pointer without a vault entry,
///   an entry that does not open under the vault key or holds no
///   template, a template of another owner, and a template whose embedding
///   does not have the hash that the pointer names: each ends it with
///   `IntegrityViolation`.
/// - With the template in hand the live capture is asked for. The error of
///   a failed capture is the result; else the answer is the verdict on the
///   best score of the gated samples.
pub open spec fn verification_next(
    recognizer: FaceRecognition,
    key: Seq<u8>,
    s: VerificationView,
    reply: ReplyView,
) -> StepView<VerificationView, VerificationResult> {
    match s {
        VerificationView::Index { did, now } => match value_outcome(reply) {
            Err(e) => StepView::Finish(Err(DilokDidErrorView::StorageError(e))),
            Ok(None) => StepView::Finish(
                Err(DilokDidErrorView::StorageError(StorageErrorView::NotFound(unknown_did(did)))),
            ),
            Ok(Some(id)) => StepView::Continue(
                VerificationView::Pointer { id, now },
                RequestView::Registry(StoreOpView::Read { key: pointer_key(id) }),
            ),
        },
        VerificationView::Pointer { id, now } => match value_outcome(reply) {
            Err(e) => StepView::Finish(Err(DilokDidErrorView::StorageError(e))),
            Ok(None) => violated(missing_pointer()),
            Ok(Some(pointer)) => StepView::Continue(
                VerificationView::Template { id, pointer, now },
                RequestView::Vault(StoreOpView::Read { key: template_key(id, pointer) }),
            ),
        },
        VerificationView::Template { id, pointer, now } => match template_outcome(key, id, reply) {
            Err(StorageErrorView::IntegrityError(text)) => violated(text),
            Err(e) => StepView::Finish(Err(DilokDidErrorView::StorageError(e))),
            Ok(None) => violated(missing_template()),
            Ok(Some(t)) => if encode_utf8(face_hash_of(t.embedding)) != pointer {
                violated(pointer_mismatch())
            } else {
                StepView::Continue(
                    VerificationView::Capture { embedding: t.embedding, now },
                    RequestView::Capture,
                )
            },
        },
        VerificationView::Capture { embedding, now } => match reply {
            ReplyView::Frames(frames) => match capture_outcome(
                frames,
                recognizer.quality_threshold,
            ) {
                Err(e) => StepView::Finish(Err(DilokDidErrorView::FaceRecognitionError(e))),
                Ok(samples) => StepView::Finish(
                    Ok(verdict(embedding, samples, recognizer.match_threshold, now)),
                ),
            },
            _ => StepView::Finish(
                Err(
                    DilokDidErrorView::FaceRecognitionError(
                        FaceRecognitionErrorView::DlibError(failure_reason(reply)),
                    ),
                ),
            ),
        },
    }
}

impl Verification {
    /// Takes the reply to the request that is out and says what comes
    /// next.
    pub fn step(self, recognizer: &FaceRecognition, vault: &OffChainStorage, reply: Reply) -> (next:
        Step<Verification, VerificationResult>)
        ensures
            next@ == verification_next(*recognizer, vault.key(), self@, reply@),
    {
        match self {
            Verification::Index { did, now } => match value_of(reply) {
                Err(e) => Step::Finish(Err(DilokDidError::StorageError(e))),
                Ok(None) => Step::Finish(
                    Err(
                        DilokDidError::StorageError(
                            StorageError::NotFound(unknown_did_text(did.as_str())),
                        ),
                    ),
                ),
                Ok(Some(id)) => {
                    let key = pointer_key_of(id.as_slice());
                    Step::Continue(
                        Verification::Pointer { id, now },
                        Request::Registry(StoreOp::Read { key }),
                    )
                },
            },
            Verification::Pointer { id, now } => match value_of(reply) {
                Err(e) => Step::Finish(Err(DilokDidError::StorageError(e))),
                Ok(None) => Step::Finish(
                    Err(DilokDidError::IntegrityViolation("identity has no hash pointer".to_owned())),
                ),
                Ok(Some(pointer)) => {
                    let key = template_key_of(id.as_slice(), pointer.as_slice());
                    Step::Continue(
                        Verification::Template { id, pointer, now },
                        Request::Vault(StoreOp::Read { key }),
                    )
                },
            },
            Verification::Template { id, pointer, now } => match vault.template_from(
                id.as_slice(),
                reply,
            ) {
                Err(StorageError::IntegrityError(text)) => Step::Finish(
                    Err(DilokDidError::IntegrityViolation(text)),
                ),
                Err(e) => Step::Finish(Err(DilokDidError::StorageError(e))),
                Ok(None) => Step::Finish(
                    Err(
                        DilokDidError::IntegrityViolation(
                            "vault holds no template for the hash pointer".to_owned(),
                        ),
                    ),
                ),
                Ok(Some(template)) => {
                    let digest = sha256(template.embedding.as_slice());
                    let hash = to_hex(digest.as_slice());
                    if !same_bytes(hash.as_str().as_bytes(), pointer.as_slice()) {
                        return Step::Finish(
                            Err(
                                DilokDidError::IntegrityViolation(
                                    "template does not match the hash pointer".to_owned(),
                                ),
                            ),
                        );
                    }
                    Step::Continue(
                        Verification::Capture { embedding: template.embedding, now },
                        Request::Capture,
                    )
                },
            },
            Verification::Capture { embedding, now } => match reply {
                Reply::Frames(frames) => match recognizer.verify_embedding(
                    embedding.as_slice(),
                    &frames,
                    now,
                ) {
                    Ok(answer) => Step::Finish(Ok(answer)),
                    Err(e) => Step::Finish(Err(DilokDidError::FaceRecognitionError(e))),
                },
                other => Step::Finish(
                    Err(
                        DilokDidError::FaceRecognitionError(
                            FaceRecognitionError::DlibError(reason_of(other)),
                        ),
                    ),
                ),
            },
        }
    }
}

} // verus!
