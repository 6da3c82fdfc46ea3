//! Identity registration and verification engine: biometric capture with a
//! quality gate, template hashing and matching, sealed template storage, and
//! the two-store protocol that keeps the registry pointer and the vault
//! content consistent.
//!
//! The engine performs no input or output. `DilokDid` starts an operation
//! and hands out the first request; whoever runs the engine performs each
//! request against the registry, the vault or the camera and hands the
//! reply back, until the operation finishes.
//!
//! - `types`: the data model.
//! - `face_recognition`: capture, hashing and matching.
//! - `storage`: the keys and operations of registry and vault, sealing,
//!   and the byte form of a template.
//! - `exchange`: requests, replies and steps.
//! - `registration`, `verification`, `lookup`: the three operations.
//! - `world`, `runs`, `consistency`: a model of the two stores, how each
//!   operation ends when it runs against them, and what holds of that.

use vstd::prelude::*;
use vstd::string::*;
use vstd::utf8::encode_utf8;
use crate::bytes::copy_of;
use crate::exchange::{Reply, Request, Step};
use crate::face_recognition::{
    FaceRecognition, FaceRecognitionError, FaceRecognitionErrorView, Frame,
};
use crate::hash::HASH_TEXT_LEN;
use crate::lookup::{lookup_next, lookup_start, Lookup};
use crate::registration::{registration_next, registration_start, Phase, Registration};
use crate::storage::seal::vault_key;
use crate::storage::{OffChainStorage, OnChainStorage, StorageError, StorageErrorView};
use crate::types::{StorageConfig, UserInfo, VerificationResult, MIN_SECRET_LEN, SCORE_ONE};
use crate::verification::{verification_next, verification_start, Verification};

pub mod bytes;
pub mod consistency;
pub mod exchange;
pub mod face_recognition;
pub mod hash;
pub mod lookup;
pub mod registration;
pub mod runs;
pub mod storage;
pub mod types;
pub mod verification;
pub mod world;

verus! {

/// Why an operation of the engine failed.
#[derive(Debug, Clone, PartialEq, Eq)]
pub enum DilokDidError {
    /// A capture or a match failed.
    FaceRecognitionError(FaceRecognitionError),
    /// A store failed, or what it holds stands against the operation.
    StorageError(StorageError),
    /// The configuration is not accepted.
    ConfigError(String),
    /// The registry points at a template that the vault does not hold, or
    /// that is not the one pointed at.
    IntegrityViolation(String),
}

/// An error of the engine, as mathematical values.
pub enum DilokDidErrorView {
    FaceRecognitionError(FaceRecognitionErrorView),
    StorageError(StorageErrorView),
    ConfigError(Seq<char>),
    IntegrityViolation(Seq<char>),
}

impl View for DilokDidError {
    type V = DilokDidErrorView;

    open spec fn view(&self) -> DilokDidErrorView {
        match self {
            DilokDidError::FaceRecognitionError(e) => DilokDidErrorView::FaceRecognitionError(e@),
            DilokDidError::StorageError(e) => DilokDidErrorView::StorageError(e@),
            DilokDidError::ConfigError(m) => DilokDidErrorView::ConfigError(m@),
            DilokDidError::IntegrityViolation(m) => DilokDidErrorView::IntegrityViolation(m@),
        }
    }
}

impl DilokDidError {
    /// The error in words.
    pub open spec fn text(self) -> Seq<char> {
        match self {
            DilokDidError::FaceRecognitionError(e) => "Face recognition error: "@ + e.text(),
            DilokDidError::StorageError(e) => "Storage error: "@ + e.text(),
            DilokDidError::ConfigError(m) => "Invalid configuration: "@ + m@,
            DilokDidError::IntegrityViolation(m) => "Integrity violation: "@ + m@,
        }
    }

    /// Writes the error in words.
    pub fn message(&self) -> (text: String)
        ensures
            text@ == self.text(),
    {
        match self {
            DilokDidError::FaceRecognitionError(e) => "Face recognition error: ".to_owned().concat(
                e.message().as_str(),
            ),
            DilokDidError::StorageError(e) => "Storage error: ".to_owned().concat(
                e.message().as_str(),
            ),
            DilokDidError::ConfigError(m) => "Invalid configuration: ".to_owned().concat(
                m.as_str(),
            ),
            DilokDidError::IntegrityViolation(m) => "Integrity violation: ".to_owned().concat(
                m.as_str(),
            ),
        }
    }
}

impl From<FaceRecognitionError> for DilokDidError {
    fn from(e: FaceRecognitionError) -> (err: DilokDidError) {
        DilokDidError::FaceRecognitionError(e)
    }
}

impl vstd::std_specs::convert::FromSpecImpl<FaceRecognitionError> for DilokDidError {
    open spec fn obeys_from_spec() -> bool {
        true
    }

    open spec fn from_spec(e: FaceRecognitionError) -> DilokDidError {
        DilokDidError::FaceRecognitionError(e)
    }
}

impl From<StorageError> for DilokDidError {
    fn from(e: StorageError) -> (err: DilokDidError) {
        DilokDidError::StorageError(e)
    }
}

impl vstd::std_specs::convert::FromSpecImpl<StorageError> for DilokDidError {
    open spec fn obeys_from_spec() -> bool {
        true
    }

    open spec fn from_spec(e: StorageError) -> DilokDidError {
        DilokDidError::StorageError(e)
    }
}

/// What is wrong with a configuration that is not accepted: the first of
/// a secret that is too short, a quality threshold that is no score, and a
/// match threshold that is no score.
pub open spec fn config_fault(config: StorageConfig) -> Seq<char> {
    if encode_utf8(config.encryption_key@).len() < MIN_SECRET_LEN {
        "encryption key is too short"@
    } else if config.quality_threshold > SCORE_ONE {
        "quality threshold is above 1.0"@
    } else {
        "match threshold is above 1.0"@
    }
}

/// The engine: a recognizer, the registry and the vault.
#[derive(Debug, Clone)]
pub struct DilokDid {
    face_recognition: FaceRecognition,
    onchain_storage: OnChainStorage,
    offchain_storage: OffChainStorage,
}

impl DilokDid {
    /// The recognizer of the engine.
    pub closed spec fn recognizer(&self) -> FaceRecognition {
        self.face_recognition
    }

    /// The vault key of the engine.
    pub closed spec fn key(&self) -> Seq<u8> {
        self.offchain_storage.key()
    }

    /// Builds the engine from a configuration.
    ///
    /// A valid configuration gives an engine that judges by the configured
    /// thresholds and seals under the key derived from the configured
    /// secret. Any other is refused with `ConfigError`.
    pub fn new(config: StorageConfig) -> (result: Result<DilokDid, DilokDidError>)
        ensures
            if config.valid() {
                result matches Ok(engine) && engine.recognizer() == (FaceRecognition {
                    quality_threshold: config.quality_threshold,
                    match_threshold: config.match_threshold,
                }) && engine.key() == vault_key(encode_utf8(config.encryption_key@))
            } else {
                result matches Err(e) && e@ == DilokDidErrorView::ConfigError(config_fault(config))
            },
    {
        if config.encryption_key.as_str().as_bytes().len() < MIN_SECRET_LEN {
            return Err(DilokDidError::ConfigError("encryption key is too short".to_owned()));
        }
        if config.quality_threshold > SCORE_ONE {
            return Err(DilokDidError::ConfigError("quality threshold is above 1.0".to_owned()));
        }
        if config.match_threshold > SCORE_ONE {
            return Err(DilokDidError::ConfigError("match threshold is above 1.0".to_owned()));
        }
        let defaults = match FaceRecognition::new() {
            Ok(recognizer) => recognizer,
            Err(e) => {
                return Err(DilokDidError::FaceRecognitionError(e));
            },
        };
        let face_recognition = FaceRecognition {
            quality_threshold: config.quality_threshold,
            match_threshold: config.match_threshold,
            ..defaults
        };
        let onchain_storage = match OnChainStorage::new() {
            Ok(registry) => registry,
            Err(e) => {
                return Err(DilokDidError::StorageError(e));
            },
        };
        let offchain_storage = match OffChainStorage::new(&config) {
            Ok(vault) => vault,
            Err(e) => {
                return Err(DilokDidError::StorageError(e));
            },
        };
        Ok(DilokDid { face_recognition, onchain_storage, offchain_storage })
    }

    /// Begins the registration of an identity, or its re-enrollment when
    /// the DID names the identity already.
    ///
    /// `record` is the serialized form of `user_info`, which the registry
    /// keeps as it is; `frames` are the frames of the capture. The hash
    /// pointer of the identity is that of the captured template, which
    /// takes the place of what `user_info.face_hash` holds. A capture that fails ends the
    /// registration at once, before anything is asked of a store.
    pub fn register_user(
        &self,
        user_info: UserInfo,
        record: &[u8],
        frames: &Vec<Frame>,
        now: i64,
    ) -> (step: Step<Registration, String>)
        ensures
            step@ == registration_start(
                self.recognizer(),
                self.key(),
                user_info.id@,
                user_info.did@,
                record@,
                frames@,
                now,
            ),
            step matches Step::Continue(state, _) ==> encode_utf8(state.user_info.face_hash@).len()
                == HASH_TEXT_LEN,
    {
        let face_data = match self.face_recognition.capture_face(
            frames,
            user_info.id.as_str(),
            now,
        ) {
            Ok(face_data) => face_data,
            Err(e) => {
                return Step::Finish(Err(DilokDidError::FaceRecognitionError(e)));
            },
        };
        let write = match self.offchain_storage.store_face_data(&face_data) {
            Ok(write) => write,
            Err(e) => {
                return Step::Finish(Err(DilokDidError::StorageError(e)));
            },
        };
        let request = Request::Registry(self.onchain_storage.find_did(user_info.did.as_str()));
        let mut user_info = user_info;
        user_info.face_hash = face_data.face_hash;
        Step::Continue(
            Registration { user_info, record: copy_of(record), phase: Phase::Index { write } },
            request,
        )
    }

    /// Takes the reply to the request of a registration and says what
    /// comes next.
    pub fn resume_registration(&self, state: Registration, reply: Reply) -> (step: Step<
        Registration,
        String,
    >)
        ensures
            step@ == registration_next(state@, reply@),
    {
        state.step(&self.onchain_storage, &self.offchain_storage, reply)
    }

    /// Begins the verification of a live capture against the template
    /// enrolled for `did`.
    pub fn verify_user(&self, did: &str, now: i64) -> (step: Step<Verification, VerificationResult>)
        ensures
            step@ == verification_start(did@, now),
    {
        Step::Continue(
            Verification::Index { did: did.to_owned(), now },
            Request::Registry(self.onchain_storage.find_did(did)),
        )
    }

    /// Takes the reply to the request of a verification and says what
    /// comes next.
    pub fn resume_verification(&self, state: Verification, reply: Reply) -> (step: Step<
        Verification,
        VerificationResult,
    >)
        ensures
            step@ == verification_next(self.recognizer(), self.key(), state@, reply@),
    {
        state.step(&self.face_recognition, &self.offchain_storage, reply)
    }

    /// Begins the reading of the serialized record of the identity that
    /// `did` names.
    pub fn get_user_info(&self, did: &str) -> (step: Step<Lookup, Vec<u8>>)
        ensures
            step@ == lookup_start(did@),
    {
        Step::Continue(
            Lookup::Index { did: did.to_owned() },
            Request::Registry(self.onchain_storage.find_did(did)),
        )
    }

    /// Takes the reply to the request of a lookup and says what comes
    /// next.
    pub fn resume_lookup(&self, state: Lookup, reply: Reply) -> (step: Step<Lookup, Vec<u8>>)
        ensures
            step@ == lookup_next(state@, reply@),
    {
        state.step(reply)
    }
}

} // verus!
