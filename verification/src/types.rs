//! Identity records, biometric templates, verification results and the
//! configuration of the two stores.
//!
//! Scores (quality, confidence, thresholds) are fixed-point numbers in
//! thousandths: `SCORE_ONE` stands for 1.0. Angles are in thousandths of a
//! degree. Timestamps are seconds since the Unix epoch.

use vstd::prelude::*;

verus! {

/// The score that stands for 1.0.
pub const SCORE_ONE: u32 = 1000;

/// Quality threshold used when the configuration names none: 0.8.
pub const DEFAULT_QUALITY_THRESHOLD: u32 = 800;

/// Match threshold used when the configuration names none: 0.9.
pub const DEFAULT_MATCH_THRESHOLD: u32 = 900;

/// Least number of bytes that an encryption secret must have.
pub const MIN_SECRET_LEN: usize = 8;

/// The attributes of one identity. The registry keeps them in serialized
/// form next to the hash pointer of the identity's current template.
#[derive(Debug, Clone, PartialEq, Eq)]
pub struct UserInfo {
    pub id: String,
    pub did: String,
    pub first_name: String,
    pub last_name: String,
    pub date_of_birth: i64,
    pub gender: Gender,
    pub phone_number: String,
    pub email: String,
    pub id_proof: IdProof,
    pub face_hash: String,
    pub created_at: i64,
    pub updated_at: i64,
}

#[derive(Debug, Clone, Copy, PartialEq, Eq, Structural)]
pub enum Gender {
    Male,
    Female,
    Other,
    PreferNotToSay,
}

/// The document that proves an identity.
#[derive(Debug, Clone, PartialEq, Eq)]
pub struct IdProof {
    pub proof_type: IdProofType,
    pub number: String,
    pub issuing_authority: String,
    pub issued_date: i64,
    pub expiry_date: i64,
}

#[derive(Debug, Clone, Copy, PartialEq, Eq, Structural)]
pub enum IdProofType {
    Passport,
    DriverLicense,
    NationalId,
    Other,
}

/// A biometric template: the embedding of the canonical sample of one
/// capture, with the angle and quality of every accepted sample.
#[derive(Debug, Clone, PartialEq, Eq)]
pub struct FaceData {
    pub user_id: String,
    pub face_hash: String,
    pub face_data: Vec<u8>,
    pub angles: Vec<FaceAngle>,
    pub created_at: i64,
}

/// What a template is, as mathematical values.
pub struct FaceDataView {
    pub user_id: Seq<char>,
    pub face_hash: Seq<char>,
    pub face_data: Seq<u8>,
    pub angles: Seq<FaceAngle>,
    pub created_at: i64,
}

impl View for FaceData {
    type V = FaceDataView;

    open spec fn view(&self) -> FaceDataView {
        FaceDataView {
            user_id: self.user_id@,
            face_hash: self.face_hash@,
            face_data: self.face_data@,
            angles: self.angles@,
            created_at: self.created_at,
        }
    }
}

/// Angle and quality of one accepted sample.
#[derive(Debug, Clone, Copy, PartialEq, Eq, Structural)]
pub struct FaceAngle {
    pub angle: i32,
    pub quality_score: u32,
}

/// The answer to one verification. It is never stored.
#[derive(Debug, Clone, Copy, PartialEq, Eq, Structural)]
pub struct VerificationResult {
    pub is_verified: bool,
    pub confidence_score: u32,
    pub timestamp: i64,
}

impl View for VerificationResult {
    type V = VerificationResult;

    open spec fn view(&self) -> VerificationResult {
        *self
    }
}

/// Where the two stores live and how captures and matches are judged.
#[derive(Debug, Clone)]
pub struct StorageConfig {
    pub onchain_storage_path: String,
    pub offchain_storage_path: String,
    pub encryption_key: String,
    pub quality_threshold: u32,
    pub match_threshold: u32,
}

impl StorageConfig {
    /// A configuration with the default thresholds.
    pub fn new(
        onchain_storage_path: String,
        offchain_storage_path: String,
        encryption_key: String,
    ) -> (config: StorageConfig)
        ensures
            config.onchain_storage_path == onchain_storage_path,
            config.offchain_storage_path == offchain_storage_path,
            config.encryption_key == encryption_key,
            config.quality_threshold == DEFAULT_QUALITY_THRESHOLD,
            config.match_threshold == DEFAULT_MATCH_THRESHOLD,
    {
        StorageConfig {
            onchain_storage_path,
            offchain_storage_path,
            encryption_key,
            quality_threshold: DEFAULT_QUALITY_THRESHOLD,
            match_threshold: DEFAULT_MATCH_THRESHOLD,
        }
    }

    /// Whether the configuration is accepted: the secret is long enough and
    /// both thresholds are scores.
    pub open spec fn valid(&self) -> bool {
        &&& vstd::utf8::encode_utf8(self.encryption_key@).len() >= MIN_SECRET_LEN
        &&& self.quality_threshold <= SCORE_ONE
        &&& self.match_threshold <= SCORE_ONE
    }
}

} // verus!
