use std::collections::HashMap;

use dilok_did::exchange::{Mutation, Reply, Request, Step, StoreOp};
use dilok_did::face_recognition::{Face, FaceRecognitionError, Frame};
use dilok_did::storage::StorageError;
use dilok_did::types::{Gender, IdProof, IdProofType, StorageConfig, UserInfo, VerificationResult};
use dilok_did::{DilokDid, DilokDidError};

/// The two stores in memory, with one request that can be made to fail.
struct Stores {
    registry: HashMap<Vec<u8>, Vec<u8>>,
    vault: HashMap<Vec<u8>, Vec<u8>>,
    fail_at: Option<usize>,
    fail_too: Option<usize>,
    served: usize,
    writes: usize,
    live: Vec<Frame>,
}

fn stores() -> Stores {
    Stores {
        registry: HashMap::new(),
        vault: HashMap::new(),
        fail_at: None,
        fail_too: None,
        served: 0,
        writes: 0,
        live: Vec::new(),
    }
}

fn serve(entries: &mut HashMap<Vec<u8>, Vec<u8>>, op: &StoreOp) -> Reply {
    match op {
        StoreOp::Read { key } => Reply::Value(entries.get(key).cloned()),
        StoreOp::Write { batch } => {
            for Mutation { key, value } in batch {
                match value {
                    Some(v) => {
                        entries.insert(key.clone(), v.clone());
                    }
                    None => {
                        entries.remove(key);
                    }
                }
            }
            Reply::Done
        }
    }
}

fn answer(stores: &mut Stores, request: &Request) -> Reply {
    let position: usize = stores.served;
    stores.served += 1;
    if stores.fail_at == Some(position) || stores.fail_too == Some(position) {
        return Reply::Failed(format!("request {} failed", position));
    }
    if let Request::Registry(StoreOp::Write { .. }) | Request::Vault(StoreOp::Write { .. }) =
        request
    {
        stores.writes += 1;
    }
    match request {
        Request::Registry(op) => serve(&mut stores.registry, op),
        Request::Vault(op) => serve(&mut stores.vault, op),
        Request::Capture => Reply::Frames(stores.live.clone()),
    }
}

fn engine() -> DilokDid {
    DilokDid::new(StorageConfig::new(
        "registry".to_string(),
        "vault".to_string(),
        "a secret of some length".to_string(),
    ))
    .unwrap()
}

fn user(id: &str, did: &str) -> UserInfo {
    UserInfo {
        id: id.to_string(),
        did: did.to_string(),
        first_name: "Test".to_string(),
        last_name: "User".to_string(),
        date_of_birth: 631152000,
        gender: Gender::Other,
        phone_number: "+1234567890".to_string(),
        email: "test@example.com".to_string(),
        id_proof: IdProof {
            proof_type: IdProofType::Passport,
            number: "TEST123456".to_string(),
            issuing_authority: "Test Authority".to_string(),
            issued_date: 1577836800,
            expiry_date: 1893456000,
        },
        face_hash: String::new(),
        created_at: 1700000000,
        updated_at: 1700000000,
    }
}

fn frame(angle: i32, quality: u32, embedding: &[u8]) -> Frame {
    Frame::Detected {
        angle,
        faces: vec![Face { quality_score: quality, embedding: embedding.to_vec() }],
    }
}

fn register(
    engine: &DilokDid,
    stores: &mut Stores,
    info: &UserInfo,
    record: &[u8],
    frames: &Vec<Frame>,
) -> Result<String, DilokDidError> {
    stores.served = 0;
    stores.writes = 0;
    let mut step = engine.register_user(info.clone(), record, frames, 1700000000);
    loop {
        match step {
            Step::Finish(result) => return result,
            Step::Continue(state, request) => {
                let reply = answer(stores, &request);
                step = engine.resume_registration(state, reply);
            }
        }
    }
}

fn verify(
    engine: &DilokDid,
    stores: &mut Stores,
    did: &str,
    live: Vec<Frame>,
    now: i64,
) -> Result<VerificationResult, DilokDidError> {
    stores.served = 0;
    stores.live = live;
    let mut step = engine.verify_user(did, now);
    loop {
        match step {
            Step::Finish(result) => return result,
            Step::Continue(state, request) => {
                let reply = answer(stores, &request);
                step = engine.resume_verification(state, reply);
            }
        }
    }
}

fn record_of(engine: &DilokDid, stores: &mut Stores, did: &str) -> Result<Vec<u8>, DilokDidError> {
    stores.served = 0;
    let mut step = engine.get_user_info(did);
    loop {
        match step {
            Step::Finish(result) => return result,
            Step::Continue(state, request) => {
                let reply = answer(stores, &request);
                step = engine.resume_lookup(state, reply);
            }
        }
    }
}

const EMBEDDING: [u8; 8] = [10, 20, 30, 40, 50, 60, 70, 80];
const OTHER: [u8; 8] = [200, 210, 220, 230, 240, 250, 5, 15];

// SHA-256 of the bytes of EMBEDDING and of OTHER, in hexadecimal.
const EMBEDDING_HASH: &str = "73f1171adc7e49b09423da2515a1077e3cc63e3fabcb9846cac437d044ac57ec";
const OTHER_HASH: &str = "cd5d57877b7faa497bfb42c8023ea47d354489a34a5867bcb6e2984625ef925c";

fn hash_of(embedding: &[u8]) -> String {
    if embedding == &EMBEDDING[..] {
        EMBEDDING_HASH.to_string()
    } else if embedding == &OTHER[..] {
        OTHER_HASH.to_string()
    } else {
        panic!("no hash known for this embedding")
    }
}

fn template_key(id: &str, hash: &str) -> Vec<u8> {
    format!("template:{}:{}", id, hash).into_bytes()
}

#[test]
fn test_user_registration() {
    let config = StorageConfig {
        onchain_storage_path: "test_onchain".to_string(),
        offchain_storage_path: "test_offchain".to_string(),
        encryption_key: "test_key".to_string(),
        quality_threshold: 800,
        match_threshold: 900,
    };
    let did_system = DilokDid::new(config);
    assert!(did_system.is_ok());
}

#[test]
fn short_secret_is_refused() {
    let config = StorageConfig::new("r".to_string(), "v".to_string(), "short".to_string());
    let refused = DilokDid::new(config).unwrap_err();
    assert_eq!(refused, DilokDidError::ConfigError("encryption key is too short".to_string()));
    assert_eq!(refused.message(), "Invalid configuration: encryption key is too short");
}

#[test]
fn secret_of_least_length_is_accepted() {
    let config = StorageConfig::new("r".to_string(), "v".to_string(), "12345678".to_string());
    assert!(DilokDid::new(config).is_ok());
    let config = StorageConfig::new("r".to_string(), "v".to_string(), "1234567".to_string());
    assert!(DilokDid::new(config).is_err());
}

#[test]
fn thresholds_above_one_are_refused() {
    let mut config = StorageConfig::new("r".to_string(), "v".to_string(), "12345678".to_string());
    config.quality_threshold = 1001;
    assert_eq!(
        DilokDid::new(config).unwrap_err(),
        DilokDidError::ConfigError("quality threshold is above 1.0".to_string())
    );
    let mut config = StorageConfig::new("r".to_string(), "v".to_string(), "12345678".to_string());
    config.match_threshold = 1001;
    assert_eq!(
        DilokDid::new(config).unwrap_err(),
        DilokDidError::ConfigError("match threshold is above 1.0".to_string())
    );
    let mut config = StorageConfig::new("r".to_string(), "v".to_string(), "12345678".to_string());
    config.quality_threshold = 1000;
    config.match_threshold = 1000;
    assert!(DilokDid::new(config).is_ok());
}

#[test]
fn defaults_are_four_fifths_and_nine_tenths() {
    let config = StorageConfig::new("r".to_string(), "v".to_string(), "12345678".to_string());
    assert_eq!(config.quality_threshold, 800);
    assert_eq!(config.match_threshold, 900);
}

#[test]
fn registration_then_record_is_read_back() {
    let engine = engine();
    let mut stores = stores();
    let info = user("U1", "did:x");
    let record = b"{\"first_name\":\"Test\"}".to_vec();
    let id = register(&engine, &mut stores, &info, &record, &vec![frame(0, 900, &EMBEDDING)]);
    assert_eq!(id, Ok("U1".to_string()));
    assert_eq!(record_of(&engine, &mut stores, "did:x"), Ok(record.clone()));
    assert_eq!(stores.registry.get(&b"record:U1".to_vec()), Some(&record));
    assert_eq!(stores.registry.get(&b"did_index:did:x".to_vec()), Some(&b"U1".to_vec()));
    assert_eq!(
        stores.registry.get(&b"face_ptr:U1".to_vec()),
        Some(&hash_of(&EMBEDDING).into_bytes())
    );
    assert_eq!(stores.registry.len(), 3);
    assert_eq!(stores.vault.len(), 1);
    assert!(stores.vault.contains_key(&template_key("U1", &hash_of(&EMBEDDING))));
}

#[test]
fn registration_asks_in_order_reads_vault_registry() {
    let engine = engine();
    let info = user("U1", "did:x");
    let hash = hash_of(&EMBEDDING);
    let mut step = engine.register_user(info.clone(), b"r", &vec![frame(0, 900, &EMBEDDING)], 5);
    let reads = vec![
        Request::Registry(StoreOp::Read { key: b"did_index:did:x".to_vec() }),
        Request::Registry(StoreOp::Read { key: b"record:U1".to_vec() }),
        Request::Registry(StoreOp::Read { key: b"face_ptr:U1".to_vec() }),
        Request::Vault(StoreOp::Read { key: template_key("U1", &hash) }),
    ];
    for expected in reads {
        step = match step {
            Step::Continue(state, request) => {
                assert_eq!(request, expected);
                engine.resume_registration(state, Reply::Value(None))
            }
            Step::Finish(_) => panic!("finished early"),
        };
    }
    let (state, request) = match step {
        Step::Continue(state, request) => (state, request),
        Step::Finish(_) => panic!("finished early"),
    };
    match &request {
        Request::Vault(StoreOp::Write { batch }) => {
            assert_eq!(batch.len(), 1);
            assert_eq!(batch[0].key, template_key("U1", &hash));
            assert!(batch[0].value.is_some());
        }
        other => panic!("expected the vault write, got {:?}", other),
    }
    let (state, request) = match engine.resume_registration(state, Reply::Done) {
        Step::Continue(state, request) => (state, request),
        Step::Finish(_) => panic!("finished early"),
    };
    assert_eq!(
        request,
        Request::Registry(StoreOp::Write {
            batch: vec![
                Mutation { key: b"record:U1".to_vec(), value: Some(b"r".to_vec()) },
                Mutation { key: b"did_index:did:x".to_vec(), value: Some(b"U1".to_vec()) },
                Mutation { key: b"face_ptr:U1".to_vec(), value: Some(hash.into_bytes()) },
            ],
        })
    );
    assert_eq!(engine.resume_registration(state, Reply::Done), Step::Finish(Ok("U1".to_string())));
}

#[test]
fn failed_registry_write_removes_the_vault_entry() {
    let engine = engine();
    let mut stores = stores();
    stores.fail_at = Some(5);
    let info = user("U1", "did:x");
    let result = register(&engine, &mut stores, &info, b"r", &vec![frame(0, 900, &EMBEDDING)]);
    assert_eq!(
        result,
        Err(DilokDidError::StorageError(StorageError::IoError("request 5 failed".to_string())))
    );
    assert!(stores.vault.is_empty());
    assert!(stores.registry.is_empty());
    assert_eq!(stores.served, 7);
}

#[test]
fn failed_registry_write_asks_for_the_removal_of_the_new_entry() {
    let engine = engine();
    let info = user("U1", "did:x");
    let mut step = engine.register_user(info.clone(), b"r", &vec![frame(0, 900, &EMBEDDING)], 5);
    let replies = [
        Reply::Value(None),
        Reply::Value(None),
        Reply::Value(None),
        Reply::Value(None),
        Reply::Done,
    ];
    for reply in replies {
        step = match step {
            Step::Continue(state, _) => engine.resume_registration(state, reply),
            Step::Finish(_) => panic!("finished early"),
        };
    }
    let (state, request) = match step {
        Step::Continue(state, Request::Registry(_)) => {
            match engine.resume_registration(state, Reply::Failed("disk full".to_string())) {
                Step::Continue(state, request) => (state, request),
                Step::Finish(_) => panic!("no compensation"),
            }
        }
        _ => panic!("expected the registry write"),
    };
    assert_eq!(
        request,
        Request::Vault(StoreOp::Write {
            batch: vec![Mutation { key: template_key("U1", &hash_of(&EMBEDDING)), value: None }],
        })
    );
    let expected: Step<dilok_did::registration::Registration, String> = Step::Finish(Err(
        DilokDidError::StorageError(StorageError::IoError("disk full".to_string())),
    ));
    assert_eq!(engine.resume_registration(state.clone(), Reply::Done), expected);
    // The failure of the registry write is reported also when the removal fails.
    assert_eq!(
        engine.resume_registration(state, Reply::Failed("vault down".to_string())),
        expected
    );
}

#[test]
fn failed_registry_write_puts_back_what_the_vault_held() {
    let engine = engine();
    let info = user("U1", "did:x");
    let mut step = engine.register_user(info.clone(), b"r", &vec![frame(0, 900, &EMBEDDING)], 5);
    let replies = [
        Reply::Value(Some(b"U1".to_vec())),
        Reply::Value(Some(b"old record".to_vec())),
        Reply::Value(Some(hash_of(&EMBEDDING).into_bytes())),
        Reply::Value(Some(b"old envelope".to_vec())),
        Reply::Done,
        Reply::Failed("disk full".to_string()),
    ];
    for reply in replies {
        step = match step {
            Step::Continue(state, _) => engine.resume_registration(state, reply),
            Step::Finish(_) => panic!("finished early"),
        };
    }
    match step {
        Step::Continue(_, request) => assert_eq!(
            request,
            Request::Vault(StoreOp::Write {
                batch: vec![Mutation {
                    key: template_key("U1", &hash_of(&EMBEDDING)),
                    value: Some(b"old envelope".to_vec()),
                }],
            })
        ),
        Step::Finish(_) => panic!("no compensation"),
    }
}

#[test]
fn failed_reads_and_vault_write_change_nothing() {
    let engine = engine();
    let info = user("U1", "did:x");
    for position in 0..5usize {
        let mut stores = stores();
        stores.fail_at = Some(position);
        let result = register(&engine, &mut stores, &info, b"r", &vec![frame(0, 900, &EMBEDDING)]);
        assert_eq!(
            result,
            Err(DilokDidError::StorageError(StorageError::IoError(format!(
                "request {} failed",
                position
            ))))
        );
        assert!(stores.vault.is_empty());
        assert!(stores.registry.is_empty());
        assert_eq!(stores.served, position + 1);
    }
}

#[test]
fn low_quality_capture_writes_nothing() {
    let engine = engine();
    let mut stores = stores();
    let info = user("U1", "did:x");
    let frames = vec![frame(0, 799, &EMBEDDING), frame(15000, 500, &OTHER), frame(-15000, 0, &OTHER)];
    let result = register(&engine, &mut stores, &info, b"r", &frames);
    assert_eq!(
        result,
        Err(DilokDidError::FaceRecognitionError(FaceRecognitionError::LowQualityCapture))
    );
    assert_eq!(stores.served, 0);
    assert_eq!(stores.writes, 0);
    assert!(stores.vault.is_empty());
    assert!(stores.registry.is_empty());
}

#[test]
fn capture_faults_write_nothing() {
    let engine = engine();
    let info = user("U1", "did:x");
    let no_face = vec![Frame::Detected { angle: 0, faces: vec![] }];
    let two_faces = vec![Frame::Detected {
        angle: 0,
        faces: vec![
            Face { quality_score: 900, embedding: EMBEDDING.to_vec() },
            Face { quality_score: 900, embedding: OTHER.to_vec() },
        ],
    }];
    let timed_out = vec![frame(0, 900, &EMBEDDING), Frame::TimedOut { angle: 15000 }];
    let cases = vec![
        (no_face, FaceRecognitionError::NoFaceDetected),
        (two_faces, FaceRecognitionError::MultipleFacesDetected),
        (timed_out, FaceRecognitionError::CaptureTimeout),
        (Vec::new(), FaceRecognitionError::LowQualityCapture),
    ];
    for (frames, expected) in cases {
        let mut stores = stores();
        let result = register(&engine, &mut stores, &info, b"r", &frames);
        assert_eq!(result, Err(DilokDidError::FaceRecognitionError(expected)));
        assert_eq!(stores.served, 0);
    }
}

#[test]
fn reenrollment_moves_the_pointer_and_removes_the_old_template() {
    let engine = engine();
    let mut stores = stores();
    let info = user("U1", "did:x");
    assert!(register(&engine, &mut stores, &info, b"first", &vec![frame(0, 900, &EMBEDDING)]).is_ok());
    let old_key = template_key("U1", &hash_of(&EMBEDDING));
    assert!(stores.vault.contains_key(&old_key));

    let again = register(&engine, &mut stores, &info, b"second", &vec![frame(0, 950, &OTHER)]);
    assert_eq!(again, Ok("U1".to_string()));
    assert_eq!(stores.served, 7);
    assert!(!stores.vault.contains_key(&old_key));
    assert!(stores.vault.contains_key(&template_key("U1", &hash_of(&OTHER))));
    assert_eq!(stores.vault.len(), 1);
    assert_eq!(
        stores.registry.get(&b"face_ptr:U1".to_vec()),
        Some(&hash_of(&OTHER).into_bytes())
    );
    assert_eq!(record_of(&engine, &mut stores, "did:x"), Ok(b"second".to_vec()));

    // The pointer resolves to the new template only.
    let with_new = verify(&engine, &mut stores, "did:x", vec![frame(0, 900, &OTHER)], 7).unwrap();
    assert!(with_new.is_verified);
    let with_old = verify(&engine, &mut stores, "did:x", vec![frame(0, 900, &EMBEDDING)], 7).unwrap();
    assert!(!with_old.is_verified);
}

#[test]
fn failed_reenrollment_keeps_the_old_template() {
    let engine = engine();
    let mut stores = stores();
    let info = user("U1", "did:x");
    assert!(register(&engine, &mut stores, &info, b"first", &vec![frame(0, 900, &EMBEDDING)]).is_ok());
    let registry_before = stores.registry.clone();
    let vault_before = stores.vault.clone();

    stores.fail_at = Some(5);
    let again = register(&engine, &mut stores, &info, b"second", &vec![frame(0, 950, &OTHER)]);
    assert_eq!(
        again,
        Err(DilokDidError::StorageError(StorageError::IoError("request 5 failed".to_string())))
    );
    assert_eq!(stores.registry, registry_before);
    assert_eq!(stores.vault, vault_before);

    stores.fail_at = None;
    let answer = verify(&engine, &mut stores, "did:x", vec![frame(0, 900, &EMBEDDING)], 7).unwrap();
    assert!(answer.is_verified);
}

#[test]
fn reenrollment_with_the_same_embedding_writes_the_new_template_or_nothing() {
    let engine = engine();
    let mut stores = stores();
    let info = user("U1", "did:x");
    assert!(register(&engine, &mut stores, &info, b"first", &vec![frame(0, 900, &EMBEDDING)]).is_ok());
    let first_envelope = stores.vault[&template_key("U1", &hash_of(&EMBEDDING))].clone();
    let again = register(&engine, &mut stores, &info, b"second", &vec![frame(5, 990, &EMBEDDING)]);
    assert_eq!(again, Ok("U1".to_string()));
    assert_eq!(stores.served, 6);
    assert_eq!(stores.vault.len(), 1);
    assert_ne!(stores.vault[&template_key("U1", &hash_of(&EMBEDDING))], first_envelope);
    assert_eq!(record_of(&engine, &mut stores, "did:x"), Ok(b"second".to_vec()));

    // A registry write that fails here leaves both stores as they were: the
    // entry that was written over is put back.
    let registry_before = stores.registry.clone();
    let vault_before = stores.vault.clone();
    stores.fail_at = Some(5);
    let failed = register(&engine, &mut stores, &info, b"third", &vec![frame(9, 800, &EMBEDDING)]);
    assert!(failed.is_err());
    assert_eq!(stores.served, 7);
    assert_eq!(stores.registry, registry_before);
    assert_eq!(stores.vault, vault_before);
    stores.fail_at = None;
    assert!(verify(&engine, &mut stores, "did:x", vec![frame(0, 900, &EMBEDDING)], 7).unwrap().is_verified);
}

#[test]
fn taken_did_is_a_duplicate() {
    let engine = engine();
    let mut stores = stores();
    assert!(register(&engine, &mut stores, &user("U1", "did:x"), b"a", &vec![frame(0, 900, &EMBEDDING)]).is_ok());
    let registry_before = stores.registry.clone();
    let vault_before = stores.vault.clone();
    let second = register(&engine, &mut stores, &user("U2", "did:x"), b"b", &vec![frame(0, 900, &OTHER)]);
    assert_eq!(
        second,
        Err(DilokDidError::StorageError(StorageError::DuplicateDid("did:x".to_string())))
    );
    assert_eq!(stores.writes, 0);
    assert_eq!(stores.registry, registry_before);
    assert_eq!(stores.vault, vault_before);
}

#[test]
fn identity_bound_to_another_did_is_a_duplicate() {
    let engine = engine();
    let mut stores = stores();
    assert!(register(&engine, &mut stores, &user("U1", "did:x"), b"a", &vec![frame(0, 900, &EMBEDDING)]).is_ok());
    let second = register(&engine, &mut stores, &user("U1", "did:y"), b"b", &vec![frame(0, 900, &OTHER)]);
    assert_eq!(
        second,
        Err(DilokDidError::StorageError(StorageError::DuplicateDid("U1".to_string())))
    );
    assert_eq!(stores.writes, 0);
    assert!(!stores.registry.contains_key(&b"did_index:did:y".to_vec()));
}

#[test]
fn two_identities_with_one_embedding_do_not_share_an_entry() {
    let engine = engine();
    let mut stores = stores();
    assert!(register(&engine, &mut stores, &user("U1", "did:x"), b"a", &vec![frame(0, 900, &EMBEDDING)]).is_ok());
    assert!(register(&engine, &mut stores, &user("U2", "did:y"), b"b", &vec![frame(0, 900, &EMBEDDING)]).is_ok());
    assert_eq!(stores.vault.len(), 2);
    // Re-enrolling the first leaves the template of the second in place.
    assert!(register(&engine, &mut stores, &user("U1", "did:x"), b"a", &vec![frame(0, 900, &OTHER)]).is_ok());
    assert!(verify(&engine, &mut stores, "did:y", vec![frame(0, 900, &EMBEDDING)], 7).unwrap().is_verified);
}

#[test]
fn end_to_end_match_and_mismatch() {
    let engine = engine();
    let mut stores = stores();
    let id = register(&engine, &mut stores, &user("U1", "did:x"), b"r", &vec![frame(0, 900, &EMBEDDING)]);
    assert_eq!(id, Ok("U1".to_string()));

    let same = verify(&engine, &mut stores, "did:x", vec![frame(0, 900, &EMBEDDING)], 42);
    assert_eq!(
        same,
        Ok(VerificationResult { is_verified: true, confidence_score: 1000, timestamp: 42 })
    );

    let far = verify(&engine, &mut stores, "did:x", vec![frame(0, 900, &OTHER)], 43).unwrap();
    assert!(!far.is_verified);
    assert!(far.confidence_score < 900);
    assert_eq!(far.timestamp, 43);
}

#[test]
fn verification_takes_the_best_of_the_gated_samples() {
    let engine = engine();
    let mut stores = stores();
    assert!(register(&engine, &mut stores, &user("U1", "did:x"), b"r", &vec![frame(0, 900, &EMBEDDING)]).is_ok());
    // The exact sample is below the quality threshold, so it is no probe.
    let live = vec![frame(0, 700, &EMBEDDING), frame(10, 900, &OTHER)];
    assert!(!verify(&engine, &mut stores, "did:x", live, 1).unwrap().is_verified);
    let live = vec![frame(0, 900, &OTHER), frame(10, 800, &EMBEDDING)];
    let answer = verify(&engine, &mut stores, "did:x", live, 1).unwrap();
    assert!(answer.is_verified);
    assert_eq!(answer.confidence_score, 1000);
}

#[test]
fn verification_of_an_unknown_did_is_not_found() {
    let engine = engine();
    let mut stores = stores();
    let result = verify(&engine, &mut stores, "did:nobody", vec![frame(0, 900, &EMBEDDING)], 1);
    assert_eq!(
        result,
        Err(DilokDidError::StorageError(StorageError::NotFound(
            "DID did:nobody is not registered".to_string()
        )))
    );
    assert_eq!(
        record_of(&engine, &mut stores, "did:nobody"),
        Err(DilokDidError::StorageError(StorageError::NotFound(
            "DID did:nobody is not registered".to_string()
        )))
    );
}

#[test]
fn missing_vault_entry_is_an_integrity_violation() {
    let engine = engine();
    let mut stores = stores();
    assert!(register(&engine, &mut stores, &user("U1", "did:x"), b"r", &vec![frame(0, 900, &EMBEDDING)]).is_ok());
    stores.vault.clear();
    let result = verify(&engine, &mut stores, "did:x", vec![frame(0, 900, &EMBEDDING)], 1);
    assert_eq!(
        result,
        Err(DilokDidError::IntegrityViolation(
            "vault holds no template for the hash pointer".to_string()
        ))
    );
    // The capture is not even asked for.
    assert_eq!(stores.served, 3);
}

#[test]
fn tampered_vault_entry_is_an_integrity_violation() {
    let engine = engine();
    let mut stores = stores();
    assert!(register(&engine, &mut stores, &user("U1", "did:x"), b"r", &vec![frame(0, 900, &EMBEDDING)]).is_ok());
    let key = template_key("U1", &hash_of(&EMBEDDING));
    let last: usize = stores.vault[&key].len() - 1;
    stores.vault.get_mut(&key).unwrap()[last] ^= 1;
    let result = verify(&engine, &mut stores, "did:x", vec![frame(0, 900, &EMBEDDING)], 1);
    assert_eq!(
        result,
        Err(DilokDidError::IntegrityViolation("stored data failed authentication".to_string()))
    );
}

#[test]
fn template_of_another_identity_is_an_integrity_violation() {
    let engine = engine();
    let mut stores = stores();
    assert!(register(&engine, &mut stores, &user("U1", "did:x"), b"r", &vec![frame(0, 900, &EMBEDDING)]).is_ok());
    assert!(register(&engine, &mut stores, &user("U2", "did:y"), b"r", &vec![frame(0, 900, &EMBEDDING)]).is_ok());
    let hash = hash_of(&EMBEDDING);
    let foreign = stores.vault[&template_key("U2", &hash)].clone();
    stores.vault.insert(template_key("U1", &hash), foreign);
    let result = verify(&engine, &mut stores, "did:x", vec![frame(0, 900, &EMBEDDING)], 1);
    assert_eq!(
        result,
        Err(DilokDidError::IntegrityViolation("template belongs to another identity".to_string()))
    );
}

#[test]
fn template_that_does_not_match_the_pointer_is_an_integrity_violation() {
    let engine = engine();
    let mut stores = stores();
    assert!(register(&engine, &mut stores, &user("U1", "did:x"), b"r", &vec![frame(0, 900, &EMBEDDING)]).is_ok());
    // Point the registry at another hash and put the old envelope under its key.
    let envelope = stores.vault[&template_key("U1", &hash_of(&EMBEDDING))].clone();
    let other = hash_of(&OTHER);
    stores.registry.insert(b"face_ptr:U1".to_vec(), other.clone().into_bytes());
    stores.vault.insert(template_key("U1", &other), envelope);
    let result = verify(&engine, &mut stores, "did:x", vec![frame(0, 900, &EMBEDDING)], 1);
    assert_eq!(
        result,
        Err(DilokDidError::IntegrityViolation(
            "template does not match the hash pointer".to_string()
        ))
    );
}

#[test]
fn identity_without_pointer_is_an_integrity_violation() {
    let engine = engine();
    let mut stores = stores();
    assert!(register(&engine, &mut stores, &user("U1", "did:x"), b"r", &vec![frame(0, 900, &EMBEDDING)]).is_ok());
    stores.registry.remove(&b"face_ptr:U1".to_vec());
    let result = verify(&engine, &mut stores, "did:x", vec![frame(0, 900, &EMBEDDING)], 1);
    assert_eq!(
        result,
        Err(DilokDidError::IntegrityViolation("identity has no hash pointer".to_string()))
    );
    // A registration gives the identity its pointer again.
    let again = register(&engine, &mut stores, &user("U1", "did:x"), b"r", &vec![frame(0, 900, &OTHER)]);
    assert_eq!(again, Ok("U1".to_string()));
    assert!(verify(&engine, &mut stores, "did:x", vec![frame(0, 900, &OTHER)], 1).unwrap().is_verified);
}

#[test]
fn failed_live_capture_is_the_error_of_the_capture() {
    let engine = engine();
    let mut stores = stores();
    assert!(register(&engine, &mut stores, &user("U1", "did:x"), b"r", &vec![frame(0, 900, &EMBEDDING)]).is_ok());
    let result = verify(&engine, &mut stores, "did:x", vec![frame(0, 100, &EMBEDDING)], 1);
    assert_eq!(
        result,
        Err(DilokDidError::FaceRecognitionError(FaceRecognitionError::LowQualityCapture))
    );
    let result = verify(&engine, &mut stores, "did:x", vec![Frame::TimedOut { angle: 0 }], 1);
    assert_eq!(
        result,
        Err(DilokDidError::FaceRecognitionError(FaceRecognitionError::CaptureTimeout))
    );
    stores.fail_at = Some(3);
    let result = verify(&engine, &mut stores, "did:x", vec![frame(0, 900, &EMBEDDING)], 1);
    assert_eq!(
        result,
        Err(DilokDidError::FaceRecognitionError(FaceRecognitionError::DlibError(
            "request 3 failed".to_string()
        )))
    );
}

#[test]
fn failed_reads_end_a_verification_with_the_error_of_the_store() {
    let engine = engine();
    for position in 0..3usize {
        let mut stores = stores();
        assert!(register(&engine, &mut stores, &user("U1", "did:x"), b"r", &vec![frame(0, 900, &EMBEDDING)]).is_ok());
        stores.fail_at = Some(position);
        let result = verify(&engine, &mut stores, "did:x", vec![frame(0, 900, &EMBEDDING)], 1);
        assert_eq!(
            result,
            Err(DilokDidError::StorageError(StorageError::IoError(format!(
                "request {} failed",
                position
            ))))
        );
    }
}

#[test]
fn reply_of_the_wrong_kind_is_an_error() {
    let engine = engine();
    let step = engine.get_user_info("did:x");
    let state = match step {
        Step::Continue(state, _) => state,
        Step::Finish(_) => panic!("finished early"),
    };
    assert_eq!(
        engine.resume_lookup(state, Reply::Done),
        Step::Finish(Err(DilokDidError::StorageError(StorageError::IoError(
            "unexpected reply".to_string()
        ))))
    );
}

#[test]
fn lookup_of_an_identity_without_record_is_an_integrity_error() {
    let engine = engine();
    let mut stores = stores();
    assert!(register(&engine, &mut stores, &user("U1", "did:x"), b"r", &vec![frame(0, 900, &EMBEDDING)]).is_ok());
    stores.registry.remove(&b"record:U1".to_vec());
    assert_eq!(
        record_of(&engine, &mut stores, "did:x"),
        Err(DilokDidError::StorageError(StorageError::IntegrityError(
            "identity has no record".to_string()
        )))
    );
}

#[test]
fn sealing_is_repeatable_so_a_retried_write_is_the_same_write() {
    let engine = engine();
    let info = user("U1", "did:x");
    let frames = vec![frame(0, 900, &EMBEDDING)];
    let first = engine.register_user(info.clone(), b"r", &frames, 5);
    let second = engine.register_user(info.clone(), b"r", &frames, 5);
    assert_eq!(first, second);
}

fn pointers_resolve(stores: &Stores) -> bool {
    stores.registry.iter().all(|(key, value)| match key.strip_prefix(b"face_ptr:") {
        None => true,
        Some(id) => {
            let mut template: Vec<u8> = b"template:".to_vec();
            template.extend_from_slice(id);
            template.push(b':');
            template.extend_from_slice(value);
            stores.vault.contains_key(&template)
        }
    })
}

fn index_consistent(stores: &Stores) -> bool {
    stores.registry.iter().all(|(key, id)| match key.strip_prefix(b"did_index:") {
        None => true,
        Some(_) => {
            let mut record: Vec<u8> = b"record:".to_vec();
            record.extend_from_slice(id);
            let mut pointer: Vec<u8> = b"face_ptr:".to_vec();
            pointer.extend_from_slice(id);
            stores.registry.contains_key(&record) && stores.registry.contains_key(&pointer)
        }
    })
}

#[test]
fn whatever_fails_every_pointer_names_a_template_in_the_vault() {
    let engine = engine();
    for first_failure in 0..10usize {
        for second_failure in 0..10usize {
            for third_failure in [None, Some(second_failure + 1), Some(second_failure + 2)] {
                let mut stores = stores();
                assert!(register(&engine, &mut stores, &user("U0", "did:w"), b"w", &vec![frame(0, 900, &OTHER)]).is_ok());
                stores.fail_at = Some(first_failure);
                let first = register(&engine, &mut stores, &user("U1", "did:x"), b"a", &vec![frame(0, 900, &EMBEDDING)]);
                assert_eq!(first.is_ok(), first_failure >= 6);
                assert!(pointers_resolve(&stores));
                assert!(index_consistent(&stores));
                stores.fail_at = Some(second_failure);
                stores.fail_too = third_failure;
                let second = register(&engine, &mut stores, &user("U1", "did:x"), b"b", &vec![frame(0, 900, &OTHER)]);
                if third_failure.is_none() {
                    let needed: usize = if first.is_ok() { 7 } else { 6 };
                    assert_eq!(second.is_ok(), second_failure >= needed);
                }
                assert!(pointers_resolve(&stores));
                assert!(index_consistent(&stores));
                stores.fail_at = None;
                stores.fail_too = None;
                assert!(verify(&engine, &mut stores, "did:w", vec![frame(0, 900, &OTHER)], 1).unwrap().is_verified);
            }
        }
    }
}

#[test]
fn failed_removal_of_the_old_template_is_undone() {
    let engine = engine();
    let mut stores = stores();
    assert!(register(&engine, &mut stores, &user("U1", "did:x"), b"a", &vec![frame(0, 900, &EMBEDDING)]).is_ok());
    let registry = stores.registry.clone();
    let vault = stores.vault.clone();
    stores.fail_at = Some(6);
    let again = register(&engine, &mut stores, &user("U1", "did:x"), b"b", &vec![frame(0, 900, &OTHER)]);
    assert_eq!(
        again,
        Err(DilokDidError::StorageError(StorageError::IoError("request 6 failed".to_string())))
    );
    assert_eq!(stores.served, 9);
    assert_eq!(stores.registry, registry);
    assert_eq!(stores.vault, vault);
    stores.fail_at = None;
    assert_eq!(record_of(&engine, &mut stores, "did:x"), Ok(b"a".to_vec()));
    assert!(verify(&engine, &mut stores, "did:x", vec![frame(0, 900, &EMBEDDING)], 1).unwrap().is_verified);
    // Tried again, the re-enrollment goes through and leaves one template.
    assert_eq!(
        register(&engine, &mut stores, &user("U1", "did:x"), b"b", &vec![frame(0, 900, &OTHER)]),
        Ok("U1".to_string())
    );
    assert_eq!(templates_of(&stores, "U1"), 1);
    assert!(stores.vault.contains_key(&template_key("U1", &hash_of(&OTHER))));
}

#[test]
fn registration_stands_when_removal_and_undoing_both_fail() {
    let engine = engine();
    let mut stores = stores();
    assert!(register(&engine, &mut stores, &user("U1", "did:x"), b"a", &vec![frame(0, 900, &EMBEDDING)]).is_ok());
    stores.fail_at = Some(6);
    stores.fail_too = Some(7);
    let again = register(&engine, &mut stores, &user("U1", "did:x"), b"b", &vec![frame(0, 900, &OTHER)]);
    assert_eq!(again, Ok("U1".to_string()));
    assert_eq!(stores.served, 8);
    stores.fail_at = None;
    stores.fail_too = None;
    assert_eq!(stores.registry.get(&b"face_ptr:U1".to_vec()), Some(&hash_of(&OTHER).into_bytes()));
    assert_eq!(record_of(&engine, &mut stores, "did:x"), Ok(b"b".to_vec()));
    assert!(verify(&engine, &mut stores, "did:x", vec![frame(0, 900, &OTHER)], 1).unwrap().is_verified);
    // The earlier template is still in the vault, named by no pointer.
    assert!(stores.vault.contains_key(&template_key("U1", &hash_of(&EMBEDDING))));
}

#[test]
fn undoing_puts_back_record_index_and_pointer() {
    let engine = engine();
    let mut step = engine.register_user(user("U1", "did:x"), b"new", &vec![frame(0, 900, &OTHER)], 5);
    let replies = [
        Reply::Value(Some(b"U1".to_vec())),
        Reply::Value(Some(b"old record".to_vec())),
        Reply::Value(Some(hash_of(&EMBEDDING).into_bytes())),
        Reply::Value(None),
        Reply::Done,
        Reply::Done,
        Reply::Failed("vault down".to_string()),
    ];
    for reply in replies {
        step = match step {
            Step::Continue(state, _) => engine.resume_registration(state, reply),
            Step::Finish(_) => panic!("finished early"),
        };
    }
    let state = match step {
        Step::Continue(state, request) => {
            assert_eq!(
                request,
                Request::Registry(StoreOp::Write {
                    batch: vec![
                        Mutation { key: b"record:U1".to_vec(), value: Some(b"old record".to_vec()) },
                        Mutation { key: b"did_index:did:x".to_vec(), value: Some(b"U1".to_vec()) },
                        Mutation {
                            key: b"face_ptr:U1".to_vec(),
                            value: Some(hash_of(&EMBEDDING).into_bytes()),
                        },
                    ],
                })
            );
            state
        }
        Step::Finish(_) => panic!("no undoing"),
    };
    let state = match engine.resume_registration(state, Reply::Done) {
        Step::Continue(state, request) => {
            assert_eq!(
                request,
                Request::Vault(StoreOp::Write {
                    batch: vec![Mutation { key: template_key("U1", &hash_of(&OTHER)), value: None }],
                })
            );
            state
        }
        Step::Finish(_) => panic!("no putting back"),
    };
    assert_eq!(
        engine.resume_registration(state, Reply::Done),
        Step::Finish(Err(DilokDidError::StorageError(StorageError::IoError(
            "vault down".to_string()
        ))))
    );
}

#[test]
fn a_registration_that_fails_changes_neither_store() {
    let engine = engine();
    let captures = [frame(0, 900, &OTHER), frame(3, 950, &EMBEDDING)];
    for (which, capture) in captures.iter().enumerate() {
        for enrolled in [false, true] {
            for failure in 0..9usize {
                let mut stores = stores();
                assert!(register(&engine, &mut stores, &user("U0", "did:w"), b"w", &vec![frame(0, 900, &OTHER)]).is_ok());
                if enrolled {
                    assert!(register(&engine, &mut stores, &user("U1", "did:x"), b"a", &vec![frame(0, 900, &EMBEDDING)]).is_ok());
                }
                let registry = stores.registry.clone();
                let vault = stores.vault.clone();
                stores.fail_at = Some(failure);
                let result = register(&engine, &mut stores, &user("U1", "did:x"), b"b", &vec![capture.clone()]);
                // Only a re-enrollment with another embedding has a seventh request.
                let requests: usize = if enrolled && which == 0 { 7 } else { 6 };
                assert_eq!(result.is_err(), failure < requests);
                if result.is_err() {
                    assert_eq!(stores.registry, registry);
                    assert_eq!(stores.vault, vault);
                } else {
                    assert_eq!(stores.registry.get(&b"record:U1".to_vec()), Some(&b"b".to_vec()));
                    assert_eq!(templates_of(&stores, "U1"), 1);
                }
            }
        }
    }
}

#[test]
fn a_write_tried_again_leaves_the_store_as_the_first_try_did() {
    let engine = engine();
    let info = user("U1", "did:x");
    let mut step = engine.register_user(info.clone(), b"r", &vec![frame(0, 900, &EMBEDDING)], 5);
    let mut stores = stores();
    loop {
        match step {
            Step::Finish(result) => {
                assert!(result.is_ok());
                break;
            }
            Step::Continue(state, request) => {
                let reply = answer(&mut stores, &request);
                let registry = stores.registry.clone();
                let vault = stores.vault.clone();
                let again = answer(&mut stores, &request);
                assert_eq!(again, reply);
                assert_eq!(stores.registry, registry);
                assert_eq!(stores.vault, vault);
                step = engine.resume_registration(state, reply);
            }
        }
    }
}

#[test]
fn quality_above_one_ends_a_registration_before_any_request() {
    let engine = engine();
    let mut stores = stores();
    let result = register(&engine, &mut stores, &user("U1", "did:x"), b"r", &vec![frame(0, 2000, &EMBEDDING)]);
    assert_eq!(
        result,
        Err(DilokDidError::FaceRecognitionError(FaceRecognitionError::DlibError(
            "quality score is above 1.0".to_string()
        )))
    );
    assert_eq!(stores.served, 0);
}

fn templates_of(stores: &Stores, id: &str) -> usize {
    let prefix = format!("template:{}:", id).into_bytes();
    stores.vault.keys().filter(|key| key.starts_with(&prefix)).count()
}

#[test]
fn each_identity_has_one_template_after_any_run_in_which_one_request_fails() {
    let engine = engine();
    for failure in 0..7usize {
        let mut stores = stores();
        assert!(register(&engine, &mut stores, &user("U1", "did:x"), b"a", &vec![frame(0, 900, &EMBEDDING)]).is_ok());
        let registry = stores.registry.clone();
        let vault = stores.vault.clone();
        stores.fail_at = Some(failure);
        assert!(register(&engine, &mut stores, &user("U1", "did:x"), b"b", &vec![frame(0, 900, &OTHER)]).is_err());
        // Both stores are as they were.
        assert_eq!(stores.registry, registry);
        assert_eq!(stores.vault, vault);
        stores.fail_at = None;
        assert!(register(&engine, &mut stores, &user("U1", "did:x"), b"c", &vec![frame(0, 900, &OTHER)]).is_ok());
        assert_eq!(templates_of(&stores, "U1"), 1);
        assert!(stores.vault.contains_key(&template_key("U1", &hash_of(&OTHER))));
    }
}
