use std::collections::HashMap;

use dilok_did::exchange::{Mutation, Reply, StoreOp};
use dilok_did::storage::keys::{did_index_key_of, pointer_key_of, record_key_of, template_key_of};
use dilok_did::storage::{done_of, value_of, OnChainStorage, StorageError};
use dilok_did::types::{Gender, IdProof, IdProofType, UserInfo};
use dilok_did::DilokDidError;

fn user() -> UserInfo {
    UserInfo {
        id: "U1".to_string(),
        did: "did:x".to_string(),
        first_name: "Test".to_string(),
        last_name: "User".to_string(),
        date_of_birth: 0,
        gender: Gender::PreferNotToSay,
        phone_number: String::new(),
        email: String::new(),
        id_proof: IdProof {
            proof_type: IdProofType::NationalId,
            number: String::new(),
            issuing_authority: String::new(),
            issued_date: 0,
            expiry_date: 0,
        },
        face_hash: "abc123".to_string(),
        created_at: 0,
        updated_at: 0,
    }
}

#[test]
fn keys_are_prefix_and_name() {
    assert_eq!(record_key_of(b"U1"), b"record:U1".to_vec());
    assert_eq!(did_index_key_of(b"did:x"), b"did_index:did:x".to_vec());
    assert_eq!(pointer_key_of(b"U1"), b"face_ptr:U1".to_vec());
    assert_eq!(template_key_of(b"U1", b"abc"), b"template:U1:abc".to_vec());
    assert_eq!(record_key_of(b""), b"record:".to_vec());
}

#[test]
fn keys_take_names_that_are_not_ascii() {
    let registry = OnChainStorage::new().unwrap();
    assert_eq!(
        registry.find_did("did:möbius"),
        StoreOp::Read { key: "did_index:did:möbius".as_bytes().to_vec() }
    );
}

#[test]
fn store_user_info_writes_the_record_and_for_a_new_did_the_index_entry() {
    let registry = OnChainStorage::new().unwrap();
    // The DID is free and the identity is new.
    assert_eq!(
        registry.store_user_info(&user(), b"{}", &None, &None),
        Ok(StoreOp::Write {
            batch: vec![
                Mutation { key: b"record:U1".to_vec(), value: Some(b"{}".to_vec()) },
                Mutation { key: b"did_index:did:x".to_vec(), value: Some(b"U1".to_vec()) },
            ],
        })
    );
    // The DID is the identity's own: the record alone.
    let record_alone = StoreOp::Write {
        batch: vec![Mutation { key: b"record:U1".to_vec(), value: Some(b"{}".to_vec()) }],
    };
    assert_eq!(
        registry.store_user_info(&user(), b"{}", &Some(b"U1".to_vec()), &Some(b"old".to_vec())),
        Ok(record_alone.clone())
    );
    assert_eq!(
        registry.store_user_info(&user(), b"{}", &Some(b"U1".to_vec()), &None),
        Ok(record_alone)
    );
}

#[test]
fn store_user_info_refuses_a_did_that_is_taken() {
    let registry = OnChainStorage::new().unwrap();
    assert_eq!(
        registry.store_user_info(&user(), b"{}", &Some(b"U2".to_vec()), &None),
        Err(StorageError::DuplicateDid("did:x".to_string()))
    );
    assert_eq!(
        registry.store_user_info(&user(), b"{}", &Some(b"U2".to_vec()), &Some(b"old".to_vec())),
        Err(StorageError::DuplicateDid("did:x".to_string()))
    );
    assert_eq!(
        registry.store_user_info(&user(), b"{}", &Some(b"U".to_vec()), &None),
        Err(StorageError::DuplicateDid("did:x".to_string()))
    );
}

#[test]
fn store_user_info_refuses_an_identity_of_another_did() {
    let registry = OnChainStorage::new().unwrap();
    assert_eq!(
        registry.store_user_info(&user(), b"{}", &None, &Some(b"old".to_vec())),
        Err(StorageError::DuplicateDid("U1".to_string()))
    );
}

fn entry(entries: &HashMap<Vec<u8>, Vec<u8>>, op: &StoreOp) -> Option<Vec<u8>> {
    match op {
        StoreOp::Read { key } => entries.get(key).cloned(),
        StoreOp::Write { .. } => panic!("expected a read"),
    }
}

fn apply(entries: &mut HashMap<Vec<u8>, Vec<u8>>, op: StoreOp) {
    match op {
        StoreOp::Write { batch } => {
            for Mutation { key, value } in batch {
                match value {
                    Some(v) => {
                        entries.insert(key, v);
                    }
                    None => {
                        entries.remove(&key);
                    }
                }
            }
        }
        StoreOp::Read { .. } => panic!("expected a write"),
    }
}

fn store(
    registry: &OnChainStorage,
    entries: &mut HashMap<Vec<u8>, Vec<u8>>,
    info: &UserInfo,
    record: &[u8],
) -> Result<(), StorageError> {
    let found = entry(entries, &registry.find_did(&info.did));
    let existing = entry(entries, &registry.get_user_info(&info.id));
    let write = registry.store_user_info(info, record, &found, &existing)?;
    apply(entries, write);
    Ok(())
}

fn pointer(registry: &OnChainStorage, entries: &HashMap<Vec<u8>, Vec<u8>>, id: &str) -> Result<Vec<u8>, StorageError> {
    registry.face_hash_from(id, Reply::Value(entry(entries, &registry.get_face_hash(id))))
}

#[test]
fn store_on_a_registry_leaves_a_taken_did_with_its_identity() {
    let registry = OnChainStorage::new().unwrap();
    let mut entries: HashMap<Vec<u8>, Vec<u8>> = HashMap::new();
    let first = user();
    assert_eq!(store(&registry, &mut entries, &first, b"one"), Ok(()));
    let before = entries.clone();

    // Another identity under the same DID.
    let mut second = user();
    second.id = "U2".to_string();
    assert_eq!(
        store(&registry, &mut entries, &second, b"two"),
        Err(StorageError::DuplicateDid("did:x".to_string()))
    );
    assert_eq!(entries, before);

    // The same identity under another DID, though it has no pointer yet.
    let mut third = user();
    third.did = "did:y".to_string();
    assert_eq!(
        store(&registry, &mut entries, &third, b"three"),
        Err(StorageError::DuplicateDid("U1".to_string()))
    );
    assert_eq!(entries, before);

    // A new identity under a new DID; the first is as it was.
    let mut fourth = user();
    fourth.id = "U4".to_string();
    fourth.did = "did:z".to_string();
    assert_eq!(store(&registry, &mut entries, &fourth, b"four"), Ok(()));
    assert_eq!(entries.get(&b"did_index:did:x".to_vec()), Some(&b"U1".to_vec()));
    assert_eq!(entries.get(&b"did_index:did:z".to_vec()), Some(&b"U4".to_vec()));
    assert_eq!(entries.get(&b"record:U1".to_vec()), Some(&b"one".to_vec()));
    assert_eq!(entries.get(&b"record:U4".to_vec()), Some(&b"four".to_vec()));
    assert_eq!(entries.len(), 4);

    // Read back by id and found by DID.
    let by_did = entry(&entries, &registry.find_did("did:z")).unwrap();
    assert_eq!(by_did, b"U4".to_vec());
    let reply = Reply::Value(entry(&entries, &registry.get_user_info("U4")));
    assert_eq!(registry.user_info_from("U4", reply), Ok(b"four".to_vec()));
}

#[test]
fn store_user_info_leaves_every_pointer_alone() {
    let registry = OnChainStorage::new().unwrap();
    let mut entries: HashMap<Vec<u8>, Vec<u8>> = HashMap::new();
    assert_eq!(store(&registry, &mut entries, &user(), b"one"), Ok(()));
    apply(&mut entries, registry.store_face_hash("U1", "aa"));
    assert_eq!(pointer(&registry, &entries, "U1"), Ok(b"aa".to_vec()));
    // The record is stored again, with another hash in it: the pointer stays.
    let mut again = user();
    again.face_hash = "zz".to_string();
    assert_eq!(store(&registry, &mut entries, &again, b"two"), Ok(()));
    assert_eq!(pointer(&registry, &entries, "U1"), Ok(b"aa".to_vec()));
    assert_eq!(entries.get(&b"record:U1".to_vec()), Some(&b"two".to_vec()));
}

#[test]
fn store_face_hash_moves_the_pointer_of_any_identity() {
    let registry = OnChainStorage::new().unwrap();
    assert_eq!(
        registry.store_face_hash("U1", "ffee"),
        StoreOp::Write {
            batch: vec![Mutation { key: b"face_ptr:U1".to_vec(), value: Some(b"ffee".to_vec()) }],
        }
    );
    let mut entries: HashMap<Vec<u8>, Vec<u8>> = HashMap::new();
    apply(&mut entries, registry.store_face_hash("u1", "aa"));
    apply(&mut entries, registry.store_face_hash("u1", "bb"));
    apply(&mut entries, registry.store_face_hash("u2", "cc"));
    assert_eq!(pointer(&registry, &entries, "u1"), Ok(b"bb".to_vec()));
    assert_eq!(pointer(&registry, &entries, "u2"), Ok(b"cc".to_vec()));
    assert_eq!(
        pointer(&registry, &entries, "u3"),
        Err(StorageError::NotFound("Face hash for user u3 not found".to_string()))
    );
    assert_eq!(entries.len(), 2);
}

#[test]
fn reads_name_their_keys() {
    let registry = OnChainStorage::new().unwrap();
    assert_eq!(registry.get_user_info("U1"), StoreOp::Read { key: b"record:U1".to_vec() });
    assert_eq!(registry.get_face_hash("U1"), StoreOp::Read { key: b"face_ptr:U1".to_vec() });
    assert_eq!(registry.find_did("did:x"), StoreOp::Read { key: b"did_index:did:x".to_vec() });
}

#[test]
fn replies_to_get_user_info() {
    let registry = OnChainStorage::new().unwrap();
    assert_eq!(registry.user_info_from("U1", Reply::Value(Some(b"{}".to_vec()))), Ok(b"{}".to_vec()));
    assert_eq!(
        registry.user_info_from("U1", Reply::Value(None)),
        Err(StorageError::NotFound("User U1 not found".to_string()))
    );
    assert_eq!(
        registry.user_info_from("U1", Reply::Failed("disk".to_string())),
        Err(StorageError::IoError("disk".to_string()))
    );
    assert_eq!(
        registry.user_info_from("U1", Reply::Frames(Vec::new())),
        Err(StorageError::IoError("unexpected reply".to_string()))
    );
}

#[test]
fn replies_to_get_face_hash() {
    let registry = OnChainStorage::new().unwrap();
    assert_eq!(registry.face_hash_from("U1", Reply::Value(Some(b"ab".to_vec()))), Ok(b"ab".to_vec()));
    assert_eq!(
        registry.face_hash_from("U1", Reply::Value(None)),
        Err(StorageError::NotFound("Face hash for user U1 not found".to_string()))
    );
    assert_eq!(
        registry.face_hash_from("U1", Reply::Done),
        Err(StorageError::IoError("unexpected reply".to_string()))
    );
}

#[test]
fn replies_to_reads_and_writes() {
    assert_eq!(value_of(Reply::Value(None)), Ok(None));
    assert_eq!(value_of(Reply::Value(Some(vec![1]))), Ok(Some(vec![1])));
    assert_eq!(value_of(Reply::Done), Err(StorageError::IoError("unexpected reply".to_string())));
    assert_eq!(done_of(Reply::Done), Ok(()));
    assert_eq!(
        done_of(Reply::Value(None)),
        Err(StorageError::IoError("unexpected reply".to_string()))
    );
    assert_eq!(
        done_of(Reply::Failed("full".to_string())),
        Err(StorageError::IoError("full".to_string()))
    );
}

#[test]
fn storage_error_messages() {
    assert_eq!(StorageError::NotFound("User U1 not found".to_string()).message(), "Not found: User U1 not found");
    assert_eq!(StorageError::IntegrityError("bad tag".to_string()).message(), "Integrity error: bad tag");
    assert_eq!(StorageError::DuplicateDid("did:x".to_string()).message(), "Duplicate DID: did:x");
    assert_eq!(StorageError::IoError("disk".to_string()).message(), "I/O error: disk");
}

#[test]
fn engine_errors_wrap_and_say_what_they_wrap() {
    let wrapped: DilokDidError = StorageError::IoError("disk".to_string()).into();
    assert_eq!(wrapped, DilokDidError::StorageError(StorageError::IoError("disk".to_string())));
    assert_eq!(wrapped.message(), "Storage error: I/O error: disk");
    let wrapped: DilokDidError =
        dilok_did::face_recognition::FaceRecognitionError::NoFaceDetected.into();
    assert_eq!(wrapped.message(), "Face recognition error: No face detected");
    assert_eq!(
        DilokDidError::IntegrityViolation("gone".to_string()).message(),
        "Integrity violation: gone"
    );
}

#[test]
fn did_that_names_another_identity_is_a_duplicate() {
    let registry = OnChainStorage::new().unwrap();
    assert_eq!(registry.claim_did("U1", "did:x", &None), Ok(false));
    assert_eq!(registry.claim_did("U1", "did:x", &Some(b"U1".to_vec())), Ok(true));
    assert_eq!(
        registry.claim_did("U1", "did:x", &Some(b"U2".to_vec())),
        Err(StorageError::DuplicateDid("did:x".to_string()))
    );
    assert_eq!(
        registry.claim_did("U1", "did:x", &Some(b"U".to_vec())),
        Err(StorageError::DuplicateDid("did:x".to_string()))
    );
}

