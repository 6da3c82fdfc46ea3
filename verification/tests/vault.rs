use dilok_did::exchange::{Mutation, Reply, StoreOp};
use dilok_did::face_recognition::FaceRecognition;
use dilok_did::storage::seal::{derive_key, open, seal};
use dilok_did::storage::template::Template;
use dilok_did::storage::{OffChainStorage, StorageError};
use dilok_did::types::{FaceAngle, FaceData, StorageConfig};

fn unhex(text: &str) -> Vec<u8> {
    let digits: Vec<u8> = text
        .bytes()
        .map(|c| match c {
            b'0'..=b'9' => c - b'0',
            _ => c - b'a' + 10,
        })
        .collect();
    digits.chunks(2).map(|pair| pair[0] * 16 + pair[1]).collect()
}

fn vault() -> OffChainStorage {
    OffChainStorage::new(&StorageConfig::new(
        "registry".to_string(),
        "vault".to_string(),
        "a secret of some length".to_string(),
    ))
    .unwrap()
}

fn template() -> FaceData {
    let embedding: Vec<u8> = vec![10, 20, 30, 40, 50, 60, 70, 80];
    FaceData {
        user_id: "U1".to_string(),
        face_hash: FaceRecognition::new().unwrap().generate_face_hash(&embedding).unwrap(),
        face_data: embedding,
        angles: vec![
            FaceAngle { angle: -15000, quality_score: 850 },
            FaceAngle { angle: 0, quality_score: 990 },
        ],
        created_at: 1700000000,
    }
}

#[test]
fn key_is_derived_from_the_secret() {
    assert_eq!(
        derive_key(b"a secret of some length"),
        unhex("515bd3d933e1945dae12eeb8cdb830ea1ab337351e95ca28f785855cd3272e47")
    );
    assert_ne!(derive_key(b"a secret of some length"), derive_key(b"a secret of some lengtH"));
}

#[test]
fn envelope_is_nonce_tag_and_ciphertext() {
    let key = derive_key(b"a secret of some length");
    assert_eq!(
        seal(&key, b"hello vault"),
        unhex(
            "ea34e2193ea243e4bf0c9051510382e1a832b2577aff56ca30b8da9a4c96a080\
             48976fc88ff357dbb4d87c2c15cc26cb04acad51ee8db53f8c93dc"
        )
    );
    assert_eq!(
        seal(&key, b""),
        unhex(
            "947c48fa867f829f093347a603801c6c0dc7e23318887158e0a83d6fc1cfc251\
             0dd461d6e6b19cf9cbb6b5a3a1b955a9"
        )
    );
}

#[test]
fn envelope_of_more_than_two_blocks() {
    let key = derive_key(b"a secret of some length");
    let plaintext: Vec<u8> = (0..70u8).collect();
    assert_eq!(
        seal(&key, &plaintext),
        unhex(
            "e7fc03f4eca3f9a2598fedbff5121452751fcb85ce920c0ac088744fe19f3d12\
             f88451e5eb8708af0214d3b2f6e8f195846320bf936810ab98b2c2873f2f32d8\
             8c7e80a65996c04c4b039ebfacbb3ca0dbb15e619baed7247cbf6e06e863263d\
             a05718a53432744f2a9599ade4b0c6815558d8643c18"
        )
    );
    assert_eq!(open(&key, &seal(&key, &plaintext)), Some(plaintext));
}

#[test]
fn opening_gives_the_plaintext_back() {
    let key = derive_key(b"a secret of some length");
    for length in [0usize, 1, 31, 32, 33, 64, 65, 1000] {
        let plaintext: Vec<u8> = (0..length).map(|i| (i * 7 % 256) as u8).collect();
        let envelope = seal(&key, &plaintext);
        assert_eq!(envelope.len(), plaintext.len() + 48);
        assert_eq!(open(&key, &envelope), Some(plaintext));
    }
}

#[test]
fn any_changed_byte_is_noticed() {
    let key = derive_key(b"a secret of some length");
    let envelope = seal(&key, b"hello vault");
    for at in 0..envelope.len() {
        let mut changed = envelope.clone();
        changed[at] ^= 0x01;
        assert_eq!(open(&key, &changed), None);
    }
}

#[test]
fn short_or_cut_envelope_does_not_open() {
    let key = derive_key(b"a secret of some length");
    let envelope = seal(&key, b"hello vault");
    assert_eq!(open(&key, &[]), None);
    assert_eq!(open(&key, &envelope[..47]), None);
    assert_eq!(open(&key, &envelope[..48]), None);
    assert_eq!(open(&key, &envelope[..envelope.len() - 1]), None);
}

#[test]
fn another_key_does_not_open() {
    let key = derive_key(b"a secret of some length");
    let other = derive_key(b"another secret");
    assert_eq!(open(&other, &seal(&key, b"hello vault")), None);
}

#[test]
fn encrypt_then_decrypt_is_byte_identical() {
    let vault = vault();
    let plaintext = b"{\"user_id\":\"U1\",\"face_data\":[1,2,3]}".to_vec();
    let envelope = vault.encrypt_data(&plaintext).unwrap();
    assert_ne!(envelope[48..].to_vec(), plaintext);
    assert_eq!(vault.decrypt_data(&envelope), Ok(plaintext));
}

#[test]
fn decrypt_of_tampered_data_is_an_integrity_error() {
    let vault = vault();
    let mut envelope = vault.encrypt_data(b"template").unwrap();
    envelope[50] ^= 0x80;
    assert_eq!(
        vault.decrypt_data(&envelope),
        Err(StorageError::IntegrityError("stored data failed authentication".to_string()))
    );
    assert_eq!(
        vault.decrypt_data(b"short"),
        Err(StorageError::IntegrityError("stored data failed authentication".to_string()))
    );
}

#[test]
fn store_then_get_gives_the_template_back() {
    let vault = vault();
    let template = template();
    let op = vault.store_face_data(&template).unwrap();
    let (key, envelope) = match &op {
        StoreOp::Write { batch } => {
            assert_eq!(batch.len(), 1);
            (batch[0].key.clone(), batch[0].value.clone().unwrap())
        }
        _ => panic!("expected a write"),
    };
    assert_eq!(
        key,
        b"template:U1:73f1171adc7e49b09423da2515a1077e3cc63e3fabcb9846cac437d044ac57ec".to_vec()
    );
    assert_eq!(vault.get_face_data("U1", template.face_hash.as_bytes()), StoreOp::Read { key });
    assert_eq!(vault.face_data_from("U1", Reply::Value(Some(envelope.clone()))), Ok(template.clone()));
    assert_eq!(vault.unseal(&envelope).unwrap().embedding, template.face_data);
}

#[test]
fn get_of_a_missing_or_foreign_template_fails() {
    let vault = vault();
    let template = template();
    let envelope = match vault.store_face_data(&template) {
        Ok(StoreOp::Write { batch }) => batch[0].value.clone().unwrap(),
        _ => panic!("expected a write"),
    };
    assert_eq!(
        vault.face_data_from("U1", Reply::Value(None)),
        Err(StorageError::NotFound("Face data for user U1 not found".to_string()))
    );
    assert_eq!(
        vault.face_data_from("U2", Reply::Value(Some(envelope.clone()))),
        Err(StorageError::IntegrityError("template belongs to another identity".to_string()))
    );
    assert_eq!(
        vault.face_data_from("U1", Reply::Failed("disk".to_string())),
        Err(StorageError::IoError("disk".to_string()))
    );
    assert_eq!(
        vault.face_data_from("U1", Reply::Done),
        Err(StorageError::IoError("unexpected reply".to_string()))
    );
    let mut tampered = envelope.clone();
    tampered[0] ^= 1;
    assert_eq!(
        vault.face_data_from("U1", Reply::Value(Some(tampered))),
        Err(StorageError::IntegrityError("stored data failed authentication".to_string()))
    );
    // An envelope that opens and holds no template.
    let other = vault.encrypt_data(b"not a template").unwrap();
    assert_eq!(
        vault.face_data_from("U1", Reply::Value(Some(other))),
        Err(StorageError::IntegrityError("stored data failed authentication".to_string()))
    );
}

#[test]
fn delete_names_the_key_without_a_value() {
    let vault = vault();
    assert_eq!(
        vault.delete_face_data("U1", b"abc"),
        StoreOp::Write { batch: vec![Mutation { key: b"template:U1:abc".to_vec(), value: None }] }
    );
}

#[test]
fn template_bytes_are_head_owner_embedding_angles() {
    let template = Template {
        owner: b"U1".to_vec(),
        embedding: vec![1, 2, 3],
        angles: vec![FaceAngle { angle: -1, quality_score: 990 }],
        created_at: 1,
    };
    let mut expected: Vec<u8> = Vec::new();
    expected.extend_from_slice(&[0x80, 0, 0, 0, 0, 0, 0, 1]);
    expected.extend_from_slice(&[0, 0, 0, 0, 0, 0, 0, 2]);
    expected.extend_from_slice(&[0, 0, 0, 0, 0, 0, 0, 3]);
    expected.extend_from_slice(&[0, 0, 0, 0, 0, 0, 0, 1]);
    expected.extend_from_slice(b"U1");
    expected.extend_from_slice(&[1, 2, 3]);
    expected.extend_from_slice(&[0, 0, 0, 0, 0x7f, 0xff, 0xff, 0xff]);
    expected.extend_from_slice(&[0, 0, 0, 0, 0, 0, 0x03, 0xde]);
    assert_eq!(template.encode(), expected);
    assert_eq!(Template::decode(&expected), Some(template));
}

#[test]
fn template_round_trip_at_the_limits() {
    let template = Template {
        owner: Vec::new(),
        embedding: Vec::new(),
        angles: vec![
            FaceAngle { angle: i32::MIN, quality_score: 0 },
            FaceAngle { angle: i32::MAX, quality_score: u32::MAX },
        ],
        created_at: i64::MIN,
    };
    assert_eq!(Template::decode(&template.encode()), Some(template));
    let template = Template {
        owner: vec![0xff; 300],
        embedding: (0..=255u8).collect(),
        angles: Vec::new(),
        created_at: i64::MAX,
    };
    assert_eq!(Template::decode(&template.encode()), Some(template));
}

#[test]
fn bytes_that_are_no_template_do_not_decode() {
    let template = Template {
        owner: b"U1".to_vec(),
        embedding: vec![1, 2, 3],
        angles: vec![FaceAngle { angle: 5, quality_score: 990 }],
        created_at: 1,
    };
    let bytes = template.encode();
    assert_eq!(Template::decode(&[]), None);
    assert_eq!(Template::decode(&bytes[..31]), None);
    assert_eq!(Template::decode(&bytes[..bytes.len() - 1]), None);
    let mut longer = bytes.clone();
    longer.push(0);
    assert_eq!(Template::decode(&longer), None);
    // An angle that does not fit in 32 bits.
    let mut wide = bytes.clone();
    wide[37 + 3] = 1;
    assert_eq!(Template::decode(&wide), None);
    // A length that names more bytes than there are.
    let mut long_owner = bytes.clone();
    long_owner[8] = 0xff;
    assert_eq!(Template::decode(&long_owner), None);
}

#[test]
fn template_with_another_hash_text_is_refused() {
    let vault = vault();
    let mut template = template();
    template.face_hash = "ba7816bf8f01cfea414140de5dae2223b00361a396177a9cb410ff61f20015ad".to_string();
    assert_eq!(
        vault.store_face_data(&template),
        Err(StorageError::IntegrityError(
            "hash pointer is not the hash of the embedding".to_string()
        ))
    );
    template.face_hash = String::new();
    assert!(vault.store_face_data(&template).is_err());
}

#[test]
fn every_field_of_a_stored_template_is_read_back() {
    let vault = vault();
    let recognizer = FaceRecognition::new().unwrap();
    for (id, embedding, created_at) in [
        ("U1", vec![1u8, 2, 3], 0i64),
        ("", Vec::new(), -1i64),
        ("did:with:colons", vec![0u8; 300], i64::MAX),
    ] {
        let template = FaceData {
            user_id: id.to_string(),
            face_hash: recognizer.generate_face_hash(&embedding).unwrap(),
            face_data: embedding,
            angles: vec![FaceAngle { angle: -90000, quality_score: 1000 }],
            created_at,
        };
        let envelope = match vault.store_face_data(&template) {
            Ok(StoreOp::Write { batch }) => batch[0].value.clone().unwrap(),
            _ => panic!("expected a write"),
        };
        assert_eq!(vault.face_data_from(id, Reply::Value(Some(envelope))), Ok(template));
    }
}
