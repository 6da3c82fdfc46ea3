use dilok_did::face_recognition::{
    Capture, Face, FaceRecognition, FaceRecognitionError, FaceSample, Frame,
};
use dilok_did::types::{FaceAngle, FaceData};

fn frame(angle: i32, quality: u32, embedding: &[u8]) -> Frame {
    Frame::Detected {
        angle,
        faces: vec![Face { quality_score: quality, embedding: embedding.to_vec() }],
    }
}

fn sample(angle: i32, quality: u32, embedding: &[u8]) -> FaceSample {
    FaceSample { angle, quality_score: quality, embedding: embedding.to_vec() }
}

fn recognizer() -> FaceRecognition {
    FaceRecognition::new().unwrap()
}

#[test]
fn default_thresholds() {
    let r = recognizer();
    assert_eq!(r.quality_threshold, 800);
    assert_eq!(r.match_threshold, 900);
}

#[test]
fn capture_keeps_the_samples_that_clear_the_threshold() {
    let frames = vec![
        frame(-30000, 790, &[1]),
        frame(0, 800, &[2]),
        frame(15000, 950, &[3]),
        frame(30000, 799, &[4]),
        frame(45000, 900, &[5]),
    ];
    let capture = recognizer().capture(&frames).unwrap();
    assert_eq!(
        capture,
        Capture {
            samples: vec![sample(0, 800, &[2]), sample(15000, 950, &[3]), sample(45000, 900, &[5])],
            canonical: 1,
        }
    );
}

#[test]
fn canonical_is_the_earliest_of_the_best() {
    let frames = vec![frame(0, 900, &[1]), frame(1, 950, &[2]), frame(2, 950, &[3]), frame(3, 910, &[4])];
    let capture = recognizer().capture(&frames).unwrap();
    assert_eq!(capture.canonical, 1);
    assert_eq!(capture.samples.len(), 4);
}

#[test]
fn capture_without_frames_is_low_quality() {
    assert_eq!(recognizer().capture(&Vec::new()), Err(FaceRecognitionError::LowQualityCapture));
}

#[test]
fn capture_all_below_threshold_is_low_quality() {
    let frames = vec![frame(0, 0, &[1]), frame(1, 799, &[2])];
    assert_eq!(recognizer().capture(&frames), Err(FaceRecognitionError::LowQualityCapture));
}

#[test]
fn sample_at_the_threshold_clears_it() {
    let frames = vec![frame(0, 800, &[1])];
    assert!(recognizer().capture(&frames).is_ok());
    let strict = FaceRecognition { quality_threshold: 1000, match_threshold: 900 };
    assert_eq!(strict.capture(&frames), Err(FaceRecognitionError::LowQualityCapture));
    let lax = FaceRecognition { quality_threshold: 0, match_threshold: 900 };
    assert_eq!(lax.capture(&vec![frame(0, 0, &[1])]).unwrap().samples.len(), 1);
}

#[test]
fn frame_without_face_fails_the_capture() {
    let frames = vec![frame(0, 900, &[1]), Frame::Detected { angle: 1, faces: vec![] }];
    assert_eq!(recognizer().capture(&frames), Err(FaceRecognitionError::NoFaceDetected));
}

#[test]
fn frame_with_two_faces_fails_the_capture() {
    let two = Frame::Detected {
        angle: 1,
        faces: vec![
            Face { quality_score: 900, embedding: vec![1] },
            Face { quality_score: 100, embedding: vec![2] },
        ],
    };
    assert_eq!(
        recognizer().capture(&vec![frame(0, 900, &[1]), two]),
        Err(FaceRecognitionError::MultipleFacesDetected)
    );
}

#[test]
fn frame_that_timed_out_fails_the_capture() {
    let frames = vec![frame(0, 900, &[1]), Frame::TimedOut { angle: 15000 }];
    assert_eq!(recognizer().capture(&frames), Err(FaceRecognitionError::CaptureTimeout));
}

#[test]
fn earliest_faulty_frame_decides_the_error() {
    let none = Frame::Detected { angle: 0, faces: vec![] };
    let timed_out = Frame::TimedOut { angle: 1 };
    assert_eq!(
        recognizer().capture(&vec![none.clone(), timed_out.clone()]),
        Err(FaceRecognitionError::NoFaceDetected)
    );
    assert_eq!(
        recognizer().capture(&vec![timed_out, none]),
        Err(FaceRecognitionError::CaptureTimeout)
    );
    // A fault counts also when the other frames are of low quality.
    assert_eq!(
        recognizer().capture(&vec![frame(0, 1, &[1]), Frame::TimedOut { angle: 1 }]),
        Err(FaceRecognitionError::CaptureTimeout)
    );
}

#[test]
fn capture_face_builds_the_template_of_the_canonical_sample() {
    let frames = vec![frame(-15000, 850, b"xyz"), frame(0, 990, b"abc"), frame(15000, 100, b"low")];
    let template = recognizer().capture_face(&frames, "U1", 1700000000).unwrap();
    assert_eq!(
        template,
        FaceData {
            user_id: "U1".to_string(),
            face_hash: "ba7816bf8f01cfea414140de5dae2223b00361a396177a9cb410ff61f20015ad"
                .to_string(),
            face_data: b"abc".to_vec(),
            angles: vec![
                FaceAngle { angle: -15000, quality_score: 850 },
                FaceAngle { angle: 0, quality_score: 990 },
            ],
            created_at: 1700000000,
        }
    );
}

#[test]
fn capture_face_fails_as_the_capture_does() {
    assert_eq!(
        recognizer().capture_face(&vec![frame(0, 10, b"abc")], "U1", 1),
        Err(FaceRecognitionError::LowQualityCapture)
    );
    assert_eq!(
        recognizer().capture_face(&vec![Frame::TimedOut { angle: 0 }], "U1", 1),
        Err(FaceRecognitionError::CaptureTimeout)
    );
}

#[test]
fn face_hash_is_the_sha256_of_the_embedding_in_hex() {
    let r = recognizer();
    assert_eq!(
        r.generate_face_hash(b"abc").unwrap(),
        "ba7816bf8f01cfea414140de5dae2223b00361a396177a9cb410ff61f20015ad"
    );
    assert_eq!(
        r.generate_face_hash(b"").unwrap(),
        "e3b0c44298fc1c149afbf4c8996fb92427ae41e4649b934ca495991b7852b855"
    );
    assert_eq!(
        r.generate_face_hash(&vec![0u8; 1024]).unwrap(),
        "5f70bf18a086007016e948b04aed3b82103a36bea41755b6cddfaf10ace3c6ef"
    );
}

#[test]
fn equal_embeddings_hash_equally_and_one_bit_changes_the_hash() {
    let r = recognizer();
    let a = r.generate_face_hash(&[1, 2, 3, 4]).unwrap();
    let b = r.generate_face_hash(&[1, 2, 3, 4]).unwrap();
    let c = r.generate_face_hash(&[1, 2, 3, 5]).unwrap();
    assert_eq!(a, b);
    assert_ne!(a, c);
    assert_eq!(a.len(), 64);
}

#[test]
fn error_messages() {
    assert_eq!(FaceRecognitionError::NoFaceDetected.message(), "No face detected");
    assert_eq!(FaceRecognitionError::MultipleFacesDetected.message(), "Multiple faces detected");
    assert_eq!(FaceRecognitionError::LowQualityCapture.message(), "Low quality face data");
    assert_eq!(FaceRecognitionError::CaptureTimeout.message(), "Capture timed out");
    assert_eq!(FaceRecognitionError::BelowThreshold.message(), "Below match threshold");
    assert_eq!(FaceRecognitionError::AmbiguousMatch.message(), "Ambiguous match");
    assert_eq!(
        FaceRecognitionError::DlibError("no model".to_string()).message(),
        "Dlib error: no model"
    );
    assert_eq!(
        FaceRecognitionError::StorageError("down".to_string()).message(),
        "Storage error: down"
    );
}

#[test]
fn quality_above_one_is_a_fault_of_the_detector() {
    let expected = Err(FaceRecognitionError::DlibError("quality score is above 1.0".to_string()));
    assert_eq!(recognizer().capture(&vec![frame(0, 2000, &[1])]), expected);
    assert_eq!(recognizer().capture(&vec![frame(0, 1001, &[1])]), expected);
    assert_eq!(recognizer().capture(&vec![frame(0, 900, &[1]), frame(1, u32::MAX, &[2])]), expected);
    assert_eq!(
        recognizer().capture_face(&vec![frame(0, 2000, &[1])], "U1", 1),
        Err(FaceRecognitionError::DlibError("quality score is above 1.0".to_string()))
    );
    // The earliest faulty frame still decides.
    assert_eq!(
        recognizer().capture(&vec![Frame::TimedOut { angle: 0 }, frame(1, 2000, &[2])]),
        Err(FaceRecognitionError::CaptureTimeout)
    );
    // 1.0 itself is a score.
    let capture = recognizer().capture(&vec![frame(0, 1000, &[1])]).unwrap();
    assert_eq!(capture.samples[0].quality_score, 1000);
}

#[test]
fn qualities_in_a_template_are_scores_at_or_above_the_threshold() {
    let frames = vec![frame(0, 800, &[1]), frame(1, 1000, &[2]), frame(2, 10, &[3]), frame(3, 999, &[4])];
    let template = recognizer().capture_face(&frames, "U1", 1).unwrap();
    assert_eq!(template.angles.len(), 3);
    assert!(template.angles.iter().all(|a| 800 <= a.quality_score && a.quality_score <= 1000));
    assert_eq!(template.face_data, vec![2]);
}

#[test]
fn empty_embedding_is_a_fault_of_the_detector() {
    let expected = Err(FaceRecognitionError::DlibError("embedding is empty".to_string()));
    assert_eq!(recognizer().capture(&vec![frame(0, 900, &[])]), expected);
    assert_eq!(recognizer().capture(&vec![frame(0, 900, &[1]), frame(1, 10, &[])]), expected);
    // A quality that is no score is found first.
    assert_eq!(
        recognizer().capture(&vec![frame(0, 2000, &[])]),
        Err(FaceRecognitionError::DlibError("quality score is above 1.0".to_string()))
    );
}
