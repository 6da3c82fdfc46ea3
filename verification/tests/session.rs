use dilok_did::face_recognition::session::{CaptureSession, Shot, Turn};
use dilok_did::face_recognition::{Face, FaceRecognition, FaceRecognitionError, Frame};

fn faces(quality: u32) -> Vec<Face> {
    vec![Face { quality_score: quality, embedding: vec![1, 2, 3] }]
}

fn ask(turn: Turn) -> (CaptureSession, i32) {
    match turn {
        Turn::Ask(session, angle) => (session, angle),
        Turn::Done(_) => panic!("the capture is done"),
    }
}

#[test]
fn capture_without_angles_is_done_at_once() {
    assert_eq!(CaptureSession::begin(Vec::new(), 3), Turn::Done(Vec::new()));
}

#[test]
fn angles_are_asked_for_in_order() {
    let (session, angle) = ask(CaptureSession::begin(vec![-15000, 0, 15000], 2));
    assert_eq!(angle, -15000);
    let (session, angle) = ask(session.take(Shot::Faces(faces(900))));
    assert_eq!(angle, 0);
    let (session, angle) = ask(session.take(Shot::Faces(faces(910))));
    assert_eq!(angle, 15000);
    assert_eq!(
        session.take(Shot::Faces(faces(920))),
        Turn::Done(vec![
            Frame::Detected { angle: -15000, faces: faces(900) },
            Frame::Detected { angle: 0, faces: faces(910) },
            Frame::Detected { angle: 15000, faces: faces(920) },
        ])
    );
}

#[test]
fn angle_that_timed_out_is_asked_for_again() {
    let (session, _) = ask(CaptureSession::begin(vec![0, 15000], 2));
    let (session, angle) = ask(session.take(Shot::TimedOut));
    assert_eq!(angle, 0);
    assert_eq!(session.timeouts, 1);
    let (session, angle) = ask(session.take(Shot::TimedOut));
    assert_eq!(angle, 0);
    let (session, angle) = ask(session.take(Shot::Faces(faces(900))));
    assert_eq!(angle, 15000);
    // The next angle has all its retries again.
    assert_eq!(session.timeouts, 0);
    let (session, _) = ask(session.take(Shot::TimedOut));
    let (session, _) = ask(session.take(Shot::TimedOut));
    let done = session.take(Shot::TimedOut);
    assert_eq!(
        done,
        Turn::Done(vec![
            Frame::Detected { angle: 0, faces: faces(900) },
            Frame::TimedOut { angle: 15000 },
        ])
    );
}

#[test]
fn retries_are_bounded() {
    for max_retries in 0..4u32 {
        let mut turn = CaptureSession::begin(vec![0, 1, 2], max_retries);
        let mut asked: u32 = 0;
        let frames = loop {
            match turn {
                Turn::Done(frames) => break frames,
                Turn::Ask(session, angle) => {
                    assert_eq!(angle, 0);
                    asked += 1;
                    turn = session.take(Shot::TimedOut);
                }
            }
        };
        assert_eq!(asked, max_retries + 1);
        assert_eq!(frames, vec![Frame::TimedOut { angle: 0 }]);
        assert_eq!(
            FaceRecognition::new().unwrap().capture(&frames),
            Err(FaceRecognitionError::CaptureTimeout)
        );
    }
}

#[test]
fn answer_to_a_finished_capture_changes_nothing() {
    let session = CaptureSession {
        angles: vec![0],
        max_retries: 1,
        at: 1,
        timeouts: 0,
        frames: vec![Frame::Detected { angle: 0, faces: faces(900) }],
    };
    assert_eq!(
        session.take(Shot::TimedOut),
        Turn::Done(vec![Frame::Detected { angle: 0, faces: faces(900) }])
    );
}
