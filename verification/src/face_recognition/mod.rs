//! Face capture with its quality gate, template hashing, and matching of
//! live samples against a stored template.

use vstd::prelude::*;
use vstd::string::*;
use vstd::utf8::encode_utf8;
use crate::bytes::copy_of;
use crate::face_recognition::matching::{best_match, best_similarity, similarity};
use crate::hash::{
    hex_lower, lemma_hex_len, sha256, sha256_digest, to_hex, DIGEST_LEN, HASH_TEXT_LEN,
};
use crate::types::{
    FaceAngle, FaceData, FaceDataView, VerificationResult, DEFAULT_MATCH_THRESHOLD,
    DEFAULT_QUALITY_THRESHOLD, SCORE_ONE,
};

pub mod matching;
pub mod session;

verus! {

/// Why a capture or a match failed.
#[derive(Debug, Clone, PartialEq, Eq)]
pub enum FaceRecognitionError {
    /// The face detector itself failed, or gave a quality that is no
    /// score or an embedding that is empty.
    DlibError(String),
    /// A frame held no face.
    NoFaceDetected,
    /// A frame meant for one subject held several faces.
    MultipleFacesDetected,
    /// No sample of the capture cleared the quality threshold.
    LowQualityCapture,
    /// The frame source gave no frame in time.
    CaptureTimeout,
    /// No probe cleared the match threshold.
    BelowThreshold,
    /// Kept for a search over several candidates whose best scores are too
    /// close to tell apart.
    AmbiguousMatch,
    /// A store failed while a capture was in progress.
    StorageError(String),
}

/// A capture or match error, as mathematical values.
pub enum FaceRecognitionErrorView {
    DlibError(Seq<char>),
    NoFaceDetected,
    MultipleFacesDetected,
    LowQualityCapture,
    CaptureTimeout,
    BelowThreshold,
    AmbiguousMatch,
    StorageError(Seq<char>),
}

impl View for FaceRecognitionError {
    type V = FaceRecognitionErrorView;

    open spec fn view(&self) -> FaceRecognitionErrorView {
        match self {
            FaceRecognitionError::DlibError(m) => FaceRecognitionErrorView::DlibError(m@),
            FaceRecognitionError::NoFaceDetected => FaceRecognitionErrorView::NoFaceDetected,
            FaceRecognitionError::MultipleFacesDetected => {
                FaceRecognitionErrorView::MultipleFacesDetected
            },
            FaceRecognitionError::LowQualityCapture => FaceRecognitionErrorView::LowQualityCapture,
            FaceRecognitionError::CaptureTimeout => FaceRecognitionErrorView::CaptureTimeout,
            FaceRecognitionError::BelowThreshold => FaceRecognitionErrorView::BelowThreshold,
            FaceRecognitionError::AmbiguousMatch => FaceRecognitionErrorView::AmbiguousMatch,
            FaceRecognitionError::StorageError(m) => FaceRecognitionErrorView::StorageError(m@),
        }
    }
}

impl FaceRecognitionError {
    /// The error in words.
    pub open spec fn text(self) -> Seq<char> {
        match self {
            FaceRecognitionError::DlibError(m) => "Dlib error: "@ + m@,
            FaceRecognitionError::NoFaceDetected => "No face detected"@,
            FaceRecognitionError::MultipleFacesDetected => "Multiple faces detected"@,
            FaceRecognitionError::LowQualityCapture => "Low quality face data"@,
            FaceRecognitionError::CaptureTimeout => "Capture timed out"@,
            FaceRecognitionError::BelowThreshold => "Below match threshold"@,
            FaceRecognitionError::AmbiguousMatch => "Ambiguous match"@,
            FaceRecognitionError::StorageError(m) => "Storage error: "@ + m@,
        }
    }

    /// Writes the error in words.
    pub fn message(&self) -> (text: String)
        ensures
            text@ == self.text(),
    {
        match self {
            FaceRecognitionError::DlibError(m) => "Dlib error: ".to_owned().concat(m.as_str()),
            FaceRecognitionError::NoFaceDetected => "No face detected".to_owned(),
            FaceRecognitionError::MultipleFacesDetected => "Multiple faces detected".to_owned(),
            FaceRecognitionError::LowQualityCapture => "Low quality face data".to_owned(),
            FaceRecognitionError::CaptureTimeout => "Capture timed out".to_owned(),
            FaceRecognitionError::BelowThreshold => "Below match threshold".to_owned(),
            FaceRecognitionError::AmbiguousMatch => "Ambiguous match".to_owned(),
            FaceRecognitionError::StorageError(m) => "Storage error: ".to_owned().concat(
                m.as_str(),
            ),
        }
    }
}

/// One face that the detector found in a frame.
#[derive(Debug, Clone, PartialEq, Eq)]
pub struct Face {
    pub quality_score: u32,
    pub embedding: Vec<u8>,
}

/// What the frame source gave for one capture angle.
#[derive(Debug, Clone, PartialEq, Eq)]
pub enum Frame {
    /// A frame and the faces found in it.
    Detected { angle: i32, faces: Vec<Face> },
    /// No frame came in time.
    TimedOut { angle: i32 },
}

/// One accepted sample of a capture.
#[derive(Debug, Clone, PartialEq, Eq)]
pub struct FaceSample {
    pub angle: i32,
    pub quality_score: u32,
    pub embedding: Vec<u8>,
}

/// What a sample is, as mathematical values.
pub struct SampleView {
    pub angle: i32,
    pub quality_score: u32,
    pub embedding: Seq<u8>,
}

impl View for FaceSample {
    type V = SampleView;

    open spec fn view(&self) -> SampleView {
        SampleView { angle: self.angle, quality_score: self.quality_score, embedding: self.embedding@ }
    }
}

/// The samples of a sequence, each as mathematical values.
pub open spec fn sample_views(samples: Seq<FaceSample>) -> Seq<SampleView> {
    Seq::new(samples.len(), |i: int| samples[i]@)
}

/// A successful capture: the samples that cleared the quality gate, in the
/// order of their frames, and the position of the canonical one.
#[derive(Debug, Clone, PartialEq, Eq)]
pub struct Capture {
    pub samples: Vec<FaceSample>,
    pub canonical: usize,
}

/// The text of the error for a face whose quality is above 1.0.
pub open spec fn quality_out_of_range() -> Seq<char> {
    "quality score is above 1.0"@
}

/// The text of the error for a face without an embedding.
pub open spec fn empty_embedding() -> Seq<char> {
    "embedding is empty"@
}

/// The fault of a single frame, if it has one: it timed out, it holds no
/// face, it holds several, or its one face has a quality that is no score
/// or an embedding that is empty, which are the detector's faults.
pub open spec fn frame_fault(frame: Frame) -> Option<FaceRecognitionErrorView> {
    match frame {
        Frame::TimedOut { .. } => Some(FaceRecognitionErrorView::CaptureTimeout),
        Frame::Detected { faces, .. } => if faces@.len() == 0 {
            Some(FaceRecognitionErrorView::NoFaceDetected)
        } else if faces@.len() > 1 {
            Some(FaceRecognitionErrorView::MultipleFacesDetected)
        } else if faces@[0].quality_score > SCORE_ONE {
            Some(FaceRecognitionErrorView::DlibError(quality_out_of_range()))
        } else if faces@[0].embedding@.len() == 0 {
            Some(FaceRecognitionErrorView::DlibError(empty_embedding()))
        } else {
            None
        },
    }
}

/// The fault of the earliest faulty frame, if any frame is faulty.
pub open spec fn first_fault(frames: Seq<Frame>) -> Option<FaceRecognitionErrorView>
    decreases frames.len(),
{
    if frames.len() == 0 {
        None
    } else {
        match first_fault(frames.drop_last()) {
            Some(e) => Some(e),
            None => frame_fault(frames.last()),
        }
    }
}

/// The sample that a frame with exactly one face holds.
pub open spec fn sample_of(frame: Frame) -> SampleView {
    match frame {
        Frame::Detected { angle, faces } => SampleView {
            angle,
            quality_score: faces@[0].quality_score,
            embedding: faces@[0].embedding@,
        },
        Frame::TimedOut { angle } => SampleView { angle, quality_score: 0, embedding: Seq::empty() },
    }
}

/// The samples of `frames` whose quality is at least `threshold`, in order.
pub open spec fn gated(frames: Seq<Frame>, threshold: u32) -> Seq<SampleView>
    decreases frames.len(),
{
    if frames.len() == 0 {
        Seq::empty()
    } else {
        let earlier = gated(frames.drop_last(), threshold);
        let sample = sample_of(frames.last());
        if sample.quality_score >= threshold {
            earlier.push(sample)
        } else {
            earlier
        }
    }
}

/// Whether `at` is the position of the canonical sample: the earliest one
/// of the highest quality.
pub open spec fn is_canonical(samples: Seq<SampleView>, at: int) -> bool {
    &&& 0 <= at < samples.len()
    &&& forall|j: int| 0 <= j < samples.len() ==> samples[j].quality_score <= samples[at].quality_score
    &&& forall|j: int| 0 <= j < at ==> samples[j].quality_score < samples[at].quality_score
}

/// The position of the canonical sample.
pub open spec fn canonical_of(samples: Seq<SampleView>) -> int {
    choose|at: int| is_canonical(samples, at)
}

/// What a capture over `frames` gives: the fault of the earliest faulty
/// frame; else `LowQualityCapture` when no sample clears the threshold;
/// else the gated samples.
pub open spec fn capture_outcome(frames: Seq<Frame>, threshold: u32) -> Result<
    Seq<SampleView>,
    FaceRecognitionErrorView,
> {
    match first_fault(frames) {
        Some(e) => Err(e),
        None => if gated(frames, threshold).len() == 0 {
            Err(FaceRecognitionErrorView::LowQualityCapture)
        } else {
            Ok(gated(frames, threshold))
        },
    }
}

/// The angle and quality of each sample.
pub open spec fn angles_of(samples: Seq<SampleView>) -> Seq<FaceAngle> {
    Seq::new(
        samples.len(),
        |i: int| FaceAngle { angle: samples[i].angle, quality_score: samples[i].quality_score },
    )
}

/// The hash pointer of an embedding: its SHA-256 digest as lower-case
/// hexadecimal text.
pub open spec fn face_hash_of(embedding: Seq<u8>) -> Seq<char> {
    hex_lower(sha256_digest(embedding))
}

/// The template built from the gated samples of a capture, of which
/// `canonical` is the canonical one.
pub open spec fn template_of(
    samples: Seq<SampleView>,
    canonical: int,
    user_id: Seq<char>,
    now: i64,
) -> FaceDataView {
    FaceDataView {
        user_id,
        face_hash: face_hash_of(samples[canonical].embedding),
        face_data: samples[canonical].embedding,
        angles: angles_of(samples),
        created_at: now,
    }
}

/// The answer to a verification of `samples` against a stored embedding.
pub open spec fn verdict(
    reference: Seq<u8>,
    samples: Seq<SampleView>,
    match_threshold: u32,
    now: i64,
) -> VerificationResult {
    VerificationResult {
        is_verified: best_similarity(reference, samples) >= match_threshold,
        confidence_score: best_similarity(reference, samples) as u32,
        timestamp: now,
    }
}

/// Captures faces and matches them, with the two thresholds it judges by.
#[derive(Debug, Clone, Copy, PartialEq, Eq, Structural)]
pub struct FaceRecognition {
    pub quality_threshold: u32,
    pub match_threshold: u32,
}

impl FaceRecognition {
    /// A recognizer with the default thresholds.
    pub fn new() -> (result: Result<FaceRecognition, FaceRecognitionError>)
        ensures
            result == Ok::<FaceRecognition, FaceRecognitionError>(
                FaceRecognition {
                    quality_threshold: DEFAULT_QUALITY_THRESHOLD,
                    match_threshold: DEFAULT_MATCH_THRESHOLD,
                },
            ),
    {
        Ok(
            FaceRecognition {
                quality_threshold: DEFAULT_QUALITY_THRESHOLD,
                match_threshold: DEFAULT_MATCH_THRESHOLD,
            },
        )
    }

    /// Runs the quality gate over the frames of one capture.
    ///
    /// The earliest faulty frame decides the error; a face whose quality
    /// is above 1.0, or whose embedding is empty, makes its frame faulty. Without a faulty frame the
    /// capture holds every sample that clears the quality threshold, and
    /// fails with `LowQualityCapture` when there is none. Every quality in
    /// a capture is therefore a score, not above 1.0.
    pub fn capture(&self, frames: &Vec<Frame>) -> (result: Result<Capture, FaceRecognitionError>)
        ensures
            match capture_outcome(frames@, self.quality_threshold) {
                Ok(samples) => result matches Ok(capture) && sample_views(capture.samples@)
                    == samples && is_canonical(samples, capture.canonical as int),
                Err(e) => result matches Err(err) && err@ == e,
            },
    {
        let threshold = self.quality_threshold;
        let mut samples: Vec<FaceSample> = Vec::new();
        let mut canonical: usize = 0;
        let mut i: usize = 0;
        while i < frames.len()
            invariant
                i <= frames.len(),
                first_fault(frames@.take(i as int)) is None,
                sample_views(samples@) == gated(frames@.take(i as int), threshold),
                samples@.len() > 0 ==> is_canonical(sample_views(samples@), canonical as int),
                samples@.len() == 0 ==> canonical == 0,
            decreases frames.len() - i,
        {
            proof {
                assert(frames@.take(i + 1).drop_last() =~= frames@.take(i as int));
                assert(frames@.take(i + 1).last() == frames@[i as int]);
            }
            match &frames[i] {
                Frame::TimedOut { .. } => {
                    proof {
                        lemma_fault_in_prefix(frames@, i + 1);
                    }
                    return Err(FaceRecognitionError::CaptureTimeout);
                },
                Frame::Detected { angle, faces } => {
                    if faces.len() == 0 {
                        proof {
                            lemma_fault_in_prefix(frames@, i + 1);
                        }
                        return Err(FaceRecognitionError::NoFaceDetected);
                    }
                    if faces.len() > 1 {
                        proof {
                            lemma_fault_in_prefix(frames@, i + 1);
                        }
                        return Err(FaceRecognitionError::MultipleFacesDetected);
                    }
                    let face = &faces[0];
                    if face.quality_score > SCORE_ONE {
                        proof {
                            lemma_fault_in_prefix(frames@, i + 1);
                        }
                        return Err(
                            FaceRecognitionError::DlibError(
                                "quality score is above 1.0".to_owned(),
                            ),
                        );
                    }
                    if face.embedding.len() == 0 {
                        proof {
                            lemma_fault_in_prefix(frames@, i + 1);
                        }
                        return Err(FaceRecognitionError::DlibError("embedding is empty".to_owned()));
                    }
                    if face.quality_score >= threshold {
                        let ghost before = sample_views(samples@);
                        let sample = FaceSample {
                            angle: *angle,
                            quality_score: face.quality_score,
                            embedding: copy_of(face.embedding.as_slice()),
                        };
                        let ghost held = canonical as int;
                        if samples.len() > 0 && samples[canonical].quality_score
                            < face.quality_score {
                            canonical = samples.len();
                        }
                        samples.push(sample);
                        proof {
                            assert(sample_views(samples@) =~= before.push(sample@));
                            assert(sample@ == sample_of(frames@[i as int]));
                            lemma_canonical_after_push(before, sample@, held);
                        }
                    }
                },
            }
            i += 1;
        }
        proof {
            assert(frames@.take(frames@.len() as int) =~= frames@);
        }
        if samples.len() == 0 {
            return Err(FaceRecognitionError::LowQualityCapture);
        }
        Ok(Capture { samples, canonical })
    }

    /// Captures a face and builds the template of `user_id` from it: the
    /// embedding of the canonical sample, its hash pointer, and the angle
    /// and quality of every accepted sample.
    pub fn capture_face(&self, frames: &Vec<Frame>, user_id: &str, now: i64) -> (result: Result<
        FaceData,
        FaceRecognitionError,
    >)
        ensures
            match capture_outcome(frames@, self.quality_threshold) {
                Ok(samples) => result matches Ok(template) && template@ == template_of(
                    samples,
                    canonical_of(samples),
                    user_id@,
                    now,
                ) && encode_utf8(template.face_hash@).len() == HASH_TEXT_LEN,
                Err(e) => result matches Err(err) && err@ == e,
            },
            result matches Ok(template) ==> forall|i: int|
                0 <= i < template.angles@.len() ==> self.quality_threshold <= (
                #[trigger] template.angles@[i]).quality_score <= SCORE_ONE,
    {
        proof {
            if capture_outcome(frames@, self.quality_threshold) is Ok {
                lemma_template_holds_scores(frames@, self.quality_threshold, user_id@, now);
            }
        }
        let capture = match self.capture(frames) {
            Ok(capture) => capture,
            Err(e) => {
                return Err(e);
            },
        };
        let ghost samples = sample_views(capture.samples@);
        proof {
            lemma_canonical_unique(samples, capture.canonical as int, canonical_of(samples));
        }
        let mut angles: Vec<FaceAngle> = Vec::new();
        let mut i: usize = 0;
        while i < capture.samples.len()
            invariant
                i <= capture.samples.len(),
                samples == sample_views(capture.samples@),
                angles@ == angles_of(samples).take(i as int),
            decreases capture.samples.len() - i,
        {
            let sample = &capture.samples[i];
            angles.push(FaceAngle { angle: sample.angle, quality_score: sample.quality_score });
            i += 1;
            assert(angles@ =~= angles_of(samples).take(i as int));
        }
        assert(angles@ =~= angles_of(samples));
        let best = &capture.samples[capture.canonical];
        assert(best@ == samples[capture.canonical as int]);
        let face_data = copy_of(best.embedding.as_slice());
        let face_hash = match self.generate_face_hash(face_data.as_slice()) {
            Ok(hash) => hash,
            Err(e) => {
                return Err(e);
            },
        };
        Ok(FaceData { user_id: user_id.to_owned(), face_hash, face_data, angles, created_at: now })
    }

    /// Captures a live face and scores it against a stored template. The
    /// answer is verified exactly when the best score reaches the match
    /// threshold.
    pub fn verify_face(&self, stored_data: &FaceData, frames: &Vec<Frame>, now: i64) -> (result:
        Result<VerificationResult, FaceRecognitionError>)
        ensures
            match capture_outcome(frames@, self.quality_threshold) {
                Ok(samples) => result == Ok::<VerificationResult, FaceRecognitionError>(
                    verdict(stored_data.face_data@, samples, self.match_threshold, now),
                ),
                Err(e) => result matches Err(err) && err@ == e,
            },
    {
        self.verify_embedding(stored_data.face_data.as_slice(), frames, now)
    }

    /// Captures a live face and scores it against a stored embedding.
    pub fn verify_embedding(&self, embedding: &[u8], frames: &Vec<Frame>, now: i64) -> (result:
        Result<VerificationResult, FaceRecognitionError>)
        ensures
            match capture_outcome(frames@, self.quality_threshold) {
                Ok(samples) => result == Ok::<VerificationResult, FaceRecognitionError>(
                    verdict(embedding@, samples, self.match_threshold, now),
                ),
                Err(e) => result matches Err(err) && err@ == e,
            },
    {
        let capture = match self.capture(frames) {
            Ok(capture) => capture,
            Err(e) => {
                return Err(e);
            },
        };
        let score = best_match(embedding, &capture.samples);
        Ok(
            VerificationResult {
                is_verified: score >= self.match_threshold,
                confidence_score: score,
                timestamp: now,
            },
        )
    }

    /// Scores the probes against a stored template and insists on a match:
    /// the best score when it reaches the match threshold, `BelowThreshold`
    /// when it does not.
    pub fn match_faces(&self, reference: &FaceData, probes: &Vec<FaceSample>) -> (result: Result<
        u32,
        FaceRecognitionError,
    >)
        ensures
            match result {
                Ok(score) => score == best_similarity(
                    reference.face_data@,
                    sample_views(probes@),
                ) && score >= self.match_threshold,
                Err(e) => e == FaceRecognitionError::BelowThreshold && best_similarity(
                    reference.face_data@,
                    sample_views(probes@),
                ) < self.match_threshold,
            },
    {
        let score = best_match(reference.face_data.as_slice(), probes);
        if score >= self.match_threshold {
            Ok(score)
        } else {
            Err(FaceRecognitionError::BelowThreshold)
        }
    }

    /// Scores how similar a stored embedding and a live one are. It never
    /// fails.
    pub fn compare_faces(&self, stored_face: &[u8], current_face: &[u8]) -> (result: Result<
        u32,
        FaceRecognitionError,
    >)
        ensures
            result matches Ok(score) && score == similarity(stored_face@, current_face@) && score
                <= SCORE_ONE,
    {
        Ok(matching::compare_faces(stored_face, current_face))
    }

    /// The hash pointer of an embedding: the lower-case hexadecimal text of
    /// its SHA-256 digest. It never fails.
    pub fn generate_face_hash(&self, face_data: &[u8]) -> (result: Result<
        String,
        FaceRecognitionError,
    >)
        ensures
            result matches Ok(hash) && hash@ == face_hash_of(face_data@) && encode_utf8(hash@).len()
                == HASH_TEXT_LEN,
    {
        let digest = sha256(face_data);
        proof {
            lemma_face_hash_len(face_data@);
        }
        Ok(to_hex(digest.as_slice()))
    }
}

/// When no sample of the frames reaches the threshold, no sample is
/// accepted.
pub proof fn lemma_gate_holds_back(frames: Seq<Frame>, threshold: u32)
    requires
        forall|i: int| 0 <= i < frames.len() ==> sample_of(#[trigger] frames[i]).quality_score < threshold,
    ensures
        gated(frames, threshold).len() == 0,
    decreases frames.len(),
{
    if frames.len() > 0 {
        let earlier = frames.drop_last();
        assert forall|i: int| 0 <= i < earlier.len() implies sample_of(
            #[trigger] earlier[i],
        ).quality_score < threshold by {
            assert(earlier[i] == frames[i]);
        }
        lemma_gate_holds_back(earlier, threshold);
        assert(frames.last() == frames[frames.len() - 1]);
    }
}

/// A capture without a faulty frame in which every sample scores below
/// the quality threshold fails with `LowQualityCapture`.
pub proof fn lemma_low_quality_capture_fails(frames: Seq<Frame>, threshold: u32)
    requires
        first_fault(frames) is None,
        forall|i: int| 0 <= i < frames.len() ==> sample_of(#[trigger] frames[i]).quality_score < threshold,
    ensures
        capture_outcome(frames, threshold) == Err::<Seq<SampleView>, FaceRecognitionErrorView>(
            FaceRecognitionErrorView::LowQualityCapture,
        ),
{
    lemma_gate_holds_back(frames, threshold);
}

/// Every accepted sample has at least the quality that the threshold
/// asks, and no more samples are accepted than there are frames. In a
/// capture without a faulty frame every accepted quality is a score, not
/// above 1.0, and every accepted embedding holds something.
pub proof fn lemma_gated_samples_clear(frames: Seq<Frame>, threshold: u32)
    ensures
        gated(frames, threshold).len() <= frames.len(),
        forall|i: int|
            0 <= i < gated(frames, threshold).len() ==> (#[trigger] gated(
                frames,
                threshold,
            )[i]).quality_score >= threshold,
        first_fault(frames) is None ==> forall|i: int|
            0 <= i < gated(frames, threshold).len() ==> (#[trigger] gated(
                frames,
                threshold,
            )[i]).quality_score <= SCORE_ONE && gated(frames, threshold)[i].embedding.len() > 0,
    decreases frames.len(),
{
    if frames.len() > 0 {
        lemma_gated_samples_clear(frames.drop_last(), threshold);
    }
}

/// The template of a capture that succeeds holds scores only: the quality
/// of each of its angles is at least the quality threshold and not above
/// 1.0, and the embedding is that of a sample of the highest quality and
/// is not empty.
pub proof fn lemma_template_holds_scores(
    frames: Seq<Frame>,
    threshold: u32,
    user_id: Seq<char>,
    now: i64,
)
    requires
        capture_outcome(frames, threshold) is Ok,
    ensures
        ({
            let samples = capture_outcome(frames, threshold)->Ok_0;
            let template = template_of(samples, canonical_of(samples), user_id, now);
            &&& template.angles.len() == samples.len()
            &&& forall|i: int|
                0 <= i < template.angles.len() ==> threshold <= (
                #[trigger] template.angles[i]).quality_score <= SCORE_ONE
            &&& is_canonical(samples, canonical_of(samples))
            &&& template.face_data == samples[canonical_of(samples)].embedding
            &&& template.face_data.len() > 0
            &&& template.face_hash == face_hash_of(template.face_data)
        }),
{
    lemma_gated_samples_clear(frames, threshold);
    let samples = gated(frames, threshold);
    lemma_canonical_exists(samples);
}

/// A capture with a sample has a canonical sample.
pub proof fn lemma_canonical_exists(samples: Seq<SampleView>)
    requires
        samples.len() > 0,
    ensures
        is_canonical(samples, canonical_of(samples)),
    decreases samples.len(),
{
    let earlier = samples.drop_last();
    if earlier.len() == 0 {
        lemma_canonical_after_push(earlier, samples.last(), 0);
        assert(earlier.push(samples.last()) =~= samples);
        lemma_canonical_unique(samples, 0, 0);
    } else {
        lemma_canonical_exists(earlier);
        let held = canonical_of(earlier);
        lemma_canonical_after_push(earlier, samples.last(), held);
        assert(earlier.push(samples.last()) =~= samples);
        let at = if earlier[held].quality_score < samples.last().quality_score {
            earlier.len() as int
        } else {
            held
        };
        lemma_canonical_unique(samples, at, at);
    }
}

/// The hash pointer of an embedding whose digest has the length of a
/// SHA-256 digest is 64 characters long, and as many bytes.
pub proof fn lemma_face_hash_len(embedding: Seq<u8>)
    requires
        sha256_digest(embedding).len() == DIGEST_LEN,
    ensures
        face_hash_of(embedding).len() == HASH_TEXT_LEN,
        encode_utf8(face_hash_of(embedding)).len() == HASH_TEXT_LEN,
{
    lemma_hex_len(sha256_digest(embedding));
}

/// The canonical sample of a capture that grows by one sample: the new
/// sample when it is better than the one that was canonical, and else the
/// one that was.
pub proof fn lemma_canonical_after_push(before: Seq<SampleView>, sample: SampleView, held: int)
    requires
        before.len() > 0 ==> is_canonical(before, held),
        before.len() == 0 ==> held == 0,
    ensures
        is_canonical(
            before.push(sample),
            if before.len() > 0 && before[held].quality_score < sample.quality_score {
                before.len() as int
            } else {
                held
            },
        ),
{
    let after = before.push(sample);
    assert forall|j: int| 0 <= j < before.len() implies after[j] == before[j] by {}
}

/// A capture has one canonical sample only.
pub proof fn lemma_canonical_unique(samples: Seq<SampleView>, a: int, b: int)
    requires
        is_canonical(samples, a),
    ensures
        is_canonical(samples, b) ==> a == b,
        is_canonical(samples, canonical_of(samples)),
        canonical_of(samples) == a,
{
    let c = canonical_of(samples);
    if c < a {
        assert(samples[c].quality_score < samples[a].quality_score);
    }
    if a < c {
        assert(samples[a].quality_score < samples[c].quality_score);
    }
}

/// A fault in a prefix of the frames is the fault of the whole capture.
pub proof fn lemma_fault_in_prefix(frames: Seq<Frame>, n: int)
    requires
        0 <= n <= frames.len(),
        first_fault(frames.take(n)) is Some,
    ensures
        first_fault(frames) == first_fault(frames.take(n)),
    decreases frames.len() - n,
{
    if n < frames.len() {
        assert(frames.take(n + 1).drop_last() =~= frames.take(n));
        lemma_fault_in_prefix(frames, n + 1);
    } else {
        assert(frames.take(n) =~= frames);
    }
}

} // verus!
