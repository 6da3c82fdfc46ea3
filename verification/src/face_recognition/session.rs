//! Taking the frames of one capture, angle by angle.
//!
//! The frame source is asked for one frame at a time. A frame that does not
//! come in time is asked for again, up to a fixed number of times for each
//! angle; when that number is used up the capture stops with a frame that
//! timed out.

use vstd::prelude::*;
use crate::face_recognition::{Face, Frame};

verus! {

/// What the frame source gave when it was asked for one frame.
#[derive(Debug, Clone, PartialEq, Eq)]
pub enum Shot {
    /// A frame, and the faces found in it.
    Faces(Vec<Face>),
    /// No frame came in time.
    TimedOut,
}

/// A capture under way: the angles to take, how often an angle may be
/// asked for again, the angle that is being asked for, how often that one
/// has timed out, and the frames taken so far.
#[derive(Debug, Clone, PartialEq, Eq)]
pub struct CaptureSession {
    pub angles: Vec<i32>,
    pub max_retries: u32,
    pub at: usize,
    pub timeouts: u32,
    pub frames: Vec<Frame>,
}

/// A capture under way, as mathematical values.
pub struct SessionView {
    pub angles: Seq<i32>,
    pub max_retries: u32,
    pub at: nat,
    pub timeouts: u32,
    pub frames: Seq<Frame>,
}

impl View for CaptureSession {
    type V = SessionView;

    open spec fn view(&self) -> SessionView {
        SessionView {
            angles: self.angles@,
            max_retries: self.max_retries,
            at: self.at as nat,
            timeouts: self.timeouts,
            frames: self.frames@,
        }
    }
}

/// What a capture does next: it asks for a frame at an angle, or it is
/// done and hands over its frames.
#[derive(Debug, Clone, PartialEq, Eq)]
pub enum Turn {
    Ask(CaptureSession, i32),
    Done(Vec<Frame>),
}

/// A turn, as mathematical values.
pub enum TurnView {
    Ask(SessionView, i32),
    Done(Seq<Frame>),
}

impl View for Turn {
    type V = TurnView;

    open spec fn view(&self) -> TurnView {
        match self {
            Turn::Ask(session, angle) => TurnView::Ask(session@, *angle),
            Turn::Done(frames) => TurnView::Done(frames@),
        }
    }
}

/// Whether a capture under way is in order: it has as many frames as
/// angles behind it, each frame holds faces and was taken at its angle,
/// and the angle asked for has not timed out more often than it may.
pub open spec fn in_order(s: SessionView) -> bool {
    &&& s.at <= s.angles.len()
    &&& s.frames.len() == s.at
    &&& s.timeouts <= s.max_retries
    &&& forall|i: int|
        0 <= i < s.frames.len() ==> (#[trigger] s.frames[i] matches Frame::Detected { angle, .. }
            && angle == s.angles[i])
}

/// The turn of a capture that has taken the frames of the angles before
/// `s.at`: the next angle is asked for, or the capture is done.
pub open spec fn proceed(s: SessionView) -> TurnView {
    if s.at < s.angles.len() {
        TurnView::Ask(s, s.angles[s.at as int])
    } else {
        TurnView::Done(s.frames)
    }
}

/// How a capture begins: with its first angle, or done at once when there
/// is no angle to take.
pub open spec fn session_start(angles: Seq<i32>, max_retries: u32) -> TurnView {
    proceed(SessionView { angles, max_retries, at: 0, timeouts: 0, frames: Seq::empty() })
}

/// What a capture does when the frame source has answered.
///
/// A frame is kept and the next angle is asked for. A frame that did not
/// come in time is asked for again while the angle has retries left; when
/// it has none, the capture is done, and its last frame is one that timed
/// out.
pub open spec fn session_next(s: SessionView, shot: Shot) -> TurnView {
    if s.at >= s.angles.len() {
        TurnView::Done(s.frames)
    } else {
        let angle = s.angles[s.at as int];
        match shot {
            Shot::Faces(faces) => proceed(
                SessionView {
                    at: s.at + 1,
                    timeouts: 0,
                    frames: s.frames.push(Frame::Detected { angle, faces }),
                    ..s
                },
            ),
            Shot::TimedOut => if s.timeouts < s.max_retries {
                TurnView::Ask(SessionView { timeouts: (s.timeouts + 1) as u32, ..s }, angle)
            } else {
                TurnView::Done(s.frames.push(Frame::TimedOut { angle }))
            },
        }
    }
}

/// How many more times the frame source can be asked at most.
pub open spec fn asks_left(s: SessionView) -> int {
    (s.angles.len() - s.at) * (s.max_retries + 1) - s.timeouts
}

/// Whether the frames of a finished capture are in order: each was taken
/// at its angle; all but the last hold faces; and the last one timed out
/// unless there is a frame for every angle.
pub open spec fn frames_in_order(angles: Seq<i32>, frames: Seq<Frame>) -> bool {
    &&& frames.len() <= angles.len()
    &&& forall|i: int|
        0 <= i < frames.len() - 1 ==> (#[trigger] frames[i] matches Frame::Detected { angle, .. }
            && angle == angles[i])
    &&& frames.len() > 0 ==> match frames.last() {
        Frame::Detected { angle, .. } => angle == angles[frames.len() - 1] && frames.len()
            == angles.len(),
        Frame::TimedOut { angle } => angle == angles[frames.len() - 1],
    }
    &&& frames.len() == 0 ==> angles.len() == 0
}

/// A capture in order stays in order, and each answer of the frame source
/// brings it nearer to its end: the frame source is asked at most once and
/// once more for each retry, for each angle. When the capture is done its
/// frames are in order.
pub proof fn lemma_session_advances(s: SessionView, shot: Shot)
    requires
        in_order(s),
        s.at < s.angles.len(),
    ensures
        match session_next(s, shot) {
            TurnView::Ask(next, angle) => in_order(next) && next.at < next.angles.len() && angle
                == next.angles[next.at as int] && next.angles == s.angles && next.max_retries
                == s.max_retries && 0 < asks_left(next) < asks_left(s),
            TurnView::Done(frames) => frames_in_order(s.angles, frames),
        },
{
    let n = s.angles.len() as int;
    let at = s.at as int;
    let per = s.max_retries as int + 1;
    assert((n - at) * per == (n - (at + 1)) * per + per) by (nonlinear_arith);
    assert((n - (at + 1)) * per >= 0) by (nonlinear_arith)
        requires
            n - (at + 1) >= 0,
            per > 0,
    ;
    match shot {
        Shot::Faces(faces) => {
            let angle = s.angles[at];
            let frames = s.frames.push(Frame::Detected { angle, faces });
            assert forall|i: int| 0 <= i < frames.len() implies (#[trigger] frames[i] matches Frame::Detected {
                angle,
                ..
            } && angle == s.angles[i]) by {
                if i < s.frames.len() {
                    assert(frames[i] == s.frames[i]);
                }
            }
            if at + 1 < n {
                assert((n - (at + 1)) * per >= per) by (nonlinear_arith)
                    requires
                        n - (at + 1) >= 1,
                        per > 0,
                ;
            } else {
                assert(frames.last() == frames[frames.len() - 1]);
            }
        },
        Shot::TimedOut => {
            if s.timeouts >= s.max_retries {
                let frames = s.frames.push(Frame::TimedOut { angle: s.angles[at] });
                assert forall|i: int| 0 <= i < frames.len() - 1 implies (#[trigger] frames[i] matches Frame::Detected {
                    angle,
                    ..
                } && angle == s.angles[i]) by {
                    assert(frames[i] == s.frames[i]);
                }
            }
        },
    }
}

/// A capture that begins is in order, and when there is no angle to take
/// it is done at once without a frame.
pub proof fn lemma_session_begins(angles: Seq<i32>, max_retries: u32)
    ensures
        match session_start(angles, max_retries) {
            TurnView::Ask(s, angle) => in_order(s) && s.at == 0 && angles.len() > 0 && angle
                == angles[0] && s.angles == angles && s.max_retries == max_retries && asks_left(s)
                == angles.len() * (max_retries + 1),
            TurnView::Done(frames) => angles.len() == 0 && frames.len() == 0,
        },
{
}

impl CaptureSession {
    /// Begins a capture of the given angles, in which an angle that times
    /// out is asked for again up to `max_retries` times.
    pub fn begin(angles: Vec<i32>, max_retries: u32) -> (turn: Turn)
        ensures
            turn@ == session_start(angles@, max_retries),
    {
        let session = CaptureSession {
            angles,
            max_retries,
            at: 0,
            timeouts: 0,
            frames: Vec::new(),
        };
        session.proceed()
    }

    fn proceed(self) -> (turn: Turn)
        ensures
            turn@ == proceed(self@),
    {
        if self.at < self.angles.len() {
            let angle = self.angles[self.at];
            Turn::Ask(self, angle)
        } else {
            Turn::Done(self.frames)
        }
    }

    /// Takes what the frame source gave for the angle that was asked for,
    /// and says what comes next.
    pub fn take(self, shot: Shot) -> (turn: Turn)
        ensures
            turn@ == session_next(self@, shot),
    {
        let CaptureSession { angles, max_retries, at, timeouts, mut frames } = self;
        if at >= angles.len() {
            return Turn::Done(frames);
        }
        let angle = angles[at];
        match shot {
            Shot::Faces(faces) => {
                frames.push(Frame::Detected { angle, faces });
                let session = CaptureSession {
                    angles,
                    max_retries,
                    at: at + 1,
                    timeouts: 0,
                    frames,
                };
                session.proceed()
            },
            Shot::TimedOut => {
                if timeouts < max_retries {
                    Turn::Ask(
                        CaptureSession { angles, max_retries, at, timeouts: timeouts + 1, frames },
                        angle,
                    )
                } else {
                    frames.push(Frame::TimedOut { angle });
                    Turn::Done(frames)
                }
            },
        }
    }
}

} // verus!
