//! Where reading stands, as far as callers can observe it.
use vstd::prelude::*;

use crate::time::{Duration, MAX_NANOS};
use crate::timeline::FramePlacement;

verus! {

/// Specifies the precision mode used during stream seeking operations.
#[derive(Debug, Clone, Copy, PartialEq, Eq, Structural)]
pub enum SeekMode {
    /// Fast seek to a position near the target time where decoding can start.
    ///
    /// The decoder is flushed to prevent audio glitches, but no sample-level
    /// trimming is performed. The first frame usually starts slightly before the
    /// target; where the container cannot reach positions before the target, it
    /// starts slightly after it.
    Coarse,
    /// Sample-level accurate seek.
    ///
    /// Incurs decoding overhead to exactly align with the target time: the first
    /// delivered sample is the first sample at or after the target that the
    /// container can reach, and excess samples at the beginning of its frame are
    /// trimmed. Where the container cannot reach positions before the target (for
    /// example near the start of some Matroska files), delivery starts at the
    /// nearest reachable position after the target, and the frame's timestamp
    /// reports that position.
    Accurate,
}

impl Default for SeekMode {
    fn default() -> (m: SeekMode)
        ensures
            m == SeekMode::Coarse,
    {
        SeekMode::Coarse
    }
}

/// How reading resumes after the stream was scanned.
#[derive(Debug, Clone, Copy, PartialEq, Eq, Structural)]
pub enum Resume {
    /// Repeat this seek.
    Seek { target: Duration, mode: SeekMode },
    /// Continue with the frame that follows the one whose raw timestamp is `raw_pts`; that frame
    /// is expected to start around `next`.
    After { raw_pts: i64, next: Duration },
    /// Nothing is left to read.
    Exhausted,
}

/// What has happened to the stream so far. In every state but `Start`, `position` is the stream
/// position reported until the next frame is delivered.
#[derive(Debug, Clone, Copy, PartialEq, Eq, Structural)]
pub enum State {
    /// Nothing has been delivered since the stream was opened.
    Start,
    /// A coarse seek to `target` completed, and no frame with a timestamp has been delivered
    /// since.
    Coarse { target: Duration, position: Option<Duration> },
    /// A seek decoded `frame`, which waits to be delivered; `resume` repeats that seek.
    ///
    /// The frame's samples stay in the decoder, which must not decode anything else until the
    /// frame has been delivered.
    Pending { resume: Resume, frame: FramePlacement, position: Option<Duration> },
    /// Frames have been delivered. The last one has the raw timestamp `last_raw_pts`, and the
    /// next one starts at `next`.
    Reading { position: Option<Duration>, next: Duration, last_raw_pts: Option<i64> },
    /// The stream is exhausted.
    Exhausted { position: Option<Duration> },
}

/// The state after `frame` has been delivered in `state`.
pub open spec fn delivered(state: State, frame: FramePlacement) -> State {
    if frame.pts_spec() is Some && frame.end_spec() is Some {
        State::Reading {
            position: frame.pts_spec(),
            next: frame.end_spec()->0,
            last_raw_pts: frame.raw_pts_spec(),
        }
    } else {
        // Frames without a timestamp advance a known position by their duration.
        match state {
            State::Start => State::Reading {
                position: None,
                next: frame.duration_spec(),
                last_raw_pts: None,
            },
            State::Reading { next, .. } => State::Reading {
                position: None,
                next: next.saturating_add_spec(frame.duration_spec()),
                last_raw_pts: None,
            },
            State::Pending { resume: Resume::Seek { target, .. }, .. } => State::Reading {
                position: None,
                next: target.saturating_add_spec(frame.duration_spec()),
                last_raw_pts: None,
            },
            State::Pending { resume: Resume::After { next, .. }, .. } => State::Reading {
                position: None,
                next: next.saturating_add_spec(frame.duration_spec()),
                last_raw_pts: None,
            },
            State::Coarse { target, .. } => State::Coarse { target, position: None },
            _ => state,
        }
    }
}

/// The stream position reported in `state`.
pub open spec fn position_of(state: State) -> Option<Duration> {
    match state {
        State::Start => None,
        State::Coarse { position, .. } => position,
        State::Pending { position, .. } => position,
        State::Reading { position, .. } => position,
        State::Exhausted { position } => position,
    }
}

/// `state` with its reported stream position replaced by `position`; `Start` has none.
pub open spec fn with_position(state: State, position: Option<Duration>) -> State {
    match state {
        State::Start => State::Start,
        State::Coarse { target, .. } => State::Coarse { target, position },
        State::Pending { resume, frame, .. } => State::Pending { resume, frame, position },
        State::Reading { next, last_raw_pts, .. } => State::Reading {
            position,
            next,
            last_raw_pts,
        },
        State::Exhausted { .. } => State::Exhausted { position },
    }
}

/// How to put reading back where it stands in `state`.
pub open spec fn resume_of(state: State) -> Resume {
    match state {
        State::Start => Resume::Seek { target: Duration::zero_spec(), mode: SeekMode::Coarse },
        State::Coarse { target, .. } => Resume::Seek { target, mode: SeekMode::Coarse },
        State::Pending { resume, .. } => resume,
        State::Reading { next, last_raw_pts: Some(raw_pts), .. } => Resume::After { raw_pts, next },
        State::Reading { next, last_raw_pts: None, .. } => Resume::Seek {
            target: next,
            mode: SeekMode::Accurate,
        },
        State::Exhausted { .. } => Resume::Exhausted,
    }
}

/// After a frame with a timestamp is delivered, the stream position is that frame's time, and
/// resuming continues after it: with the frame that follows its raw timestamp, or, where it has
/// none, at the time right after it.
pub proof fn lemma_delivery_of_timed_frame(state: State, frame: FramePlacement)
    requires
        frame.pts_spec() is Some,
        frame.end_spec() is Some,
    ensures
        position_of(delivered(state, frame)) == frame.pts_spec(),
        resume_of(delivered(state, frame)) == match frame.raw_pts_spec() {
            Some(raw_pts) => Resume::After { raw_pts, next: frame.end_spec()->0 },
            None => Resume::Seek { target: frame.end_spec()->0, mode: SeekMode::Accurate },
        },
{
}

/// A frame without a timestamp leaves no stream position to report.
pub proof fn lemma_delivery_of_untimed_frame(state: State, frame: FramePlacement)
    requires
        frame.pts_spec() is None,
        !(state is Exhausted),
        !(state matches State::Pending { resume: Resume::Exhausted, .. }),
    ensures
        position_of(delivered(state, frame)) is None,
{
}

/// A frame without a timestamp moves the position reading resumes from by its duration: from
/// the start, from the end of the previous frame, or from where a pending frame's seek was
/// headed, to an accurate seek that much later (capped at the longest duration). After a coarse
/// seek, resuming still repeats that seek.
pub proof fn lemma_untimed_frame_advances_resume_point(state: State, frame: FramePlacement)
    requires
        frame.pts_spec() is None,
    ensures
        ({
            let d = frame.duration_spec()@;
            let later = |from: nat| if from + d > MAX_NANOS {
                MAX_NANOS as nat
            } else {
                from + d
            };
            let r = resume_of(delivered(state, frame));
            &&& state is Start ==> (r matches Resume::Seek { target, mode: SeekMode::Accurate }
                && target@ == d)
            &&& state matches State::Reading { next, .. } ==> (r matches Resume::Seek {
                target,
                mode: SeekMode::Accurate,
            } && target@ == later(next@))
            &&& state matches State::Pending { resume: Resume::Seek { target: from, .. }, .. } ==> (r matches Resume::Seek {
                target,
                mode: SeekMode::Accurate,
            } && target@ == later(from@))
            &&& state matches State::Pending { resume: Resume::After { next, .. }, .. } ==> (r matches Resume::Seek {
                target,
                mode: SeekMode::Accurate,
            } && target@ == later(next@))
            &&& state matches State::Coarse { target: from, .. } ==> r == (Resume::Seek {
                target: from,
                mode: SeekMode::Coarse,
            })
        }),
{
    let d = frame.duration_spec();
    match state {
        State::Reading { next, .. } => next.lemma_saturating_add(d),
        State::Pending { resume: Resume::Seek { target, .. }, .. } => target.lemma_saturating_add(d),
        State::Pending { resume: Resume::After { next, .. }, .. } => next.lemma_saturating_add(d),
        _ => {},
    }
}

/// Delivering the frame a seek left pending clears it.
pub proof fn lemma_delivering_pending_clears_it(resume: Resume, frame: FramePlacement)
    requires
        !(resume is Exhausted),
    ensures
        !(delivered(State::Pending { resume, frame, position: None }, frame) is Pending),
{
}

/// Exhaustion keeps reporting the last stream position, and leaves nothing to resume.
pub proof fn lemma_exhaustion_keeps_position(state: State)
    ensures
        position_of(State::Exhausted { position: position_of(state) }) == position_of(state),
        resume_of(State::Exhausted { position: position_of(state) }) == Resume::Exhausted,
{
}

/// Restoring a position makes it the reported one (once anything has happened to the stream),
/// and does not change how reading resumes.
pub proof fn lemma_restore_position(state: State, position: Option<Duration>)
    ensures
        !(state is Start) ==> position_of(with_position(state, position)) == position,
        resume_of(with_position(state, position)) == resume_of(state),
{
}

/// The stream is exhausted exactly when nothing is left to resume, in every state that a seek
/// can leave behind (no seek leaves a frame pending without a way to repeat it).
pub proof fn lemma_exhausted_iff_nothing_to_resume(state: State)
    requires
        !(state matches State::Pending { resume: Resume::Exhausted, .. }),
    ensures
        state is Exhausted <==> resume_of(state) is Exhausted,
{
}

/// Where reading stands, as far as callers can observe it.
///
/// The cursor records what happened to the stream (seeks, delivered frames, exhaustion) and
/// answers two questions: which stream position to report, and how to put reading back where it
/// was after the stream has been scanned.
#[derive(Debug, Clone, Copy, PartialEq, Eq, Structural)]
pub struct ReadCursor {
    state: State,
}

impl View for ReadCursor {
    type V = State;

    closed spec fn view(&self) -> State {
        self.state
    }
}

impl Default for ReadCursor {
    fn default() -> (c: ReadCursor)
        ensures
            c@ == State::Start,
    {
        ReadCursor { state: State::Start }
    }
}

impl ReadCursor {
    /// Cursors in the same state are the same cursor.
    pub proof fn lemma_view_injective(a: ReadCursor, b: ReadCursor)
        requires
            a@ == b@,
        ensures
            a == b,
    {
    }

    /// Records a completed coarse seek to `target`.
    pub fn record_coarse_seek(&mut self, target: Duration)
        ensures
            final(self)@ == (State::Coarse { target, position: None }),
    {
        self.state = State::Coarse { target, position: None };
    }

    /// Records a seek that decoded `frame`, which the decoder now holds; `resume` repeats the
    /// seek.
    pub fn record_pending(&mut self, resume: Resume, frame: FramePlacement)
        ensures
            final(self)@ == (State::Pending { resume, frame, position: None }),
    {
        self.state = State::Pending { resume, frame, position: None };
    }

    /// Records that `frame` has been delivered.
    pub fn record_delivery(&mut self, frame: FramePlacement)
        ensures
            final(self)@ == delivered(old(self)@, frame),
    {
        self.state = match (frame.pts(), frame.end()) {
            (Some(pts), Some(end)) => State::Reading {
                position: Some(pts),
                next: end,
                last_raw_pts: frame.raw_pts(),
            },
            // Frames without a timestamp advance a known position by their duration: the end of
            // the previous frame, or the position a pending frame's seek was headed for.
            _ => match self.state {
                State::Start => State::Reading {
                    position: None,
                    next: frame.duration(),
                    last_raw_pts: None,
                },
                State::Reading { next, .. } => State::Reading {
                    position: None,
                    next: next.saturating_add(frame.duration()),
                    last_raw_pts: None,
                },
                State::Pending { resume: Resume::Seek { target, .. }, .. } => State::Reading {
                    position: None,
                    next: target.saturating_add(frame.duration()),
                    last_raw_pts: None,
                },
                State::Pending { resume: Resume::After { next, .. }, .. } => State::Reading {
                    position: None,
                    next: next.saturating_add(frame.duration()),
                    last_raw_pts: None,
                },
                // Where the coarse seek landed is unknown, so there is no position to advance.
                // Resuming replays that seek, which delivers these frames once more.
                State::Coarse { target, .. } => State::Coarse { target, position: None },
                // Nothing is delivered once the stream is exhausted, and no seek leaves a frame
                // pending without a way to repeat it.
                state => state,
            },
        };
    }

    /// Records that the stream is exhausted.
    pub fn record_exhaustion(&mut self)
        ensures
            final(self)@ == (State::Exhausted { position: position_of(old(self)@) }),
    {
        self.state = State::Exhausted { position: self.stream_position() };
    }

    /// Keeps reporting `position` as the stream position until the next frame is delivered.
    ///
    /// A scan calls this after resuming as told by [`resume`](Self::resume), so that the scan
    /// stays invisible to the caller.
    pub fn restore_position(&mut self, position: Option<Duration>)
        ensures
            final(self)@ == with_position(old(self)@, position),
    {
        self.state = match self.state {
            State::Start => State::Start,
            State::Coarse { target, .. } => State::Coarse { target, position },
            State::Pending { resume, frame, .. } => State::Pending { resume, frame, position },
            State::Reading { next, last_raw_pts, .. } => State::Reading {
                position,
                next,
                last_raw_pts,
            },
            State::Exhausted { .. } => State::Exhausted { position },
        };
    }

    /// Returns the frame a seek left waiting to be delivered, if any.
    pub fn pending(&self) -> (r: Option<FramePlacement>)
        ensures
            r == match self@ {
                State::Pending { frame, .. } => Some(frame),
                _ => None,
            },
    {
        match self.state {
            State::Pending { frame, .. } => Some(frame),
            _ => None,
        }
    }

    /// Whether the stream is exhausted.
    pub fn is_exhausted(&self) -> (r: bool)
        ensures
            r == self@ is Exhausted,
    {
        match self.state {
            State::Exhausted { .. } => true,
            _ => false,
        }
    }

    /// Returns the timestamp of the most recently delivered frame; `None` before the first frame,
    /// after a seek, or when that frame has no timestamp.
    pub fn stream_position(&self) -> (r: Option<Duration>)
        ensures
            r == position_of(self@),
    {
        match self.state {
            State::Start => None,
            State::Coarse { position, .. } => position,
            State::Pending { position, .. } => position,
            State::Reading { position, .. } => position,
            State::Exhausted { position } => position,
        }
    }

    /// Returns how to put reading back where it stands now, once the stream has been scanned.
    pub fn resume(&self) -> (r: Resume)
        ensures
            r == resume_of(self@),
    {
        match self.state {
            State::Start => Resume::Seek { target: Duration::zero(), mode: SeekMode::Coarse },
            State::Coarse { target, .. } => Resume::Seek { target, mode: SeekMode::Coarse },
            State::Pending { resume, .. } => resume,
            // Continuing after the last frame reproduces the frames exactly, even where the
            // container's timestamps disagree with the sample counts.
            State::Reading { next, last_raw_pts: Some(raw_pts), .. } => Resume::After {
                raw_pts,
                next,
            },
            // Without a raw timestamp to find the last frame again, seek to where the next one
            // should start.
            State::Reading { next, last_raw_pts: None, .. } => Resume::Seek {
                target: next,
                mode: SeekMode::Accurate,
            },
            State::Exhausted { .. } => Resume::Exhausted,
        }
    }
}

} // verus!
