//! The decisions of the decode engine: what to do with each answer of the demuxer and the
//! decoder, and what reading looks like to callers.
//!
//! The engine itself performs no input or output. Whoever drives it talks to the demuxer and the
//! decoder, reports what they answered, and carries out the action the engine returns.
use vstd::prelude::*;

use crate::cursor::{delivered, position_of, resume_of, with_position, ReadCursor, Resume, SeekMode, State};
use crate::error::AudioError;
use crate::time::{Duration, MAX_NANOS, U64_MAX_NANOS};
use crate::timeline::{opt_nanos, AV_NOPTS_VALUE, FramePlacement, FrameTiming, PlacementView, Rational, Timeline};

verus! {

/// Specifies the strategy used to scan an audio stream to determine its exact duration.
#[derive(Debug, Clone, Copy, PartialEq, Eq, Structural)]
pub enum ScanMode {
    /// Rapidly scans the stream by reading demuxer packet timestamps without decoding them.
    ///
    /// This mode is extremely fast and relies entirely on the container's metadata.
    /// However, it may fail or return inaccurate results for raw formats or highly
    /// corrupted streams that lack valid timestamp information.
    Packet,
    /// Fully decodes the stream into raw physical audio frames to calculate the duration.
    ///
    /// This mode is the most accurate fallback method, as it calculates time based purely
    /// on the actual number of generated audio samples and the stream's sample rate.
    /// Because it requires full decompression, it consumes significantly more CPU
    /// and takes much longer to complete.
    Frame,
}

/// What the decoder (or, for `EndOfInput`, the demuxer) answered.
#[derive(Debug, Clone, Copy, PartialEq, Eq, Structural)]
pub enum DecodeEvent {
    /// The decoder holds a decoded frame with this timing.
    Frame(FrameTiming),
    /// The decoder needs another packet before it can deliver a frame.
    NeedsInput,
    /// The demuxer has no packet left.
    EndOfInput,
    /// The decoder has delivered everything it will ever deliver.
    Drained,
}

/// What to do next while decoding.
#[derive(Debug, Clone, Copy, PartialEq, Eq, Structural)]
pub enum DecodeAction {
    /// Ask the decoder for its next frame, dropping the one it holds.
    ReceiveFrame,
    /// Read the next packet; send it to the decoder and ask for a frame, or, where the demuxer
    /// has none left, report `EndOfInput`.
    ReadPacket,
    /// Tell the decoder that the input has ended, then ask it for a frame.
    SendEndOfInput,
    /// The frame the decoder holds lands here on the public timeline.
    Found(FramePlacement),
    /// The stream is exhausted.
    Exhausted,
}

/// How a request for the next frame starts.
#[derive(Debug, Clone, Copy, PartialEq, Eq, Structural)]
pub enum Receive {
    /// Nothing is left to deliver.
    Finished,
    /// Deliver the frame the decoder holds, which lands here; it has been recorded as delivered.
    Deliver(FramePlacement),
    /// Decode (see [`DecodeEngine::decode_step`]) with nothing to trim, then deliver what is
    /// found through [`DecodeEngine::deliver`].
    Decode,
}

/// How a seek continues once the demuxer has been moved and the decoder flushed.
#[derive(Debug, Clone, Copy, PartialEq, Eq, Structural)]
pub enum SeekStep {
    /// The seek is complete.
    Done,
    /// Decode with samples before the target trimmed, and hand what is found to
    /// [`DecodeEngine::finish_accurate_seek`].
    Align,
}

/// The decision state of a decode engine: the stream's timeline, where reading stands, and
/// whether the decoder has been told that the input ended.
pub struct DecodeEngine {
    /// Maps the stream's raw timestamps onto the public timeline.
    timeline: Timeline,
    /// Where reading stands.
    cursor: ReadCursor,
    /// The decoder has been told that no more packets will come.
    draining: bool,
}

impl DecodeEngine {
    /// The stream's timeline.
    pub closed spec fn timeline_spec(self) -> Timeline {
        self.timeline
    }

    /// Where reading stands.
    pub closed spec fn cursor_spec(self) -> ReadCursor {
        self.cursor
    }

    /// Whether the decoder has been told that no more packets will come.
    pub closed spec fn draining_spec(self) -> bool {
        self.draining
    }

    /// Constructs the engine of a stream with the given time base and declared start time, as
    /// the demuxer reports them.
    ///
    /// Fails when the time base is not a positive fraction.
    pub fn new(time_base: Rational, start_time: i64) -> (r: Result<DecodeEngine, AudioError>)
        ensures
            r is Err <==> time_base.num <= 0 || time_base.den <= 0,
            r matches Err(e) ==> e is InvalidParameter,
            r matches Ok(engine) ==> {
                &&& engine.timeline_spec().num() == time_base.num
                &&& engine.timeline_spec().den() == time_base.den
                &&& engine.timeline_spec().origin() == if start_time == crate::timeline::AV_NOPTS_VALUE
                    || start_time < 0 {
                    0
                } else {
                    start_time as int
                }
                &&& engine.cursor_spec()@ == State::Start
                &&& !engine.draining_spec()
            },
    {
        let timeline = Timeline::new(time_base, start_time)?;
        Ok(DecodeEngine { timeline, cursor: ReadCursor::default(), draining: false })
    }

    /// The stream's timeline.
    pub fn timeline(&self) -> (r: Timeline)
        ensures
            r == self.timeline_spec(),
    {
        self.timeline
    }

    /// Where reading stands.
    pub fn cursor(&self) -> (r: ReadCursor)
        ensures
            r == self.cursor_spec(),
    {
        self.cursor
    }

    /// Starts delivering the next frame.
    ///
    /// Nothing is delivered once the stream is exhausted; a frame that a seek left pending is
    /// delivered first; otherwise the next frame has to be decoded.
    pub fn receive_frame(&mut self) -> (r: Receive)
        ensures
            final(self).timeline_spec() == old(self).timeline_spec(),
            final(self).draining_spec() == old(self).draining_spec(),
            old(self).cursor_spec()@ is Exhausted ==> {
                &&& r == Receive::Finished
                &&& final(self).cursor_spec() == old(self).cursor_spec()
            },
            old(self).cursor_spec()@ matches State::Pending { frame, .. } ==> {
                &&& r == Receive::Deliver(frame)
                &&& final(self).cursor_spec()@ == delivered(old(self).cursor_spec()@, frame)
            },
            !(old(self).cursor_spec()@ is Exhausted) && !(old(self).cursor_spec()@ is Pending) ==> {
                &&& r == Receive::Decode
                &&& final(self).cursor_spec() == old(self).cursor_spec()
            },
    {
        if self.cursor.is_exhausted() {
            return Receive::Finished;
        }
        match self.cursor.pending() {
            Some(frame) => {
                self.cursor.record_delivery(frame);
                Receive::Deliver(frame)
            },
            None => Receive::Decode,
        }
    }

    /// Records that `frame`, found by decoding, has been delivered.
    pub fn deliver(&mut self, frame: FramePlacement)
        ensures
            final(self).timeline_spec() == old(self).timeline_spec(),
            final(self).draining_spec() == old(self).draining_spec(),
            final(self).cursor_spec()@ == delivered(old(self).cursor_spec()@, frame),
    {
        self.cursor.record_delivery(frame);
    }

    /// Decides what to do with the answer `event` while decoding until the decoder holds a
    /// frame with samples at or after `not_before`.
    ///
    /// Frames lying entirely before `not_before` are dropped. The stream is exhausted when the
    /// decoder has delivered everything, or when the demuxer runs out of packets a second time
    /// after the decoder was told that the input ended.
    pub fn decode_step(&mut self, not_before: Duration, event: DecodeEvent) -> (a: DecodeAction)
        ensures
            final(self).timeline_spec() == old(self).timeline_spec(),
            match event {
                DecodeEvent::Frame(timing) => {
                    &&& final(self).cursor_spec() == old(self).cursor_spec()
                    &&& final(self).draining_spec() == old(self).draining_spec()
                    &&& match old(self).timeline_spec().placement(timing, not_before@ as int) {
                        Some(v) => a matches DecodeAction::Found(p) && p@ == v,
                        None => a == DecodeAction::ReceiveFrame,
                    }
                },
                DecodeEvent::NeedsInput => {
                    &&& a == DecodeAction::ReadPacket
                    &&& final(self).cursor_spec() == old(self).cursor_spec()
                    &&& final(self).draining_spec() == old(self).draining_spec()
                },
                DecodeEvent::EndOfInput => if old(self).draining_spec() {
                    &&& a == DecodeAction::Exhausted
                    &&& final(self).cursor_spec()@ == (State::Exhausted {
                        position: position_of(old(self).cursor_spec()@),
                    })
                    &&& final(self).draining_spec()
                } else {
                    &&& a == DecodeAction::SendEndOfInput
                    &&& final(self).cursor_spec() == old(self).cursor_spec()
                    &&& final(self).draining_spec()
                },
                DecodeEvent::Drained => {
                    &&& a == DecodeAction::Exhausted
                    &&& final(self).cursor_spec()@ == (State::Exhausted {
                        position: position_of(old(self).cursor_spec()@),
                    })
                    &&& final(self).draining_spec() == old(self).draining_spec()
                },
            },
    {
        match event {
            DecodeEvent::Frame(timing) => match self.timeline.place(timing, not_before) {
                Some(placement) => DecodeAction::Found(placement),
                None => DecodeAction::ReceiveFrame,
            },
            DecodeEvent::NeedsInput => DecodeAction::ReadPacket,
            DecodeEvent::EndOfInput => {
                if self.draining {
                    self.cursor.record_exhaustion();
                    DecodeAction::Exhausted
                } else {
                    self.draining = true;
                    DecodeAction::SendEndOfInput
                }
            },
            DecodeEvent::Drained => {
                self.cursor.record_exhaustion();
                DecodeAction::Exhausted
            },
        }
    }

    /// Returns the raw timestamp to move the demuxer to so that decoding starts at or before
    /// `target` on the public timeline.
    pub fn seek_pts(&self, target: Duration) -> (r: i64)
        ensures
            r == crate::timeline::saturate_i64_spec(
                self.timeline_spec().origin() + self.timeline_spec().seek_ticks(target@ as int),
            ),
    {
        self.timeline.seek_pts(target)
    }

    /// Records a seek to `target` once the demuxer has been moved (to
    /// [`seek_pts`](Self::seek_pts) of the target) and the decoder flushed, and tells how the
    /// seek continues.
    pub fn seek(&mut self, target: Duration, mode: SeekMode) -> (s: SeekStep)
        ensures
            final(self).timeline_spec() == old(self).timeline_spec(),
            final(self).cursor_spec()@ == (State::Coarse { target, position: None }),
            !final(self).draining_spec(),
            s == if mode == SeekMode::Accurate {
                SeekStep::Align
            } else {
                SeekStep::Done
            },
    {
        self.draining = false;
        self.cursor.record_coarse_seek(target);
        match mode {
            SeekMode::Accurate => SeekStep::Align,
            SeekMode::Coarse => SeekStep::Done,
        }
    }

    /// Completes an accurate seek to `target`, given the frame that decoding found (or `None`
    /// where the stream was exhausted first).
    ///
    /// The frame waits to be delivered, and resuming repeats the accurate seek. A frame without
    /// a timestamp cannot be aligned, which fails the seek.
    pub fn finish_accurate_seek(&mut self, target: Duration, found: Option<FramePlacement>) -> (r:
        Result<(), AudioError>)
        ensures
            final(self).timeline_spec() == old(self).timeline_spec(),
            final(self).draining_spec() == old(self).draining_spec(),
            found is None ==> r is Ok && final(self).cursor_spec() == old(self).cursor_spec(),
            found matches Some(p) ==> {
                &&& p.pts_spec() is None ==> {
                    &&& r matches Err(AudioError::InvalidData(m)) && m@
                        == "Cannot perform accurate seek on a stream lacking valid timestamps."@
                    &&& final(self).cursor_spec() == old(self).cursor_spec()
                }
                &&& p.pts_spec() is Some ==> {
                    &&& r is Ok
                    &&& final(self).cursor_spec()@ == (State::Pending {
                        resume: Resume::Seek { target, mode: SeekMode::Accurate },
                        frame: p,
                        position: None,
                    })
                }
            },
    {
        match found {
            None => Ok(()),
            Some(placement) => {
                if placement.pts().is_none() {
                    return Err(
                        AudioError::InvalidData(
                            "Cannot perform accurate seek on a stream lacking valid timestamps.".to_owned(),
                        ),
                    );
                }
                self.cursor.record_pending(
                    Resume::Seek { target, mode: SeekMode::Accurate },
                    placement,
                );
                Ok(())
            },
        }
    }

    /// While resuming after the frame whose raw timestamp is `raw_pts` (expected to be followed
    /// by a frame starting around `next`), decides whether `found` is the frame that follows.
    ///
    /// It is when it has no raw timestamp or a later one; it then waits to be delivered, and
    /// resuming repeats this. Otherwise decoding goes on.
    pub fn accept_after(&mut self, raw_pts: i64, next: Duration, found: FramePlacement) -> (r: bool)
        ensures
            final(self).timeline_spec() == old(self).timeline_spec(),
            final(self).draining_spec() == old(self).draining_spec(),
            r == match found.raw_pts_spec() {
                None => true,
                Some(pts) => pts > raw_pts,
            },
            r ==> final(self).cursor_spec()@ == (State::Pending {
                resume: Resume::After { raw_pts, next },
                frame: found,
                position: None,
            }),
            !r ==> final(self).cursor_spec() == old(self).cursor_spec(),
    {
        let follows = match found.raw_pts() {
            None => true,
            Some(pts) => pts > raw_pts,
        };
        if follows {
            self.cursor.record_pending(Resume::After { raw_pts, next }, found);
        }
        follows
    }

    /// Puts the reported position (and, for an exhausted stream, the whole reading state) back
    /// to `saved` once reading has been resumed as `saved.resume()` tells.
    pub fn finish_restore(&mut self, saved: ReadCursor)
        ensures
            final(self).timeline_spec() == old(self).timeline_spec(),
            final(self).draining_spec() == old(self).draining_spec(),
            resume_of(saved@) is Exhausted ==> final(self).cursor_spec()@ == saved@,
            !(resume_of(saved@) is Exhausted) ==> final(self).cursor_spec()@ == with_position(
                old(self).cursor_spec()@,
                position_of(saved@),
            ),
    {
        if let Resume::Exhausted = saved.resume() {
            self.cursor = saved;
        }
        self.cursor.restore_position(saved.stream_position());
    }

    /// Returns the duration declared by the container, a quick estimate of the exact duration,
    /// from the stream's own duration (in raw ticks) and the container's (in microseconds) as
    /// the demuxer reports them.
    pub fn declared_duration(&self, stream_duration: i64, container_duration_us: i64) -> (r:
        Option<Duration>)
        ensures
            opt_nanos(r) == self.timeline_spec().declared_nanos(
                stream_duration,
                container_duration_us,
            ),
    {
        self.timeline.declared_duration(stream_duration, container_duration_us)
    }

    /// Returns the presentation timestamp of the most recently delivered audio frame; `None` if
    /// no frame has been delivered yet, or right after a seek.
    pub fn stream_position(&self) -> (r: Option<Duration>)
        ensures
            r == position_of(self.cursor_spec()@),
    {
        self.cursor.stream_position()
    }
}

/// The reading state once reading has been resumed as `resume_of(saved)` tells, where resuming
/// decoded `found`: a coarse seek leaves nothing pending; an accurate seek, or continuing after a
/// frame, leaves the frame it found pending (see [`DecodeEngine::seek`],
/// [`DecodeEngine::finish_accurate_seek`] and [`DecodeEngine::accept_after`]); an exhausted
/// stream is taken back as it was (see [`DecodeEngine::finish_restore`]).
pub open spec fn resumed_state(saved: State, found: FramePlacement) -> State {
    let plan = resume_of(saved);
    match plan {
        Resume::Seek { target, mode: SeekMode::Coarse } => State::Coarse { target, position: None },
        Resume::Seek { mode: SeekMode::Accurate, .. } => State::Pending {
            resume: plan,
            frame: found,
            position: None,
        },
        Resume::After { .. } => State::Pending { resume: plan, frame: found, position: None },
        Resume::Exhausted => saved,
    }
}

/// A scan stays invisible: once reading has been resumed as the saved cursor tells and the
/// position put back, the reported stream position is the saved one, and resuming again would
/// do exactly what resuming did.
pub proof fn lemma_scan_leaves_reading_where_it_stood(saved: State, found: FramePlacement)
    ensures
        ({
            let resumed = resumed_state(saved, found);
            let restored = if resume_of(saved) is Exhausted {
                saved
            } else {
                with_position(resumed, position_of(saved))
            };
            &&& position_of(restored) == position_of(saved)
            &&& resume_of(restored) == resume_of(saved)
        }),
{
}

/// After a scan, the next delivery leaves reading exactly where it would have been without the
/// scan, given that decoding the stream again yields the same frames: `found` is the frame that
/// resuming decoded, which is also the frame reading would have delivered next (the pending
/// one, where a seek left one pending).
///
/// It does not hold for a stream read from its very start, where the scan replaces the start by
/// a coarse seek to zero and a first frame without a timestamp is then counted differently; nor
/// for a pending frame whose seek was coarse, which no seek leaves behind.
pub proof fn lemma_scan_does_not_change_the_next_delivery(saved: State, found: FramePlacement)
    requires
        saved is Start ==> found.pts_spec() is Some && found.end_spec() is Some,
        saved matches State::Pending { resume, frame, .. } ==> frame == found && !(resume matches Resume::Seek {
            mode: SeekMode::Coarse,
            ..
        }),
        resume_of(saved) matches Resume::Seek { mode: SeekMode::Accurate, .. } ==> found.pts_spec() is Some,
    ensures
        ({
            let restored = if resume_of(saved) is Exhausted {
                saved
            } else {
                with_position(resumed_state(saved, found), position_of(saved))
            };
            delivered(restored, found) == delivered(saved, found)
        }),
{
}

/// The first of the decoded `frames` that has samples at or after `not_before` (in
/// nanoseconds), with its index and where it lands; `None` when none has.
pub open spec fn first_placed(timeline: Timeline, frames: Seq<FrameTiming>, not_before: int) -> Option<
    (int, PlacementView),
>
    decreases frames.len(),
{
    if frames.len() == 0 {
        None
    } else {
        match timeline.placement(frames[0], not_before) {
            Some(v) => Some((0, v)),
            None => match first_placed(timeline, frames.drop_first(), not_before) {
                Some((k, v)) => Some((k + 1, v)),
                None => None,
            },
        }
    }
}

/// Decoding finds the first frame that has samples at or after the requested time: feeding the
/// decoded frames to [`DecodeEngine::decode_step`] one by one drops each frame before it (the
/// step asks for the next frame) and finds it, placed as [`Timeline::place`] places it.
pub proof fn lemma_decoding_finds_first_placed_frame(
    timeline: Timeline,
    frames: Seq<FrameTiming>,
    not_before: int,
)
    ensures
        first_placed(timeline, frames, not_before) matches Some((k, v)) ==> {
            &&& 0 <= k < frames.len()
            &&& timeline.placement(frames[k], not_before) == Some(v)
            &&& forall|j: int| 0 <= j < k ==> timeline.placement(frames[j], not_before) is None
        },
        first_placed(timeline, frames, not_before) is None ==> forall|j: int|
            0 <= j < frames.len() ==> timeline.placement(frames[j], not_before) is None,
    decreases frames.len(),
{
    if frames.len() > 0 {
        let rest = frames.drop_first();
        lemma_decoding_finds_first_placed_frame(timeline, rest, not_before);
        assert forall|j: int| 0 < j < frames.len() implies frames[j] == rest[j - 1] by {}
    }
}

/// An accurate seek to `target` delivers first the first decoded frame with samples at or after
/// the target (see [`DecodeEngine::seek`], [`DecodeEngine::decode_step`] and
/// [`DecodeEngine::finish_accurate_seek`]): every frame before it lies wholly before the target
/// and is never delivered, its samples before the target are trimmed, and its reported time does
/// not precede the target. Where the container cannot reach the target, that frame is the first
/// reachable one after it, and its time reports that position.
///
/// It holds for targets up to `u64::MAX` nanoseconds, the range of reported times.
pub proof fn lemma_accurate_seek_starts_at_target(
    timeline: Timeline,
    frames: Seq<FrameTiming>,
    target: int,
)
    requires
        timeline.wf(),
        0 <= target <= U64_MAX_NANOS,
        first_placed(timeline, frames, target) matches Some((k, v)) && frames[k].pts
            != AV_NOPTS_VALUE,
    ensures
        ({
            let (k, v) = first_placed(timeline, frames, target)->0;
            let ticks = timeline.ticks_after_origin(frames[k].pts as int);
            let rate = frames[k].sample_rate as int;
            &&& 0 <= k < frames.len()
            &&& timeline.placement(frames[k], target) == Some(v)
            &&& forall|j: int| 0 <= j < k ==> timeline.placement(frames[j], target) is None
            &&& v.pts matches Some(x) && x >= target
            &&& timeline.at_or_after(ticks, v.offset as int, rate, target)
            &&& (v.offset == 0 || !timeline.at_or_after(ticks, v.offset - 1, rate, target))
        }),
{
    lemma_decoding_finds_first_placed_frame(timeline, frames, target);
    let (k, v) = first_placed(timeline, frames, target)->0;
    timeline.lemma_reported_time_not_before_target(frames[k], target);
    let ticks = timeline.ticks_after_origin(frames[k].pts as int);
    let rate = frames[k].sample_rate as int;
    timeline.lemma_first_index(ticks, rate, target);
}

/// The later of two optional end times; a known time is later than none.
pub open spec fn later_end(a: Option<nat>, b: Option<nat>) -> Option<nat> {
    match (a, b) {
        (None, b) => b,
        (a, None) => a,
        (Some(x), Some(y)) => Some(if x >= y { x } else { y }),
    }
}

/// Returns the later of two optional end times; a known time is later than none.
fn later(a: Option<Duration>, b: Option<Duration>) -> (r: Option<Duration>)
    ensures
        opt_nanos(r) == later_end(opt_nanos(a), opt_nanos(b)),
{
    match (a, b) {
        (None, b) => b,
        (a, None) => a,
        (Some(x), Some(y)) => if y.is_before(&x) {
            Some(x)
        } else {
            Some(y)
        },
    }
}

/// What a scan for the exact duration has seen so far: the latest end time of any packet or
/// frame, and the total duration of the frames.
pub struct DurationScan {
    exact_end: Option<Duration>,
    total: Duration,
}

/// What a [`DurationScan`] has seen, in nanoseconds.
pub struct ScanView {
    /// The latest end time seen, if any.
    pub exact_end: Option<nat>,
    /// The total duration of the frames seen.
    pub total: nat,
}

impl View for DurationScan {
    type V = ScanView;

    closed spec fn view(&self) -> ScanView {
        ScanView { exact_end: opt_nanos(self.exact_end), total: self.total@ }
    }
}

/// The result of a scan that has seen `scan`: the latest end time, or, for a frame scan
/// without any end time, the total duration of the frames when there is any.
pub open spec fn scan_result(scan: ScanView, mode: ScanMode) -> Option<nat> {
    match scan.exact_end {
        Some(end) => Some(end),
        None => if mode == ScanMode::Frame && scan.total != 0 {
            Some(scan.total)
        } else {
            None
        },
    }
}

/// What a scan has seen before anything.
pub open spec fn empty_scan() -> ScanView {
    ScanView { exact_end: None, total: 0 }
}

/// What a scan has seen once it also took the packet with raw timestamp `pts` and raw duration
/// `duration` into account.
pub open spec fn packet_step(timeline: Timeline, scan: ScanView, pts: i64, duration: i64) -> ScanView {
    ScanView {
        exact_end: later_end(scan.exact_end, timeline.packet_end_nanos(pts, duration)),
        total: scan.total,
    }
}

/// What a scan has seen once it also took the delivered `frame` into account.
pub open spec fn frame_step(scan: ScanView, frame: PlacementView) -> ScanView {
    ScanView {
        exact_end: later_end(scan.exact_end, frame.end),
        total: if scan.total + frame.duration > MAX_NANOS {
            MAX_NANOS as nat
        } else {
            scan.total + frame.duration
        },
    }
}

/// What a scan has seen after taking `packets` (raw timestamp, raw duration) into account, in
/// order, from the start.
pub open spec fn packets_scanned(timeline: Timeline, packets: Seq<(i64, i64)>) -> ScanView
    decreases packets.len(),
{
    if packets.len() == 0 {
        empty_scan()
    } else {
        let last = packets.last();
        packet_step(timeline, packets_scanned(timeline, packets.drop_last()), last.0, last.1)
    }
}

/// What a scan has seen after taking the delivered `frames` into account, in order, from the
/// start.
pub open spec fn frames_scanned(frames: Seq<PlacementView>) -> ScanView
    decreases frames.len(),
{
    if frames.len() == 0 {
        empty_scan()
    } else {
        frame_step(frames_scanned(frames.drop_last()), frames.last())
    }
}

/// The total duration of `frames`, without any cap.
pub open spec fn total_duration(frames: Seq<PlacementView>) -> nat
    decreases frames.len(),
{
    if frames.len() == 0 {
        0
    } else {
        total_duration(frames.drop_last()) + frames.last().duration
    }
}

/// `end` is the latest of the known `ends`: one of them, and at or after every one of them.
pub open spec fn is_latest(end: nat, ends: Seq<Option<nat>>) -> bool {
    &&& exists|i: int| 0 <= i < ends.len() && ends[i] == Some(end)
    &&& forall|i: int| 0 <= i < ends.len() && ends[i] is Some ==> ends[i]->0 <= end
}

/// The latest of a sequence of optional end times is found one at a time.
proof fn lemma_later_end_folds(ends: Seq<Option<nat>>, acc: Option<nat>, next: Option<nat>)
    requires
        acc is None <==> (forall|i: int| 0 <= i < ends.len() ==> ends[i] is None),
        acc matches Some(m) ==> is_latest(m, ends),
    ensures
        ({
            let all = ends.push(next);
            let r = later_end(acc, next);
            &&& r is None <==> (forall|i: int| 0 <= i < all.len() ==> all[i] is None)
            &&& r matches Some(m) ==> is_latest(m, all)
        }),
{
    let all = ends.push(next);
    let r = later_end(acc, next);
    assert forall|i: int| 0 <= i < ends.len() implies all[i] == ends[i] by {}
    if let Some(m) = r {
        if let Some(a) = acc {
            let w = choose|i: int| 0 <= i < ends.len() && ends[i] == Some(a);
            if m == a {
                assert(all[w] == Some(m));
            } else {
                assert(all[ends.len() as int] == Some(m));
            }
        } else {
            assert(all[ends.len() as int] == Some(m));
        }
    } else {
        assert(all[ends.len() as int] is None);
    }
}

/// A packet scan finds the latest public end time of any packet: none where no packet has one
/// (see [`Timeline::packet_end`]).
pub proof fn lemma_packet_scan_finds_latest_end(timeline: Timeline, packets: Seq<(i64, i64)>)
    ensures
        ({
            let ends = packets.map_values(|p: (i64, i64)| timeline.packet_end_nanos(p.0, p.1));
            let scanned = packets_scanned(timeline, packets);
            &&& scanned.exact_end is None <==> (forall|i: int| 0 <= i < ends.len() ==> ends[i] is None)
            &&& scanned.exact_end matches Some(m) ==> is_latest(m, ends)
            &&& scan_result(scanned, ScanMode::Packet) == scanned.exact_end
        }),
    decreases packets.len(),
{
    let ends = packets.map_values(|p: (i64, i64)| timeline.packet_end_nanos(p.0, p.1));
    if packets.len() > 0 {
        let prev = packets.drop_last();
        lemma_packet_scan_finds_latest_end(timeline, prev);
        let prev_ends = prev.map_values(|p: (i64, i64)| timeline.packet_end_nanos(p.0, p.1));
        let last = packets.last();
        assert(ends =~= prev_ends.push(timeline.packet_end_nanos(last.0, last.1)));
        lemma_later_end_folds(
            prev_ends,
            packets_scanned(timeline, prev).exact_end,
            timeline.packet_end_nanos(last.0, last.1),
        );
    } else {
        assert(ends.len() == 0);
    }
}

/// A frame scan finds the latest public end time of any frame; where no frame has one, it
/// finds the total duration of the frames (capped at the longest duration), unless that is
/// zero.
pub proof fn lemma_frame_scan_finds_latest_end(frames: Seq<PlacementView>)
    ensures
        ({
            let ends = frames.map_values(|f: PlacementView| f.end);
            let scanned = frames_scanned(frames);
            let total = if total_duration(frames) > MAX_NANOS {
                MAX_NANOS as nat
            } else {
                total_duration(frames)
            };
            &&& scanned.exact_end is None <==> (forall|i: int| 0 <= i < ends.len() ==> ends[i] is None)
            &&& scanned.exact_end matches Some(m) ==> is_latest(m, ends)
            &&& scanned.total == total
            &&& scan_result(scanned, ScanMode::Frame) == match scanned.exact_end {
                Some(m) => Some(m),
                None => if total != 0 {
                    Some(total)
                } else {
                    None
                },
            }
        }),
    decreases frames.len(),
{
    let ends = frames.map_values(|f: PlacementView| f.end);
    if frames.len() > 0 {
        let prev = frames.drop_last();
        lemma_frame_scan_finds_latest_end(prev);
        let prev_ends = prev.map_values(|f: PlacementView| f.end);
        assert(ends =~= prev_ends.push(frames.last().end));
        lemma_later_end_folds(prev_ends, frames_scanned(prev).exact_end, frames.last().end);
    } else {
        assert(ends.len() == 0);
    }
}

impl DurationScan {
    /// A scan that has seen nothing yet.
    pub fn new() -> (s: DurationScan)
        ensures
            s@ == empty_scan(),
    {
        DurationScan { exact_end: None, total: Duration::zero() }
    }

    /// Takes a demuxed packet with raw timestamp `pts` and raw duration `duration` into account.
    pub fn add_packet(&mut self, timeline: &Timeline, pts: i64, duration: i64)
        ensures
            final(self)@ == packet_step(*timeline, old(self)@, pts, duration),
    {
        self.exact_end = later(self.exact_end, timeline.packet_end(pts, duration));
    }

    /// Takes a delivered frame into account.
    pub fn add_frame(&mut self, frame: &FramePlacement)
        ensures
            final(self)@ == frame_step(old(self)@, frame@),
    {
        proof {
            self.total.lemma_saturating_add(frame.duration_spec());
        }
        self.total = self.total.saturating_add(frame.duration());
        self.exact_end = later(self.exact_end, frame.end());
    }

    /// The outcome of a scan in `mode`: the error that stopped the scan, if any; otherwise the
    /// error of putting reading back where it stood, if any; otherwise the exact duration.
    pub fn outcome(
        &self,
        mode: ScanMode,
        scan_error: Option<AudioError>,
        restored: Result<(), AudioError>,
    ) -> (r: Result<Option<Duration>, AudioError>)
        ensures
            scan_error matches Some(e) ==> r == Err::<Option<Duration>, AudioError>(e),
            scan_error is None && restored is Err ==> r == Err::<Option<Duration>, AudioError>(
                restored->Err_0,
            ),
            scan_error is None && restored is Ok ==> (r matches Ok(d) && opt_nanos(d)
                == scan_result(self@, mode)),
    {
        if let Some(e) = scan_error {
            return Err(e);
        }
        match restored {
            Err(e) => Err(e),
            Ok(()) => Ok(self.result(mode)),
        }
    }

    /// The exact duration found by a scan in `mode`: the public time right after the last
    /// sample, or, where no timestamp was seen, the total duration of the decoded frames.
    pub fn result(&self, mode: ScanMode) -> (r: Option<Duration>)
        ensures
            opt_nanos(r) == scan_result(self@, mode),
    {
        match self.exact_end {
            Some(end) => Some(end),
            None => {
                let frame_mode = match mode {
                    ScanMode::Frame => true,
                    ScanMode::Packet => false,
                };
                if frame_mode && !self.total.is_zero() {
                    Some(self.total)
                } else {
                    None
                }
            },
        }
    }
}

} // verus!
