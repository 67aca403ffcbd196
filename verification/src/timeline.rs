//! The mapping between raw stream timestamps and the public timeline.
use vstd::arithmetic::div_mod::*;
use vstd::prelude::*;
use vstd::string::StringExecFns;

use crate::arith::{ceil_div, ceil_div_spec, floor_div, floor_mod, lemma_ceil_div, lemma_ceil_div_shift, lemma_div_between};
use crate::error::AudioError;
use crate::text::{decimal_string, decimal_text};
use crate::time::{clamp_nanos, duration_from_nanos, nanos, Duration, MAX_NANOS, U64_MAX_NANOS};

verus! {

/// The raw timestamp FFmpeg reports where a timestamp is missing.
pub const AV_NOPTS_VALUE: i64 = i64::MIN;

/// Nanoseconds in one second, as a signed count.
pub const NANOS_PER_SEC: i128 = 1_000_000_000;

/// A bound on raw tick counts after the origin: the difference of two `i64` timestamps plus a
/// nonnegative `i64` duration stays below it.
pub const TICKS_LIMIT: i128 = 36_893_488_147_419_103_232;

/// A rational number `num / den`, as FFmpeg gives stream time bases.
#[derive(Debug, Clone, Copy, PartialEq, Eq, Structural)]
pub struct Rational {
    pub num: i32,
    pub den: i32,
}

/// The timing FFmpeg reported for one decoded frame.
#[derive(Debug, Clone, Copy, PartialEq, Eq, Structural)]
pub struct FrameTiming {
    /// Raw timestamp of the frame's first sample, or `AV_NOPTS_VALUE` when it is missing.
    pub pts: i64,
    /// Number of samples per channel.
    pub samples: usize,
    /// Sample rate of this specific frame.
    pub sample_rate: i32,
}

/// What a [`FramePlacement`] says, with times as whole nanoseconds.
pub struct PlacementView {
    pub raw_pts: Option<i64>,
    pub pts: Option<nat>,
    pub end: Option<nat>,
    pub duration: nat,
    pub offset: nat,
    pub samples: nat,
}

/// Where a decoded frame lands on the public timeline once the samples before the requested
/// time have been trimmed away.
#[derive(Debug, Clone, Copy, PartialEq, Eq, Structural)]
pub struct FramePlacement {
    raw_pts: Option<i64>,
    pts: Option<Duration>,
    end: Option<Duration>,
    duration: Duration,
    offset: usize,
    samples: usize,
}

/// The number of nanoseconds in an optional duration.
pub open spec fn opt_nanos(d: Option<Duration>) -> Option<nat> {
    match d {
        Some(d) => Some(d@),
        None => None,
    }
}

/// What an optional placement says.
pub open spec fn opt_view(p: Option<FramePlacement>) -> Option<PlacementView> {
    match p {
        Some(p) => Some(p@),
        None => None,
    }
}

impl View for FramePlacement {
    type V = PlacementView;

    open spec fn view(&self) -> PlacementView {
        PlacementView {
            raw_pts: self.raw_pts_spec(),
            pts: opt_nanos(self.pts_spec()),
            end: opt_nanos(self.end_spec()),
            duration: self.duration_spec()@,
            offset: self.offset_spec() as nat,
            samples: self.samples_spec() as nat,
        }
    }
}

impl FramePlacement {
    /// Raw timestamp of the decoded frame.
    pub closed spec fn raw_pts_spec(self) -> Option<i64> {
        self.raw_pts
    }

    /// Public time of the first delivered sample.
    pub closed spec fn pts_spec(self) -> Option<Duration> {
        self.pts
    }

    /// Public time right after the last sample.
    pub closed spec fn end_spec(self) -> Option<Duration> {
        self.end
    }

    /// Playback duration of the delivered samples.
    pub closed spec fn duration_spec(self) -> Duration {
        self.duration
    }

    /// Number of leading samples trimmed from the decoded frame.
    pub closed spec fn offset_spec(self) -> usize {
        self.offset
    }

    /// Number of samples per channel that are delivered.
    pub closed spec fn samples_spec(self) -> usize {
        self.samples
    }

    /// Placements that say the same are the same.
    pub proof fn lemma_view_injective(a: FramePlacement, b: FramePlacement)
        requires
            a@ == b@,
        ensures
            a == b,
    {
        if let Some(x) = a.pts {
            Duration::lemma_view_injective(x, b.pts.unwrap());
        }
        if let Some(x) = a.end {
            Duration::lemma_view_injective(x, b.end.unwrap());
        }
        Duration::lemma_view_injective(a.duration, b.duration);
    }

    /// Raw timestamp of the decoded frame, which identifies it within the stream.
    pub fn raw_pts(&self) -> (r: Option<i64>)
        ensures
            r == self.raw_pts_spec(),
    {
        self.raw_pts
    }

    /// Public time of the first delivered sample, or `None` for frames without a raw timestamp.
    pub fn pts(&self) -> (r: Option<Duration>)
        ensures
            r == self.pts_spec(),
    {
        self.pts
    }

    /// Public time right after the frame's last sample, or `None` for frames without a raw
    /// timestamp.
    pub fn end(&self) -> (r: Option<Duration>)
        ensures
            r == self.end_spec(),
    {
        self.end
    }

    /// Playback duration of the delivered samples.
    pub fn duration(&self) -> (r: Duration)
        ensures
            r == self.duration_spec(),
    {
        self.duration
    }

    /// Number of leading samples trimmed from the decoded frame.
    pub fn offset(&self) -> (r: usize)
        ensures
            r == self.offset_spec(),
    {
        self.offset
    }

    /// Number of samples per channel that are delivered.
    pub fn samples(&self) -> (r: usize)
        ensures
            r == self.samples_spec(),
    {
        self.samples
    }
}

/// The value `x`, clamped to the range of `i64`.
pub open spec fn saturate_i64_spec(x: int) -> i64 {
    if x < i64::MIN {
        i64::MIN
    } else if x > i64::MAX {
        i64::MAX
    } else {
        x as i64
    }
}

/// Returns `value` clamped to the range of `i64`.
pub fn saturate_i64(value: i128) -> (r: i64)
    ensures
        r == saturate_i64_spec(value as int),
{
    if value < i64::MIN as i128 {
        i64::MIN
    } else if value > i64::MAX as i128 {
        i64::MAX
    } else {
        value as i64
    }
}

/// A floor quotient brackets its dividend: `(x / m) * m <= x < (x / m + 1) * m`.
proof fn lemma_floor_bracket(x: int, m: int)
    requires
        m > 0,
    ensures
        (x / m) * m <= x < (x / m + 1) * m,
{
    lemma_fundamental_div_mod(x, m);
    lemma_mod_bound(x, m);
    assert((x / m) * m <= x < (x / m + 1) * m) by (nonlinear_arith)
        requires
            x == m * (x / m) + x % m,
            0 <= x % m < m,
    ;
}

/// A floor quotient of a nonnegative dividend below `(u64::MAX + 1) * m` is not clamped.
proof fn lemma_floor_unclamped(x: int, m: int)
    requires
        m > 0,
        0 <= x < (U64_MAX_NANOS + 1) * m,
    ensures
        clamp_nanos(x / m) == x / m,
        0 <= x / m <= U64_MAX_NANOS,
{
    lemma_floor_bracket(x, m);
    assert(0 <= x / m <= U64_MAX_NANOS) by (nonlinear_arith)
        requires
            (x / m) * m <= x < (x / m + 1) * m,
            0 <= x < (U64_MAX_NANOS + 1) * m,
            m > 0,
    ;
}

/// The playback duration of `samples` samples at a positive `sample_rate` is the number of
/// whole nanoseconds they last: `d * rate <= samples * 1e9 < (d + 1) * rate`, as long as that
/// fits a `u64`; without a sample rate it is zero.
pub proof fn lemma_samples_duration_is_whole_nanoseconds(samples: int, sample_rate: int)
    ensures
        sample_rate > 0 && 0 <= samples * NANOS_PER_SEC < (U64_MAX_NANOS + 1) * sample_rate ==> {
            let d = samples_duration(samples, sample_rate) as int;
            d * sample_rate <= samples * NANOS_PER_SEC < (d + 1) * sample_rate
        },
        sample_rate > 0 && samples * NANOS_PER_SEC >= (U64_MAX_NANOS + 1) * sample_rate ==> samples_duration(
            samples,
            sample_rate,
        ) == U64_MAX_NANOS,
        sample_rate <= 0 ==> samples_duration(samples, sample_rate) == 0,
{
    if sample_rate > 0 {
        let x = samples * NANOS_PER_SEC;
        lemma_floor_bracket(x, sample_rate);
        if 0 <= x < (U64_MAX_NANOS + 1) * sample_rate {
            lemma_floor_unclamped(x, sample_rate);
        } else if x >= (U64_MAX_NANOS + 1) * sample_rate {
            assert(x / sample_rate > U64_MAX_NANOS) by (nonlinear_arith)
                requires
                    x < (x / sample_rate + 1) * sample_rate,
                    x >= (U64_MAX_NANOS + 1) * sample_rate,
                    sample_rate > 0,
            ;
        }
    }
}

/// A value within `i64` saturates to itself; only values outside it are cut to its bounds.
pub proof fn lemma_saturate_i64_keeps_values_in_range(x: int)
    ensures
        i64::MIN <= x <= i64::MAX ==> saturate_i64_spec(x) == x,
        x > i64::MAX ==> saturate_i64_spec(x) == i64::MAX,
        x < i64::MIN ==> saturate_i64_spec(x) == i64::MIN,
{
}

/// The playback duration of `samples` samples at `sample_rate`, in nanoseconds rounded down
/// and clamped; zero where the sample rate is unknown.
pub open spec fn samples_duration(samples: int, sample_rate: int) -> nat {
    if sample_rate > 0 {
        clamp_nanos(samples * NANOS_PER_SEC / sample_rate)
    } else {
        0
    }
}

/// Returns the playback duration of `samples` samples, rounded down to whole nanoseconds.
pub fn samples_to_duration(samples: usize, sample_rate: i32) -> (d: Duration)
    ensures
        d@ == samples_duration(samples as int, sample_rate as int),
{
    if sample_rate <= 0 {
        return Duration::zero();
    }
    assert(samples * NANOS_PER_SEC <= 18_446_744_073_709_551_615 * 1_000_000_000) by (nonlinear_arith)
        requires
            samples <= 18_446_744_073_709_551_615,
    ;
    duration_from_nanos(floor_div(samples as i128 * NANOS_PER_SEC, sample_rate as i128))
}

/// The mapping between raw stream timestamps and the public timeline.
///
/// Every conversion is carried out with exact rational arithmetic and rounded exactly once:
/// sample positions are rounded up (to the first sample at or after the requested time), and
/// reported times are rounded down to whole nanoseconds. Seeking to a reported time therefore
/// lands on the same sample again.
#[derive(Debug, Clone, Copy)]
pub struct Timeline {
    /// Numerator of the stream time base, in seconds per raw tick.
    tb_num: i128,
    /// Denominator of the stream time base.
    tb_den: i128,
    /// Raw timestamp that corresponds to zero on the public timeline.
    origin: i64,
}

impl Timeline {
    /// The time base is a positive `i32` fraction and the origin is not negative.
    #[verifier::type_invariant]
    pub closed spec fn wf(self) -> bool {
        &&& 0 < self.tb_num <= i32::MAX
        &&& 0 < self.tb_den <= i32::MAX
        &&& 0 <= self.origin
    }

    /// Numerator of the time base.
    pub closed spec fn num(self) -> int {
        self.tb_num as int
    }

    /// Denominator of the time base.
    pub closed spec fn den(self) -> int {
        self.tb_den as int
    }

    /// Raw timestamp of public zero.
    pub closed spec fn origin(self) -> int {
        self.origin as int
    }

    /// The number of raw ticks from the origin to `pts`.
    pub open spec fn ticks_after_origin(self, pts: int) -> int {
        pts - self.origin()
    }

    /// The public time of sample `i` of a frame that starts `ticks` raw ticks after the origin,
    /// in nanoseconds multiplied by `den * sample_rate` so that it is a whole number.
    pub open spec fn scaled_sample_time(self, ticks: int, i: int, sample_rate: int) -> int {
        ticks * self.num() * NANOS_PER_SEC * sample_rate + i * NANOS_PER_SEC * self.den()
    }

    /// Whether sample `i` of a frame that starts `ticks` raw ticks after the origin lies at or
    /// after the public time `not_before` (in nanoseconds). Without a sample rate, the samples
    /// cannot be told apart and all lie at the frame start.
    pub open spec fn at_or_after(self, ticks: int, i: int, sample_rate: int, not_before: int) -> bool {
        if sample_rate > 0 {
            self.scaled_sample_time(ticks, i, sample_rate) >= not_before * self.den() * sample_rate
        } else {
            ticks * self.num() * NANOS_PER_SEC >= not_before * self.den()
        }
    }

    /// The public time of sample `i` of a frame that starts `ticks` raw ticks after the origin,
    /// in whole nanoseconds rounded down. Without a sample rate, the frame start.
    pub open spec fn floor_time(self, ticks: int, i: int, sample_rate: int) -> int {
        if sample_rate > 0 {
            self.scaled_sample_time(ticks, i, sample_rate) / (self.den() * sample_rate)
        } else {
            ticks * self.num() * NANOS_PER_SEC / self.den()
        }
    }

    /// Where `frame` lands on the public timeline when samples before `not_before` (in
    /// nanoseconds) are trimmed, given the number of samples trimmed.
    pub open spec fn placed(self, frame: FrameTiming, offset: int) -> PlacementView {
        let ticks = self.ticks_after_origin(frame.pts as int);
        PlacementView {
            raw_pts: Some(frame.pts),
            pts: Some(clamp_nanos(self.floor_time(ticks, offset, frame.sample_rate as int))),
            end: Some(
                clamp_nanos(
                    self.floor_time(ticks, frame.samples as int, frame.sample_rate as int),
                ),
            ),
            duration: samples_duration(frame.samples - offset, frame.sample_rate as int),
            offset: offset as nat,
            samples: (frame.samples - offset) as nat,
        }
    }

    /// Where a frame without a raw timestamp lands: whole, and without a position.
    pub open spec fn unplaced(frame: FrameTiming) -> PlacementView {
        PlacementView {
            raw_pts: None,
            pts: None,
            end: None,
            duration: samples_duration(frame.samples as int, frame.sample_rate as int),
            offset: 0,
            samples: frame.samples as nat,
        }
    }

    /// Where `frame` lands when samples before `not_before` (in nanoseconds) are trimmed, or
    /// `None` when no sample of it lies at or after `not_before`.
    pub open spec fn placement(self, frame: FrameTiming, not_before: int) -> Option<PlacementView> {
        if frame.pts == AV_NOPTS_VALUE {
            Some(Self::unplaced(frame))
        } else {
            let ticks = self.ticks_after_origin(frame.pts as int);
            let first = self.first_index(ticks, frame.sample_rate as int, not_before);
            if first >= frame.samples {
                None
            } else {
                Some(self.placed(frame, first))
            }
        }
    }

    /// Converts a raw timestamp into raw ticks after the origin.
    pub fn relative_ticks(&self, pts: i64) -> (r: i128)
        ensures
            r == self.ticks_after_origin(pts as int),
            -TICKS_LIMIT / 2 < r < TICKS_LIMIT / 2,
    {
        proof {
            use_type_invariant(self);
        }
        pts as i128 - self.origin as i128
    }

    /// Returns the public time, in whole nanoseconds rounded down, of the point `samples` samples
    /// after a frame start lying `ticks` raw ticks after the origin.
    ///
    /// The samples are ignored when the sample rate is unknown.
    pub fn floor_nanos(&self, ticks: i128, samples: usize, sample_rate: i32) -> (r: i128)
        requires
            -TICKS_LIMIT < ticks < TICKS_LIMIT,
        ensures
            r == self.floor_time(ticks as int, samples as int, sample_rate as int),
    {
        proof {
            use_type_invariant(self);
        }
        let num = self.tb_num;
        let den = self.tb_den;
        proof {
            assert(-TICKS_LIMIT * 0x8000_0000 < ticks * num < TICKS_LIMIT * 0x8000_0000)
                by (nonlinear_arith)
                requires
                    -TICKS_LIMIT < ticks < TICKS_LIMIT,
                    0 < num <= 0x7fff_ffff,
            ;
            assert(-TICKS_LIMIT * 0x8000_0000 * NANOS_PER_SEC < ticks * num * NANOS_PER_SEC
                < TICKS_LIMIT * 0x8000_0000 * NANOS_PER_SEC) by (nonlinear_arith)
                requires
                    -TICKS_LIMIT * 0x8000_0000 < ticks * num < TICKS_LIMIT * 0x8000_0000,
            ;
        }
        let scaled_ticks = ticks * num * NANOS_PER_SEC;
        let whole = floor_div(scaled_ticks, den);
        if sample_rate <= 0 {
            return whole;
        }
        let rate = sample_rate as i128;
        proof {
            assert(samples * NANOS_PER_SEC <= 18_446_744_073_709_551_615 * NANOS_PER_SEC)
                by (nonlinear_arith)
                requires
                    samples <= 18_446_744_073_709_551_615,
            ;
        }
        let scaled_samples = samples as i128 * NANOS_PER_SEC;
        let rem_ticks = floor_mod(scaled_ticks, den);
        let rem_samples = floor_mod(scaled_samples, rate);
        proof {
            assert(rem_ticks * rate < 0x8000_0000 * 0x8000_0000) by (nonlinear_arith)
                requires
                    0 <= rem_ticks < den <= 0x7fff_ffff,
                    0 < rate <= 0x7fff_ffff,
            ;
            assert(rem_samples * den < 0x8000_0000 * 0x8000_0000) by (nonlinear_arith)
                requires
                    0 <= rem_samples < rate <= 0x7fff_ffff,
                    0 < den <= 0x7fff_ffff,
            ;
            assert(den * rate < 0x8000_0000 * 0x8000_0000) by (nonlinear_arith)
                requires
                    0 < rate <= 0x7fff_ffff,
                    0 < den <= 0x7fff_ffff,
            ;
            lemma_div_between(scaled_ticks as int, den as int);
            lemma_div_between(scaled_samples as int, rate as int);
        }
        // Both remainders are below one nanosecond, so together they carry at most one more.
        let carry = rem_ticks * rate + rem_samples * den >= den * rate;
        let sample_part = floor_div(scaled_samples, rate);
        let r = whole + sample_part + if carry { 1i128 } else { 0i128 };
        proof {
            lemma_floor_sum(
                scaled_ticks as int,
                scaled_samples as int,
                den as int,
                rate as int,
            );
            assert(self.scaled_sample_time(ticks as int, samples as int, rate as int) == scaled_ticks
                * rate + scaled_samples * den) by (nonlinear_arith)
                requires
                    scaled_ticks == ticks * num * NANOS_PER_SEC,
                    scaled_samples == samples * NANOS_PER_SEC,
                    num == self.num(),
                    den == self.den(),
            ;
        }
        r
    }
}

impl Timeline {
    /// The index of the first sample at or after `not_before` (in nanoseconds) of a frame that
    /// starts `ticks` raw ticks after the origin, capped at `i128::MAX`; `i128::MAX` where no
    /// sample qualifies because the samples cannot be located.
    pub open spec fn first_index(self, ticks: int, sample_rate: int, not_before: int) -> int {
        let lead = not_before * self.den() - ticks * self.num() * NANOS_PER_SEC;
        if lead <= 0 {
            0
        } else if sample_rate <= 0 {
            i128::MAX as int
        } else {
            let exact = ceil_div_spec(lead * sample_rate, self.den() * NANOS_PER_SEC);
            if exact > i128::MAX {
                i128::MAX as int
            } else {
                exact
            }
        }
    }

    /// The number of raw ticks after the origin of the last tick at or before `target` (in
    /// nanoseconds).
    pub open spec fn seek_ticks(self, target: int) -> int {
        target * self.den() / (NANOS_PER_SEC * self.num())
    }

    /// The public time, rounded down to whole nanoseconds, of a point `ticks` raw ticks after the
    /// origin.
    pub open spec fn ticks_time(self, ticks: int) -> int {
        ticks * self.num() * NANOS_PER_SEC / self.den()
    }

    /// The declared duration in nanoseconds: the stream's own duration (in raw ticks, from zero)
    /// when known, otherwise the container's (in microseconds), otherwise none.
    pub open spec fn declared_nanos(self, stream_duration: i64, container_duration_us: i64) -> Option<
        nat,
    > {
        if stream_duration >= 0 {
            Some(clamp_nanos(self.ticks_time(stream_duration as int)))
        } else if container_duration_us >= 0 {
            Some((container_duration_us * 1_000) as nat)
        } else {
            None
        }
    }

    /// The public end time in nanoseconds of a packet with raw timestamp `pts` and raw duration
    /// `duration`, or `None` when it has no timestamp or ends at or before zero.
    pub open spec fn packet_end_nanos(self, pts: i64, duration: i64) -> Option<nat> {
        if pts == AV_NOPTS_VALUE {
            None
        } else {
            let end = self.ticks_time(
                self.ticks_after_origin(pts as int) + if duration > 0 {
                    duration as int
                } else {
                    0
                },
            );
            if end > 0 {
                Some(clamp_nanos(end))
            } else {
                None
            }
        }
    }

    /// Builds the timeline of a stream from its time base and declared start time.
    ///
    /// The origin is the declared start time. When the start time is negative or missing, the
    /// origin is raw zero, and everything before it is preroll.
    pub fn new(time_base: Rational, start_time: i64) -> (r: Result<Timeline, AudioError>)
        ensures
            r is Err <==> time_base.num <= 0 || time_base.den <= 0,
            r matches Err(e) ==> e is InvalidParameter,
            r matches Err(AudioError::InvalidParameter(m)) ==> m@ == invalid_time_base_text(
                time_base.num,
                time_base.den,
            ),
            r matches Ok(t) ==> {
                &&& t.num() == time_base.num
                &&& t.den() == time_base.den
                &&& t.origin() == if start_time == AV_NOPTS_VALUE || start_time < 0 {
                    0
                } else {
                    start_time as int
                }
            },
    {
        if time_base.num <= 0 || time_base.den <= 0 {
            return Err(
                AudioError::InvalidParameter(
                    invalid_time_base_message(time_base.num, time_base.den),
                ),
            );
        }
        let origin = if start_time == AV_NOPTS_VALUE || start_time < 0 {
            0
        } else {
            start_time
        };
        Ok(Timeline { tb_num: time_base.num as i128, tb_den: time_base.den as i128, origin })
    }

    /// Returns the raw timestamp to request from the demuxer so that decoding starts at or
    /// before `target`.
    pub fn seek_pts(&self, target: Duration) -> (r: i64)
        ensures
            r == saturate_i64_spec(self.origin() + self.seek_ticks(target@ as int)),
    {
        proof {
            use_type_invariant(self);
        }
        let t = nanos(target);
        let den = self.tb_den;
        let num = self.tb_num;
        proof {
            assert(t * den <= MAX_NANOS * 0x7fff_ffff) by (nonlinear_arith)
                requires
                    0 <= t <= MAX_NANOS,
                    0 < den <= 0x7fff_ffff,
            ;
            assert(NANOS_PER_SEC * num <= NANOS_PER_SEC * 0x7fff_ffff) by (nonlinear_arith)
                requires
                    0 < num <= 0x7fff_ffff,
            ;
            assert(t * den >= 0) by (nonlinear_arith)
                requires
                    0 <= t,
                    0 < den,
            ;
            lemma_div_between((t * den) as int, (NANOS_PER_SEC * num) as int);
        }
        let ticks = floor_div(t * den, NANOS_PER_SEC * num);
        saturate_i64(self.origin as i128 + ticks)
    }

    /// Returns the index of the first sample at or after `not_before_ns`, counted from a frame
    /// that starts `start` raw ticks after the origin. Returns `i128::MAX` when no sample
    /// qualifies because the frame's samples cannot be located.
    pub fn first_sample_at_or_after(&self, start: i128, sample_rate: i32, not_before_ns: i128) -> (r:
        i128)
        requires
            -TICKS_LIMIT < start < TICKS_LIMIT,
            0 <= not_before_ns <= MAX_NANOS,
        ensures
            r == self.first_index(start as int, sample_rate as int, not_before_ns as int),
    {
        proof {
            use_type_invariant(self);
        }
        let num = self.tb_num;
        let den = self.tb_den;
        proof {
            assert(0 <= not_before_ns * den <= MAX_NANOS * 0x7fff_ffff) by (nonlinear_arith)
                requires
                    0 <= not_before_ns <= MAX_NANOS,
                    0 < den <= 0x7fff_ffff,
            ;
            assert(-TICKS_LIMIT * 0x8000_0000 < start * num < TICKS_LIMIT * 0x8000_0000)
                by (nonlinear_arith)
                requires
                    -TICKS_LIMIT < start < TICKS_LIMIT,
                    0 < num <= 0x7fff_ffff,
            ;
            assert(-TICKS_LIMIT * 0x8000_0000 * NANOS_PER_SEC < start * num * NANOS_PER_SEC
                < TICKS_LIMIT * 0x8000_0000 * NANOS_PER_SEC) by (nonlinear_arith)
                requires
                    -TICKS_LIMIT * 0x8000_0000 < start * num < TICKS_LIMIT * 0x8000_0000,
            ;
        }
        // Sample `i` lies at `start * num / den + i / rate` seconds. Solving for the smallest `i`
        // at or after `not_before` gives `i >= rate * lead / (den * 1e9)`, where `lead` below is
        // the gap between the frame start and `not_before`, scaled by `den * 1e9`.
        let lead = not_before_ns * den - start * num * NANOS_PER_SEC;
        if lead <= 0 {
            return 0;
        }
        if sample_rate <= 0 {
            return i128::MAX;
        }
        let unit = den * NANOS_PER_SEC;
        let rate = sample_rate as i128;
        let whole = floor_div(lead, unit);
        let rem = floor_mod(lead, unit);
        proof {
            assert(rem * rate < 0x7fff_ffff * NANOS_PER_SEC * 0x7fff_ffff) by (nonlinear_arith)
                requires
                    0 <= rem < unit,
                    unit == den * NANOS_PER_SEC,
                    0 < den <= 0x7fff_ffff,
                    0 < rate <= 0x7fff_ffff,
            ;
            assert(rem * rate >= 0) by (nonlinear_arith)
                requires
                    0 <= rem,
                    0 < rate,
            ;
            lemma_div_between(lead as int, unit as int);
            lemma_fundamental_div_mod(lead as int, unit as int);
            assert(lead * rate == (whole * rate) * unit + rem * rate) by (nonlinear_arith)
                requires
                    lead == unit * whole + rem,
            ;
            lemma_ceil_div_shift((whole * rate) as int, (rem * rate) as int, unit as int);
            lemma_ceil_div((rem * rate) as int, unit as int);
            assert(whole * rate >= 0) by (nonlinear_arith)
                requires
                    whole >= 0,
                    rate > 0,
            ;
        }
        let part = ceil_div(rem * rate, unit);
        match whole.checked_mul(rate) {
            None => i128::MAX,
            Some(scaled) => match scaled.checked_add(part) {
                None => i128::MAX,
                Some(index) => index,
            },
        }
    }

    /// Facts about [`first_index`](Self::first_index): no sample before it lies at or after
    /// `not_before`, and, unless it is the cap, the sample at it does.
    pub proof fn lemma_first_index(self, ticks: int, sample_rate: int, not_before: int)
        requires
            self.wf(),
        ensures
            self.first_index(ticks, sample_rate, not_before) >= 0,
            forall|i: int|
                0 <= i < self.first_index(ticks, sample_rate, not_before) ==> !self.at_or_after(
                    ticks,
                    i,
                    sample_rate,
                    not_before,
                ),
            self.first_index(ticks, sample_rate, not_before) < i128::MAX ==> self.at_or_after(
                ticks,
                self.first_index(ticks, sample_rate, not_before),
                sample_rate,
                not_before,
            ),
    {
        let num = self.num();
        let den = self.den();
        let lead = not_before * den - ticks * num * NANOS_PER_SEC;
        let first = self.first_index(ticks, sample_rate, not_before);
        if lead <= 0 {
            if sample_rate > 0 {
                assert(ticks * num * NANOS_PER_SEC * sample_rate >= not_before * den * sample_rate)
                    by (nonlinear_arith)
                    requires
                        not_before * den - ticks * num * NANOS_PER_SEC <= 0,
                        sample_rate > 0,
                ;
                assert(0 * NANOS_PER_SEC * den == 0);
            }
        } else if sample_rate <= 0 {
        } else {
            let unit = den * NANOS_PER_SEC;
            let x = lead * sample_rate;
            assert(unit > 0 && x > 0) by (nonlinear_arith)
                requires
                    den > 0,
                    lead > 0,
                    sample_rate > 0,
                    unit == den * NANOS_PER_SEC,
                    x == lead * sample_rate,
            ;
            lemma_ceil_div(x, unit);
            let exact = ceil_div_spec(x, unit);
            // Sample `i` qualifies exactly when `i * unit >= lead * rate`.
            assert forall|i: int|
                self.at_or_after(ticks, i, sample_rate, not_before) <==> i * unit >= x by {
                assert(self.scaled_sample_time(ticks, i, sample_rate) - not_before * den
                    * sample_rate == i * unit - x) by (nonlinear_arith)
                    requires
                        unit == den * NANOS_PER_SEC,
                        x == lead * sample_rate,
                        lead == not_before * den - ticks * num * NANOS_PER_SEC,
                        self.scaled_sample_time(ticks, i, sample_rate) == ticks * num
                            * NANOS_PER_SEC * sample_rate + i * NANOS_PER_SEC * den,
                ;
            }
            assert forall|i: int| 0 <= i < first implies !self.at_or_after(
                ticks,
                i,
                sample_rate,
                not_before,
            ) by {
                assert(i * unit <= (exact - 1) * unit) by (nonlinear_arith)
                    requires
                        i <= exact - 1,
                        unit > 0,
                ;
            }
        }
    }

    /// Where some sample lies at or after the time but not at the frame start, the first one is
    /// the least `i` with `i * den * 1e9 >= lead * sample_rate`, `lead` being the gap from the
    /// frame start to the time, scaled by `den * 1e9` (capped at `i128::MAX`).
    pub proof fn lemma_first_index_is_ceiling(self, ticks: int, sample_rate: int, not_before: int)
        requires
            self.wf(),
            sample_rate > 0,
            not_before * self.den() - ticks * self.num() * NANOS_PER_SEC > 0,
        ensures
            ({
                let lead = not_before * self.den() - ticks * self.num() * NANOS_PER_SEC;
                let unit = self.den() * NANOS_PER_SEC;
                let first = self.first_index(ticks, sample_rate, not_before);
                &&& first >= 1
                &&& first < i128::MAX ==> first * unit >= lead * sample_rate
                &&& first < i128::MAX ==> (first - 1) * unit < lead * sample_rate
            }),
    {
        let lead = not_before * self.den() - ticks * self.num() * NANOS_PER_SEC;
        let unit = self.den() * NANOS_PER_SEC;
        assert(unit > 0 && lead * sample_rate > 0) by (nonlinear_arith)
            requires
                self.den() > 0,
                lead > 0,
                sample_rate > 0,
                unit == self.den() * NANOS_PER_SEC,
        ;
        lemma_ceil_div(lead * sample_rate, unit);
    }

    /// Past the first sample at or after a time, every later sample lies at or after it too.
    pub proof fn lemma_at_or_after_monotone(
        self,
        ticks: int,
        i: int,
        j: int,
        sample_rate: int,
        not_before: int,
    )
        requires
            self.wf(),
            i <= j,
            self.at_or_after(ticks, i, sample_rate, not_before),
        ensures
            self.at_or_after(ticks, j, sample_rate, not_before),
    {
        if sample_rate > 0 {
            let den = self.den();
            assert(i * NANOS_PER_SEC * den <= j * NANOS_PER_SEC * den) by (nonlinear_arith)
                requires
                    i <= j,
                    den > 0,
            ;
        }
    }

    /// A sample index is the first one at or after a time exactly when it qualifies and the
    /// one before it does not.
    pub proof fn lemma_first_index_unique(
        self,
        ticks: int,
        i: int,
        sample_rate: int,
        not_before: int,
    )
        requires
            self.wf(),
            0 <= i < i128::MAX,
            self.at_or_after(ticks, i, sample_rate, not_before),
            i == 0 || !self.at_or_after(ticks, i - 1, sample_rate, not_before),
        ensures
            self.first_index(ticks, sample_rate, not_before) == i,
    {
        self.lemma_first_index(ticks, sample_rate, not_before);
        let f = self.first_index(ticks, sample_rate, not_before);
        if f < i {
            self.lemma_at_or_after_monotone(ticks, f, i - 1, sample_rate, not_before);
        }
    }

    /// Seeking to a reported time lands on the same sample again: placing a frame at the
    /// reported time of its first delivered sample delivers the same samples, with the same
    /// times, as the placement that reported it.
    ///
    /// It holds for requested times up to `u64::MAX` nanoseconds, the range of reported times.
    pub proof fn lemma_seek_to_reported_time_lands_on_same_sample(
        self,
        frame: FrameTiming,
        not_before: int,
    )
        requires
            self.wf(),
            frame.pts != AV_NOPTS_VALUE,
            0 <= not_before <= U64_MAX_NANOS,
            self.placement(frame, not_before) is Some,
        ensures
            self.placement(frame, self.placement(frame, not_before)->0.pts->0 as int)
                == self.placement(frame, not_before),
    {
        let ticks = self.ticks_after_origin(frame.pts as int);
        let rate = frame.sample_rate as int;
        self.lemma_first_index(ticks, rate, not_before);
        let i = self.first_index(ticks, rate, not_before);
        let exact = self.floor_time(ticks, i, rate);
        let pt = clamp_nanos(exact) as int;
        if rate > 0 {
            let m = self.den() * rate;
            let t = self.scaled_sample_time(ticks, i, rate);
            assert(m > 0) by (nonlinear_arith)
                requires
                    self.den() > 0,
                    rate > 0,
                    m == self.den() * rate,
            ;
            assert(not_before * self.den() * rate == not_before * m) by (nonlinear_arith)
                requires
                    m == self.den() * rate,
            ;
            assert(pt * self.den() * rate == pt * m) by (nonlinear_arith)
                requires
                    m == self.den() * rate,
            ;
            lemma_fundamental_div_mod(t, m);
            lemma_mod_bound(t, m);
            let q = t / m;
            assert(q >= not_before && q * m <= t) by (nonlinear_arith)
                requires
                    t == m * q + t % m,
                    0 <= t % m < m,
                    t >= not_before * m,
            ;
            assert(pt * m <= t) by (nonlinear_arith)
                requires
                    pt <= q,
                    q * m <= t,
                    m > 0,
            ;
            if i > 0 {
                let t1 = self.scaled_sample_time(ticks, i - 1, rate);
                assert(!self.at_or_after(ticks, i - 1, rate, not_before));
                assert(t1 < pt * m) by (nonlinear_arith)
                    requires
                        t1 < not_before * m,
                        not_before <= pt,
                        m > 0,
                ;
            }
        } else {
            let x = ticks * self.num() * NANOS_PER_SEC;
            let d = self.den();
            lemma_fundamental_div_mod(x, d);
            lemma_mod_bound(x, d);
            let q = x / d;
            assert(q >= not_before && q * d <= x) by (nonlinear_arith)
                requires
                    x == d * q + x % d,
                    0 <= x % d < d,
                    x >= not_before * d,
            ;
            assert(x >= pt * d) by (nonlinear_arith)
                requires
                    pt <= q,
                    q * d <= x,
                    d > 0,
            ;
        }
        self.lemma_first_index_unique(ticks, i, rate, pt);
    }

    /// A placed frame never reports a time before the requested one: its first delivered
    /// sample lies at or after `not_before`, and so does the reported (rounded down) time.
    ///
    /// It holds for requested times up to `u64::MAX` nanoseconds, the range of reported times.
    pub proof fn lemma_reported_time_not_before_target(self, frame: FrameTiming, not_before: int)
        requires
            self.wf(),
            frame.pts != AV_NOPTS_VALUE,
            0 <= not_before <= U64_MAX_NANOS,
            self.placement(frame, not_before) is Some,
        ensures
            self.placement(frame, not_before)->0.pts->0 >= not_before,
    {
        let ticks = self.ticks_after_origin(frame.pts as int);
        let rate = frame.sample_rate as int;
        self.lemma_first_index(ticks, rate, not_before);
        let i = self.first_index(ticks, rate, not_before);
        if rate > 0 {
            let m = self.den() * rate;
            let t = self.scaled_sample_time(ticks, i, rate);
            assert(m > 0) by (nonlinear_arith)
                requires
                    self.den() > 0,
                    rate > 0,
                    m == self.den() * rate,
            ;
            assert(not_before * self.den() * rate == not_before * m) by (nonlinear_arith)
                requires
                    m == self.den() * rate,
            ;
            lemma_fundamental_div_mod(t, m);
            lemma_mod_bound(t, m);
            assert(t / m >= not_before) by (nonlinear_arith)
                requires
                    t == m * (t / m) + t % m,
                    0 <= t % m < m,
                    t >= not_before * m,
            ;
        } else {
            let x = ticks * self.num() * NANOS_PER_SEC;
            let d = self.den();
            lemma_fundamental_div_mod(x, d);
            lemma_mod_bound(x, d);
            assert(x / d >= not_before) by (nonlinear_arith)
                requires
                    x == d * (x / d) + x % d,
                    0 <= x % d < d,
                    x >= not_before * d,
            ;
        }
    }

    /// Trimming for a later time trims at least as much: the first sample at or after a time
    /// never precedes the first one at or after an earlier time. With a time of zero this is the
    /// preroll trim, so trimming for a seek target composes with it.
    pub proof fn lemma_later_time_trims_more(
        self,
        ticks: int,
        sample_rate: int,
        earlier: int,
        later: int,
    )
        requires
            self.wf(),
            earlier <= later,
        ensures
            self.first_index(ticks, sample_rate, earlier) <= self.first_index(
                ticks,
                sample_rate,
                later,
            ),
    {
        self.lemma_first_index(ticks, sample_rate, earlier);
        self.lemma_first_index(ticks, sample_rate, later);
        let f = self.first_index(ticks, sample_rate, later);
        if f < self.first_index(ticks, sample_rate, earlier) {
            // The sample at `f` lies at or after `later`, hence at or after `earlier`.
            if sample_rate > 0 {
                assert(earlier * self.den() * sample_rate <= later * self.den() * sample_rate)
                    by (nonlinear_arith)
                    requires
                        earlier <= later,
                        self.den() > 0,
                        sample_rate > 0,
                ;
            } else {
                assert(earlier * self.den() <= later * self.den()) by (nonlinear_arith)
                    requires
                        earlier <= later,
                        self.den() > 0,
                ;
            }
            assert(self.at_or_after(ticks, f, sample_rate, earlier));
        }
    }

    /// A placed frame keeps the raw timestamp of its timing, whatever the origin, and delivers
    /// the samples left after the trimmed ones.
    pub proof fn lemma_placement_keeps_raw_pts(self, frame: FrameTiming, not_before: int)
        requires
            self.wf(),
            self.placement(frame, not_before) is Some,
        ensures
            self.placement(frame, not_before)->0.raw_pts == if frame.pts == AV_NOPTS_VALUE {
                None
            } else {
                Some(frame.pts)
            },
            self.placement(frame, not_before)->0.offset + self.placement(frame, not_before)->0.samples
                == frame.samples,
    {
        if frame.pts != AV_NOPTS_VALUE {
            self.lemma_first_index(
                self.ticks_after_origin(frame.pts as int),
                frame.sample_rate as int,
                not_before,
            );
        }
    }

    /// A placed frame's delivered samples last its duration in whole nanoseconds at the frame's
    /// own sample rate: `duration * rate <= samples * 1e9 < (duration + 1) * rate`, as long as
    /// that fits a `u64`; without a sample rate the duration is zero.
    pub proof fn lemma_placement_duration_at_frame_rate(self, frame: FrameTiming, not_before: int)
        requires
            self.placement(frame, not_before) is Some,
        ensures
            ({
                let v = self.placement(frame, not_before)->0;
                let rate = frame.sample_rate as int;
                &&& rate > 0 && v.samples * NANOS_PER_SEC < (U64_MAX_NANOS + 1) * rate ==> v.duration
                    * rate <= v.samples * NANOS_PER_SEC < (v.duration + 1) * rate
                &&& rate <= 0 ==> v.duration == 0
            }),
    {
        let v = self.placement(frame, not_before)->0;
        lemma_samples_duration_is_whole_nanoseconds(v.samples as int, frame.sample_rate as int);
        assert(v.samples * NANOS_PER_SEC >= 0) by (nonlinear_arith);
    }

    /// A placed frame's times are measured from the origin: with `t = pts - origin` raw ticks,
    /// the reported time `pts` of its first delivered sample (index `offset`) and the time `end`
    /// right after its last sample are the exact public times rounded down to whole
    /// nanoseconds. In nanoseconds scaled by `m = den * rate`:
    /// `pts * m <= t * num * 1e9 * rate + offset * 1e9 * den < (pts + 1) * m`, and the same for
    /// `end` with all the frame's samples, as long as the time fits a `u64`. Without a sample
    /// rate both are the frame start.
    pub proof fn lemma_placement_times_from_origin(self, frame: FrameTiming, not_before: int)
        requires
            self.wf(),
            frame.pts != AV_NOPTS_VALUE,
            self.placement(frame, not_before) is Some,
        ensures
            ({
                let v = self.placement(frame, not_before)->0;
                let t = frame.pts - self.origin();
                let rate = frame.sample_rate as int;
                let m = self.den() * rate;
                let start = t * self.num() * NANOS_PER_SEC * rate + v.offset * NANOS_PER_SEC
                    * self.den();
                let stop = t * self.num() * NANOS_PER_SEC * rate + frame.samples * NANOS_PER_SEC
                    * self.den();
                &&& v.pts is Some && v.end is Some
                &&& rate > 0 && 0 <= start < (U64_MAX_NANOS + 1) * m ==> v.pts->0 * m <= start
                    < (v.pts->0 + 1) * m
                &&& rate > 0 && 0 <= stop < (U64_MAX_NANOS + 1) * m ==> v.end->0 * m <= stop < (
                v.end->0 + 1) * m
                &&& rate <= 0 && 0 <= t * self.num() * NANOS_PER_SEC < (U64_MAX_NANOS + 1)
                    * self.den() ==> {
                    &&& v.pts == v.end
                    &&& v.pts->0 * self.den() <= t * self.num() * NANOS_PER_SEC < (v.pts->0 + 1)
                        * self.den()
                }
            }),
    {
        let v = self.placement(frame, not_before)->0;
        let t = frame.pts - self.origin();
        let rate = frame.sample_rate as int;
        if rate > 0 {
            let m = self.den() * rate;
            assert(m > 0) by (nonlinear_arith)
                requires
                    self.den() > 0,
                    rate > 0,
                    m == self.den() * rate,
            ;
            let start = t * self.num() * NANOS_PER_SEC * rate + v.offset * NANOS_PER_SEC
                * self.den();
            let stop = t * self.num() * NANOS_PER_SEC * rate + frame.samples * NANOS_PER_SEC
                * self.den();
            if 0 <= start < (U64_MAX_NANOS + 1) * m {
                lemma_floor_unclamped(start, m);
                lemma_floor_bracket(start, m);
            }
            if 0 <= stop < (U64_MAX_NANOS + 1) * m {
                lemma_floor_unclamped(stop, m);
                lemma_floor_bracket(stop, m);
            }
        } else {
            let x = t * self.num() * NANOS_PER_SEC;
            if 0 <= x < (U64_MAX_NANOS + 1) * self.den() {
                lemma_floor_unclamped(x, self.den());
                lemma_floor_bracket(x, self.den());
            }
        }
    }

    /// A placed frame ends its duration after its reported time, give or take the rounding of
    /// the two times: `end - pts` is the duration or one nanosecond more, as long as the end
    /// fits a `u64` and the frame's first delivered sample does not precede zero.
    pub proof fn lemma_placement_end_follows_pts_by_duration(
        self,
        frame: FrameTiming,
        not_before: int,
    )
        requires
            self.wf(),
            frame.pts != AV_NOPTS_VALUE,
            frame.sample_rate > 0,
            self.placement(frame, not_before) is Some,
            ({
                let v = self.placement(frame, not_before)->0;
                let t = frame.pts - self.origin();
                let rate = frame.sample_rate as int;
                &&& 0 <= t * self.num() * NANOS_PER_SEC * rate + v.offset * NANOS_PER_SEC
                    * self.den()
                &&& t * self.num() * NANOS_PER_SEC * rate + frame.samples * NANOS_PER_SEC
                    * self.den() < (U64_MAX_NANOS + 1) * (self.den() * rate)
            }),
        ensures
            ({
                let v = self.placement(frame, not_before)->0;
                &&& v.end->0 >= v.pts->0
                &&& v.end->0 - v.pts->0 == v.duration || v.end->0 - v.pts->0 == v.duration + 1
            }),
    {
        let v = self.placement(frame, not_before)->0;
        let t = frame.pts - self.origin();
        let rate = frame.sample_rate as int;
        let m = self.den() * rate;
        let start = t * self.num() * NANOS_PER_SEC * rate + v.offset * NANOS_PER_SEC * self.den();
        let stop = t * self.num() * NANOS_PER_SEC * rate + frame.samples * NANOS_PER_SEC
            * self.den();
        self.lemma_placement_keeps_raw_pts(frame, not_before);
        assert(start <= stop) by (nonlinear_arith)
            requires
                v.offset <= frame.samples,
                self.den() > 0,
                start == t * self.num() * NANOS_PER_SEC * rate + v.offset * NANOS_PER_SEC
                    * self.den(),
                stop == t * self.num() * NANOS_PER_SEC * rate + frame.samples * NANOS_PER_SEC
                    * self.den(),
        ;
        self.lemma_placement_times_from_origin(frame, not_before);
        let n = v.samples as int;
        assert(stop - start == n * NANOS_PER_SEC * self.den()) by (nonlinear_arith)
            requires
                v.offset + v.samples == frame.samples,
                n == v.samples,
                start == t * self.num() * NANOS_PER_SEC * rate + v.offset * NANOS_PER_SEC
                    * self.den(),
                stop == t * self.num() * NANOS_PER_SEC * rate + frame.samples * NANOS_PER_SEC
                    * self.den(),
        ;
        assert(n * NANOS_PER_SEC < (U64_MAX_NANOS + 1) * rate) by (nonlinear_arith)
            requires
                stop - start == n * NANOS_PER_SEC * self.den(),
                0 <= start,
                stop < (U64_MAX_NANOS + 1) * m,
                m == self.den() * rate,
                self.den() > 0,
        ;
        self.lemma_placement_duration_at_frame_rate(frame, not_before);
        let p = v.pts->0 as int;
        let e = v.end->0 as int;
        let d = v.duration as int;
        assert(d * m <= stop - start < (d + 1) * m) by (nonlinear_arith)
            requires
                d * rate <= n * NANOS_PER_SEC < (d + 1) * rate,
                stop - start == n * NANOS_PER_SEC * self.den(),
                m == self.den() * rate,
                self.den() > 0,
        ;
        assert(p + d <= e <= p + d + 1) by (nonlinear_arith)
            requires
                p * m <= start < (p + 1) * m,
                e * m <= stop < (e + 1) * m,
                d * m <= stop - start < (d + 1) * m,
                m > 0,
        ;
    }

    /// The raw timestamp requested for a seek to `target` is the last raw tick at or before the
    /// target, whenever that tick lies within `i64`: for any `x` in `i64` with
    /// `(x - origin) * num * 1e9 <= target * den < (x - origin + 1) * num * 1e9`, it is `x`.
    pub proof fn lemma_seek_pts_is_last_tick_within_i64(self, target: int, x: int)
        requires
            self.wf(),
            target >= 0,
            i64::MIN <= x <= i64::MAX,
            (x - self.origin()) * self.num() * NANOS_PER_SEC <= target * self.den(),
            target * self.den() < (x - self.origin() + 1) * self.num() * NANOS_PER_SEC,
        ensures
            saturate_i64_spec(self.origin() + self.seek_ticks(target)) == x,
    {
        self.lemma_seek_ticks_is_last_tick_not_after(target);
        let q = self.seek_ticks(target);
        let y = x - self.origin();
        let c = self.num() * NANOS_PER_SEC;
        assert(c > 0) by (nonlinear_arith)
            requires
                self.num() > 0,
                c == self.num() * NANOS_PER_SEC,
        ;
        assert(q * self.num() * NANOS_PER_SEC == q * c) by (nonlinear_arith)
            requires
                c == self.num() * NANOS_PER_SEC,
        ;
        assert((q + 1) * self.num() * NANOS_PER_SEC == (q + 1) * c) by (nonlinear_arith)
            requires
                c == self.num() * NANOS_PER_SEC,
        ;
        assert(y * self.num() * NANOS_PER_SEC == y * c) by (nonlinear_arith)
            requires
                c == self.num() * NANOS_PER_SEC,
        ;
        assert((y + 1) * self.num() * NANOS_PER_SEC == (y + 1) * c) by (nonlinear_arith)
            requires
                c == self.num() * NANOS_PER_SEC,
        ;
        assert(q == y) by (nonlinear_arith)
            requires
                q * c <= target * self.den() < (q + 1) * c,
                y * c <= target * self.den() < (y + 1) * c,
                c > 0,
        ;
    }

    /// A frame with samples at a positive rate is trimmed to its first sample at or after the
    /// requested time: with `t = pts - origin` raw ticks, sample `i` lies at or after
    /// `not_before` exactly when `t * num * 1e9 * rate + i * 1e9 * den >= not_before * den * rate`.
    /// The frame is dropped exactly when no sample qualifies; otherwise the first delivered
    /// sample (index `offset`) qualifies and the one before it does not.
    pub proof fn lemma_placement_trims_to_first_sample_at_or_after(
        self,
        frame: FrameTiming,
        not_before: int,
    )
        requires
            self.wf(),
            frame.pts != AV_NOPTS_VALUE,
            frame.sample_rate > 0,
        ensures
            ({
                let t = frame.pts - self.origin();
                let rate = frame.sample_rate as int;
                let bound = not_before * self.den() * rate;
                let time = |i: int| t * self.num() * NANOS_PER_SEC * rate + i * NANOS_PER_SEC * self.den();
                &&& self.placement(frame, not_before) is None <==> (frame.samples == 0 || time(
                    frame.samples - 1,
                ) < bound)
                &&& self.placement(frame, not_before) matches Some(v) ==> {
                    &&& time(v.offset as int) >= bound
                    &&& (v.offset == 0 || time(v.offset - 1) < bound)
                }
            }),
    {
        let ticks = self.ticks_after_origin(frame.pts as int);
        let rate = frame.sample_rate as int;
        self.lemma_first_index(ticks, rate, not_before);
        let first = self.first_index(ticks, rate, not_before);
        if first < frame.samples {
            if frame.samples > 0 {
                self.lemma_at_or_after_monotone(ticks, first, frame.samples - 1, rate, not_before);
            }
        } else if frame.samples > 0 {
            assert(!self.at_or_after(ticks, frame.samples - 1, rate, not_before));
        }
        if first > 0 && first < frame.samples {
            assert(!self.at_or_after(ticks, first - 1, rate, not_before));
        }
    }

    /// A packet's public end time is the time right after it, measured from the origin and
    /// rounded down to whole nanoseconds: with `x = (pts - origin + max(duration, 0)) * num *
    /// 1e9`, the end `e` satisfies `e * den <= x < (e + 1) * den`. A packet without a timestamp,
    /// or one that ends at or before zero, has none.
    pub proof fn lemma_packet_end_from_origin(self, pts: i64, duration: i64)
        requires
            self.wf(),
        ensures
            ({
                let extra = if duration > 0 {
                    duration as int
                } else {
                    0
                };
                let x = (pts - self.origin() + extra) * self.num() * NANOS_PER_SEC;
                let r = self.packet_end_nanos(pts, duration);
                &&& pts == AV_NOPTS_VALUE ==> r is None
                &&& pts != AV_NOPTS_VALUE ==> (r is None <==> x < self.den())
                &&& pts != AV_NOPTS_VALUE && x < (U64_MAX_NANOS + 1) * self.den() ==> (r matches Some(
                    e,
                ) ==> e * self.den() <= x < (e + 1) * self.den())
            }),
    {
        if pts != AV_NOPTS_VALUE {
            let extra = if duration > 0 {
                duration as int
            } else {
                0
            };
            let x = (pts - self.origin() + extra) * self.num() * NANOS_PER_SEC;
            lemma_floor_bracket(x, self.den());
            assert(x / self.den() > 0 <==> x >= self.den()) by (nonlinear_arith)
                requires
                    (x / self.den()) * self.den() <= x < (x / self.den() + 1) * self.den(),
                    self.den() > 0,
            ;
            if 0 <= x < (U64_MAX_NANOS + 1) * self.den() {
                lemma_floor_unclamped(x, self.den());
            }
        }
    }

    /// The declared duration is the stream's own duration in raw ticks, converted exactly and
    /// rounded down (`e * den <= duration * num * 1e9 < (e + 1) * den`, as long as it fits a
    /// `u64`), or else the container's duration in microseconds, or else none.
    pub proof fn lemma_declared_duration_converts_ticks(
        self,
        stream_duration: i64,
        container_duration_us: i64,
    )
        requires
            self.wf(),
        ensures
            ({
                let x = stream_duration * self.num() * NANOS_PER_SEC;
                let r = self.declared_nanos(stream_duration, container_duration_us);
                &&& stream_duration >= 0 && x < (U64_MAX_NANOS + 1) * self.den() ==> (r matches Some(
                    e,
                ) && e * self.den() <= x < (e + 1) * self.den())
                &&& stream_duration < 0 && container_duration_us >= 0 ==> r == Some(
                    (container_duration_us * 1_000) as nat,
                )
                &&& stream_duration < 0 && container_duration_us < 0 ==> r is None
            }),
    {
        let x = stream_duration * self.num() * NANOS_PER_SEC;
        if stream_duration >= 0 && x < (U64_MAX_NANOS + 1) * self.den() {
            assert(x >= 0) by (nonlinear_arith)
                requires
                    stream_duration >= 0,
                    self.num() > 0,
                    x == stream_duration * self.num() * NANOS_PER_SEC,
            ;
            lemma_floor_unclamped(x, self.den());
            lemma_floor_bracket(x, self.den());
        }
    }

    /// The raw timestamp requested for a seek is the last raw tick at or before the target.
    pub proof fn lemma_seek_ticks_is_last_tick_not_after(self, target: int)
        requires
            self.wf(),
            target >= 0,
        ensures
            self.seek_ticks(target) * self.num() * NANOS_PER_SEC <= target * self.den(),
            (self.seek_ticks(target) + 1) * self.num() * NANOS_PER_SEC > target * self.den(),
    {
        let x = target * self.den();
        let d = NANOS_PER_SEC * self.num();
        assert(d > 0) by (nonlinear_arith)
            requires
                self.num() > 0,
                d == NANOS_PER_SEC * self.num(),
        ;
        lemma_fundamental_div_mod(x, d);
        lemma_mod_bound(x, d);
        let q = x / d;
        assert(q * self.num() * NANOS_PER_SEC <= x && (q + 1) * self.num() * NANOS_PER_SEC > x)
            by (nonlinear_arith)
            requires
                x == d * q + x % d,
                0 <= x % d < d,
                d == NANOS_PER_SEC * self.num(),
        ;
    }

    /// Places a decoded frame on the public timeline, trimming the samples that lie before
    /// `not_before`.
    ///
    /// Returns `None` when no sample of the frame lies at or after `not_before`. Frames without a
    /// raw timestamp cannot be located, so they are kept whole.
    pub fn place(&self, frame: FrameTiming, not_before: Duration) -> (r: Option<FramePlacement>)
        ensures
            opt_view(r) == self.placement(frame, not_before@ as int),
            frame.pts == AV_NOPTS_VALUE ==> (r matches Some(p) && p@ == Self::unplaced(frame)),
            frame.pts != AV_NOPTS_VALUE ==> {
                let ticks = self.ticks_after_origin(frame.pts as int);
                let rate = frame.sample_rate as int;
                &&& (r is Some <==> frame.samples > 0 && self.at_or_after(
                    ticks,
                    frame.samples - 1,
                    rate,
                    not_before@ as int,
                ))
                &&& r matches Some(p) ==> {
                    &&& p@ == self.placed(frame, p@.offset as int)
                    &&& self.at_or_after(ticks, p@.offset as int, rate, not_before@ as int)
                    &&& (p@.offset == 0 || !self.at_or_after(
                        ticks,
                        p@.offset - 1,
                        rate,
                        not_before@ as int,
                    ))
                }
            },
    {
        proof {
            use_type_invariant(self);
        }
        if frame.pts == AV_NOPTS_VALUE {
            return Some(
                FramePlacement {
                    raw_pts: None,
                    pts: None,
                    end: None,
                    duration: samples_to_duration(frame.samples, frame.sample_rate),
                    offset: 0,
                    samples: frame.samples,
                },
            );
        }
        let start = self.relative_ticks(frame.pts);
        let nb = nanos(not_before);
        let first = self.first_sample_at_or_after(start, frame.sample_rate, nb);
        proof {
            self.lemma_first_index(start as int, frame.sample_rate as int, nb as int);
        }
        if first >= frame.samples as i128 {
            return None;
        }
        let offset = first as usize;
        let samples = frame.samples - offset;
        proof {
            self.lemma_at_or_after_monotone(
                start as int,
                first as int,
                frame.samples - 1,
                frame.sample_rate as int,
                nb as int,
            );
        }
        let pts = duration_from_nanos(self.floor_nanos(start, offset, frame.sample_rate));
        let end = duration_from_nanos(self.floor_nanos(start, frame.samples, frame.sample_rate));
        Some(
            FramePlacement {
                raw_pts: Some(frame.pts),
                pts: Some(pts),
                end: Some(end),
                duration: samples_to_duration(samples, frame.sample_rate),
                offset,
                samples,
            },
        )
    }

    /// Returns the public end time of a demuxed packet, or `None` when the packet carries no
    /// timestamp or ends at or before zero.
    pub fn packet_end(&self, pts: i64, duration: i64) -> (r: Option<Duration>)
        ensures
            opt_nanos(r) == self.packet_end_nanos(pts, duration),
            pts == AV_NOPTS_VALUE ==> r is None,
            pts != AV_NOPTS_VALUE ==> {
                let end = self.ticks_time(
                    self.ticks_after_origin(pts as int) + if duration > 0 {
                        duration as int
                    } else {
                        0
                    },
                );
                &&& (r is Some <==> end > 0)
                &&& r matches Some(d) ==> d@ == clamp_nanos(end)
            },
    {
        if pts == AV_NOPTS_VALUE {
            return None;
        }
        let extra: i128 = if duration > 0 {
            duration as i128
        } else {
            0
        };
        let end = self.relative_ticks(pts) + extra;
        let end_ns = self.floor_nanos(end, 0, 0);
        if end_ns > 0 {
            Some(duration_from_nanos(end_ns))
        } else {
            None
        }
    }

    /// Returns the declared duration: the stream's own duration when known, otherwise the
    /// container's (given in microseconds).
    ///
    /// The declared duration is only an estimate of the exact duration; it is converted as is,
    /// without any adjustment for the origin.
    pub fn declared_duration(&self, stream_duration: i64, container_duration_us: i64) -> (r: Option<
        Duration,
    >)
        ensures
            opt_nanos(r) == self.declared_nanos(stream_duration, container_duration_us),
            stream_duration >= 0 ==> (r matches Some(d) && d@ == clamp_nanos(
                self.ticks_time(stream_duration as int),
            )),
            stream_duration < 0 && container_duration_us >= 0 ==> (r matches Some(d) && d@
                == container_duration_us * 1_000),
            stream_duration < 0 && container_duration_us < 0 ==> r is None,
    {
        // `AV_NOPTS_VALUE` is negative, so the sign checks also reject missing durations.
        if stream_duration >= 0 {
            let duration_ns = self.floor_nanos(stream_duration as i128, 0, 0);
            return Some(duration_from_nanos(duration_ns));
        }
        if container_duration_us >= 0 {
            Some(Duration::from_micros(container_duration_us as u64))
        } else {
            None
        }
    }
}

/// The message of the error for the invalid time base `num/den`.
pub open spec fn invalid_time_base_text(num: i32, den: i32) -> Seq<char> {
    "Invalid stream time base encountered: "@ + decimal_text(num as int) + "/"@ + decimal_text(
        den as int,
    )
}

/// Returns the message of the error for the invalid time base `num/den`.
fn invalid_time_base_message(num: i32, den: i32) -> (m: String)
    ensures
        m@ == invalid_time_base_text(num, den),
{
    "Invalid stream time base encountered: ".to_owned().concat(
        decimal_string(num as i64).as_str(),
    ).concat("/").concat(decimal_string(den as i64).as_str())
}

/// The floor of a sum of two fractions is the sum of their floors plus the carry of the
/// remainders.
proof fn lemma_floor_sum(a: int, b: int, den: int, rate: int)
    requires
        den > 0,
        rate > 0,
    ensures
        (a * rate + b * den) / (den * rate) == a / den + b / rate + if (a % den) * rate + (b
            % rate) * den >= den * rate {
            1int
        } else {
            0int
        },
{
    lemma_fundamental_div_mod(a, den);
    lemma_fundamental_div_mod(b, rate);
    lemma_mod_bound(a, den);
    lemma_mod_bound(b, rate);
    let qa = a / den;
    let ra = a % den;
    let qb = b / rate;
    let rb = b % rate;
    let s = ra * rate + rb * den;
    let m = den * rate;
    assert(0 <= s < 2 * m) by (nonlinear_arith)
        requires
            0 <= ra < den,
            0 <= rb < rate,
            s == ra * rate + rb * den,
            m == den * rate,
    ;
    assert(a * rate + b * den == (qa + qb) * m + s) by (nonlinear_arith)
        requires
            a == den * qa + ra,
            b == rate * qb + rb,
            s == ra * rate + rb * den,
            m == den * rate,
    ;
    assert(m > 0) by (nonlinear_arith)
        requires
            den > 0,
            rate > 0,
            m == den * rate,
    ;
    if s >= m {
        assert((qa + qb) * m + s == (qa + qb + 1) * m + (s - m)) by (nonlinear_arith);
        lemma_fundamental_div_mod_converse(a * rate + b * den, m, qa + qb + 1, s - m);
    } else {
        lemma_fundamental_div_mod_converse(a * rate + b * den, m, qa + qb, s);
    }
}

} // verus!
