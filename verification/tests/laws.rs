use ffmpeg_audio::{
    AudioError, DurationScan, ScanMode,
    Duration, FramePlacement, FrameTiming, Rational, ReadCursor, Resume, SeekMode, Timeline,
};

fn timeline(num: i32, den: i32, start: i64) -> Timeline {
    Timeline::new(Rational { num, den }, start).unwrap()
}

fn placed(timeline: &Timeline, pts: i64) -> FramePlacement {
    let timing = FrameTiming { pts, samples: 1_024, sample_rate: 48_000 };
    timeline.place(timing, Duration::zero()).unwrap()
}

#[test]
fn reported_times_never_precede_the_requested_time() {
    let timeline = timeline(1, 44_100, 0);
    let frame = FrameTiming { pts: 0, samples: 4_096, sample_rate: 44_100 };
    for nanos in [1, 999, 22_676, 1_000_000, 50_000_001, 92_000_000] {
        let target = Duration::from_nanos(nanos);
        let placement = timeline.place(frame, target).unwrap();
        assert!(!placement.pts().unwrap().is_before(&target), "target {nanos} ns");
        assert_eq!(timeline.place(frame, placement.pts().unwrap()), Some(placement));
    }
}

#[test]
fn seek_timestamps_are_the_last_tick_not_after_the_target() {
    let timeline = timeline(1, 44_100, 0);
    // 44 ticks lie at 0.9977 ms, 45 ticks at 1.0204 ms.
    assert_eq!(timeline.seek_pts(Duration::from_millis(1)), 44);
    assert_eq!(timeline.seek_pts(Duration::from_nanos(1_020_408)), 44);
    assert_eq!(timeline.seek_pts(Duration::from_nanos(1_020_409)), 45);
}

#[test]
fn later_samples_qualify_once_an_earlier_one_does() {
    let timeline = timeline(1, 48_000, 0);
    let frame = FrameTiming { pts: 0, samples: 1_024, sample_rate: 48_000 };
    // Sample 480 is the first at or after 10 ms; the frame's last sample qualifies too.
    let placement = timeline.place(frame, Duration::from_millis(10)).unwrap();
    assert_eq!(placement.offset(), 480);
    let last_only = timeline.place(frame, Duration::from_nanos(21_312_500)).unwrap();
    assert_eq!(last_only.offset(), 1_023);
    assert_eq!(timeline.place(frame, Duration::from_nanos(21_312_501)), None);
}

#[test]
fn untimed_frames_report_no_position() {
    let timeline = timeline(1, 48_000, 0);
    let untimed = placed(&timeline, ffmpeg_audio::AV_NOPTS_VALUE);
    let mut cursor = ReadCursor::default();
    cursor.record_delivery(placed(&timeline, 0));
    cursor.record_delivery(untimed);
    assert_eq!(cursor.stream_position(), None);
}

#[test]
fn restoring_a_position_keeps_how_reading_resumes() {
    let timeline = timeline(1, 48_000, 0);
    let mut cursor = ReadCursor::default();
    cursor.record_delivery(placed(&timeline, 1_024));
    let resume = cursor.resume();
    cursor.restore_position(Some(Duration::from_millis(3)));
    assert_eq!(cursor.stream_position(), Some(Duration::from_millis(3)));
    assert_eq!(cursor.resume(), resume);

    // Nothing has happened at the start, so there is no position to restore.
    let mut fresh = ReadCursor::default();
    fresh.restore_position(Some(Duration::from_millis(3)));
    assert_eq!(fresh.stream_position(), None);
}

#[test]
fn exhaustion_keeps_the_position_and_leaves_nothing_to_resume() {
    let timeline = timeline(1, 48_000, 0);
    let mut cursor = ReadCursor::default();
    let frame = placed(&timeline, 480);
    cursor.record_delivery(frame);
    cursor.record_exhaustion();
    assert_eq!(cursor.stream_position(), frame.pts());
    assert_eq!(cursor.resume(), Resume::Exhausted);
    assert!(cursor.is_exhausted());
}

#[test]
fn delivering_an_untimed_pending_frame_advances_from_the_seek_target() {
    let timeline = timeline(1, 48_000, 0);
    let untimed = placed(&timeline, ffmpeg_audio::AV_NOPTS_VALUE);
    let target = Duration::from_millis(500);
    let mut cursor = ReadCursor::default();
    cursor.record_pending(Resume::Seek { target, mode: SeekMode::Accurate }, untimed);
    cursor.record_delivery(untimed);
    assert_eq!(cursor.pending(), None);
    assert_eq!(
        cursor.resume(),
        Resume::Seek {
            target: Duration::from_nanos(521_333_333),
            mode: SeekMode::Accurate
        }
    );
}

#[test]
fn seek_mode_defaults_to_coarse() {
    assert_eq!(SeekMode::default(), SeekMode::Coarse);
}

#[test]
fn reported_times_are_one_floor_of_the_exact_sum() {
    let timeline = timeline(1, 28_224_000, 0);
    // The frame start alone is 85333333.33 ns and sample 704 adds 14666666.67 ns: flooring each
    // would give 99 999 999 ns.
    assert_eq!(timeline.floor_nanos(2_408_448, 704, 48_000), 100_000_000);
    // Without a sample rate, the samples are ignored.
    assert_eq!(timeline.floor_nanos(2_408_448, 704, 0), 85_333_333);
}

#[test]
fn the_first_sample_at_or_after_a_time_is_a_rounded_up_index() {
    let timeline = timeline(1, 44_100, 0);
    // 1 ms at 44.1 kHz lies between samples 44 and 45.
    assert_eq!(timeline.first_sample_at_or_after(0, 44_100, 1_000_000), 45);
    // A frame starting after the time keeps its first sample.
    assert_eq!(timeline.first_sample_at_or_after(100, 44_100, 1_000_000), 0);
    // Without a sample rate, no sample of a frame starting before the time can be located.
    assert_eq!(timeline.first_sample_at_or_after(0, 0, 1_000_000), i128::MAX);
}

#[test]
fn a_failed_scan_reports_its_own_error_before_the_restore_error() {
    let scan = DurationScan::new();
    assert_eq!(
        scan.outcome(
            ScanMode::Frame,
            Some(AudioError::Eagain),
            Err(AudioError::FormatMismatch)
        ),
        Err(AudioError::Eagain)
    );
    assert_eq!(
        scan.outcome(ScanMode::Frame, None, Err(AudioError::FormatMismatch)),
        Err(AudioError::FormatMismatch)
    );
    assert_eq!(scan.outcome(ScanMode::Frame, None, Ok(())), Ok(None));
}
