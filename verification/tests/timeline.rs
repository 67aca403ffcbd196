use ffmpeg_audio::time::Duration;
use ffmpeg_audio::timeline::{FrameTiming, Rational, Timeline, AV_NOPTS_VALUE};

const MS: Rational = Rational { num: 1, den: 1_000 };

const fn rational(num: i32, den: i32) -> Rational {
    Rational { num, den }
}

const fn frame(pts: i64, samples: usize, sample_rate: i32) -> FrameTiming {
    FrameTiming { pts, samples, sample_rate }
}

fn ms(millis: u64) -> Duration {
    Duration::from_millis(millis)
}

fn timeline(time_base: Rational, start_time: i64) -> Timeline {
    Timeline::new(time_base, start_time).unwrap()
}

#[test]
fn rejects_invalid_time_bases() {
    for (num, den) in [(0, 1_000), (-1, 1_000), (1, 0), (1, -1_000)] {
        assert!(
            Timeline::new(rational(num, den), 0).is_err(),
            "time base {num}/{den} must be rejected"
        );
    }
}

#[test]
fn origin_is_the_declared_start_unless_negative_or_missing() {
    // (declared start time, raw timestamp that maps to public zero)
    let cases = [(1_400, 1_400), (0, 0), (-100, 0), (AV_NOPTS_VALUE, 0)];

    for (start_time, origin) in cases {
        let placement = timeline(MS, start_time)
            .place(frame(origin, 48, 48_000), Duration::zero())
            .unwrap();
        assert_eq!(placement.pts(), Some(Duration::zero()), "start time {start_time}");
    }
}

#[test]
fn trims_preroll_and_seek_targets_from_the_raw_frame() {
    // A 1024-sample frame at 48 kHz whose raw timestamp lies 15 ms before zero.
    let straddling = frame(-15, 1_024, 48_000);
    let timeline = timeline(MS, -100);

    // (not before, offset, delivered samples, pts)
    let cases = [
        (Duration::zero(), 720, 304, Duration::zero()),
        // Trimming for a seek target composes with the preroll trim instead of replacing it.
        (ms(3), 864, 160, ms(3)),
    ];

    for (not_before, offset, samples, pts) in cases {
        let placement = timeline.place(straddling, not_before).unwrap();
        assert_eq!(
            (placement.offset(), placement.samples(), placement.pts()),
            (offset, samples, Some(pts)),
            "not before {not_before:?}"
        );
    }
}

#[test]
fn drops_frames_entirely_before_the_requested_time() {
    let timeline = timeline(MS, -100);

    // (frame, not before)
    let cases = [
        // Ends 79 ms before zero.
        (frame(-100, 1_024, 48_000), Duration::zero()),
        // Ends at 6.33 ms, before the target.
        (frame(-15, 1_024, 48_000), ms(10)),
        // Ends exactly at the target, so its last sample lies before it.
        (frame(0, 480, 48_000), ms(10)),
        // Holds no samples at all.
        (frame(0, 0, 48_000), Duration::zero()),
    ];

    for (decoded, not_before) in cases {
        assert_eq!(
            timeline.place(decoded, not_before),
            None,
            "{decoded:?} not before {not_before:?}"
        );
    }
}

#[test]
fn keeps_frames_starting_after_the_requested_time_whole() {
    let placement = timeline(MS, 0)
        .place(frame(7, 1_024, 48_000), ms(3))
        .unwrap();

    assert_eq!(
        (placement.offset(), placement.samples(), placement.pts()),
        (0, 1_024, Some(ms(7)))
    );
}

#[test]
fn rounds_sample_positions_up_and_reported_times_down() {
    // (time base, frame, not before, offset, pts)
    let cases = [
        // 1 ms at 44.1 kHz falls between samples 44 and 45; sample 45 lies at 1020408.16 ns.
        (
            rational(1, 44_100),
            frame(0, 4_096, 44_100),
            ms(1),
            45,
            Duration::from_nanos(1_020_408),
        ),
        // 100 ms lies exactly on sample 4800, even though the frame starts at 85333.33 us.
        (
            rational(1, 28_224_000),
            frame(2_408_448, 1_024, 48_000),
            ms(100),
            704,
            ms(100),
        ),
    ];

    for (time_base, decoded, not_before, offset, pts) in cases {
        let placement = timeline(time_base, 0).place(decoded, not_before).unwrap();
        assert_eq!(
            (placement.offset(), placement.pts()),
            (offset, Some(pts)),
            "{decoded:?} not before {not_before:?}"
        );
    }
}

#[test]
fn seeking_to_a_reported_time_lands_on_the_same_sample() {
    let timeline = timeline(rational(1, 44_100), 0);
    let decoded = frame(0, 4_096, 44_100);

    for target in [1, 3, 7, 50, 92] {
        let placement = timeline.place(decoded, ms(target)).unwrap();
        let again = timeline.place(decoded, placement.pts().unwrap()).unwrap();
        assert_eq!(again, placement, "target {target} ms");
    }
}

#[test]
fn end_is_the_time_right_after_the_last_sample() {
    let placement = timeline(MS, 0)
        .place(frame(881, 896, 48_000), Duration::zero())
        .unwrap();

    assert_eq!(placement.end(), Some(Duration::from_nanos(899_666_666)));
    assert_eq!(placement.duration(), Duration::from_nanos(18_666_666));
}

#[test]
fn keeps_frames_without_timestamps_untrimmed() {
    let placement = timeline(MS, 0)
        .place(frame(AV_NOPTS_VALUE, 1_024, 48_000), ms(5))
        .unwrap();

    assert_eq!(
        (
            placement.offset(),
            placement.samples(),
            placement.pts(),
            placement.end()
        ),
        (0, 1_024, None, None)
    );
    assert_eq!(placement.duration(), Duration::from_nanos(21_333_333));
}

#[test]
fn frames_without_a_sample_rate_are_kept_or_dropped_whole() {
    let timeline = timeline(MS, 0);
    let decoded = frame(10, 1_024, 0);

    let placement = timeline.place(decoded, ms(5)).unwrap();
    assert_eq!(
        (
            placement.offset(),
            placement.samples(),
            placement.duration(),
            placement.pts(),
            placement.end()
        ),
        (0, 1_024, Duration::zero(), Some(ms(10)), Some(ms(10)))
    );

    assert_eq!(timeline.place(decoded, ms(20)), None);
}

#[test]
fn seek_timestamps_round_down_and_include_the_origin() {
    // (time base, declared start time, target, raw timestamp)
    let cases = [
        (MS, 0, ms(3), 3),
        (MS, 1_400, ms(3), 1_403),
        (MS, -100, Duration::zero(), 0),
        (rational(1, 44_100), 0, ms(1), 44),
        (rational(1, 48_000), 0, ms(100), 4_800),
    ];

    for (time_base, start_time, target, pts) in cases {
        assert_eq!(
            timeline(time_base, start_time).seek_pts(target),
            pts,
            "target {target:?} with start time {start_time}"
        );
    }
}

#[test]
fn packet_end_ignores_packets_without_public_samples() {
    let timeline = timeline(MS, -100);

    // (raw timestamp, raw duration, public end)
    let cases = [
        (-100, 21, None),
        (-15, 21, Some(ms(6))),
        (881, 18, Some(ms(899))),
        (50, 0, Some(ms(50))),
        (AV_NOPTS_VALUE, 21, None),
    ];

    for (pts, duration, end) in cases {
        assert_eq!(
            timeline.packet_end(pts, duration),
            end,
            "packet at {pts} lasting {duration}"
        );
    }
}

#[test]
fn declared_duration_prefers_the_stream_over_the_container() {
    let timeline = timeline(rational(1, 44_100), 0);

    // (stream duration, container duration in microseconds, declared duration)
    let cases = [
        (88_200, 5_000_000, Some(Duration::from_secs(2))),
        (AV_NOPTS_VALUE, 900_000, Some(ms(900))),
        (AV_NOPTS_VALUE, AV_NOPTS_VALUE, None),
    ];

    for (stream_duration, container_duration, declared) in cases {
        assert_eq!(
            timeline.declared_duration(stream_duration, container_duration),
            declared,
            "stream {stream_duration}, container {container_duration}"
        );
    }
}

#[test]
fn extreme_timestamps_saturate_instead_of_overflowing() {
    let coarse = timeline(rational(i32::MAX, 1), 0);
    let placement = coarse
        .place(frame(i64::MAX, 1_024, i32::MAX), Duration::zero())
        .unwrap();
    assert_eq!(placement.pts(), Some(Duration::from_nanos(u64::MAX)));
    assert_eq!(
        coarse.place(frame(i64::MIN + 1, 1_024, 48_000), Duration::max_value()),
        None
    );

    let fine = timeline(rational(1, i32::MAX), i64::MAX);
    assert_eq!(fine.seek_pts(Duration::max_value()), i64::MAX);
    assert_eq!(fine.packet_end(i64::MIN + 1, i64::MAX), None);
}

#[test]
fn invalid_time_base_errors_name_the_time_base() {
    match Timeline::new(rational(0, 1_000), 0) {
        Err(ffmpeg_audio::AudioError::InvalidParameter(message)) => {
            assert_eq!(message, "Invalid stream time base encountered: 0/1000");
        }
        other => panic!("unexpected {other:?}"),
    }
}

#[test]
fn invalid_time_base_errors_write_negative_parts_with_a_sign() {
    match Timeline::new(rational(1, -1_000), 0) {
        Err(ffmpeg_audio::AudioError::InvalidParameter(message)) => {
            assert_eq!(message, "Invalid stream time base encountered: 1/-1000");
        }
        other => panic!("unexpected {other:?}"),
    }
}
