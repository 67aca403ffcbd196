use ffmpeg_audio::frame::frame_timing;
use ffmpeg_audio::text::decimal_string;
use ffmpeg_audio::time::duration_from_nanos;
use ffmpeg_audio::RawAudioData;
use ffmpeg_audio::{
    AudioError, AudioFrame, Duration, FrameTiming, RawLayout, Rational, ResampleOptions,
    SourceAudioInfo, Timeline,
};

#[test]
fn durations_count_nanoseconds_and_saturate() {
    assert_eq!(Duration::from_secs(2).as_nanos(), 2_000_000_000);
    assert_eq!(Duration::from_millis(3).as_nanos(), 3_000_000);
    assert_eq!(Duration::from_micros(7).as_nanos(), 7_000);
    assert!(Duration::zero().is_zero());
    assert!(!Duration::from_nanos(1).is_zero());
    assert_eq!(
        Duration::from_nanos(5).saturating_add(Duration::from_nanos(6)),
        Duration::from_nanos(11)
    );
    assert_eq!(
        Duration::max_value().saturating_add(Duration::from_nanos(1)),
        Duration::max_value()
    );
    assert_eq!(Duration::max_value().as_nanos(), 18_446_744_073_709_551_615_999_999_999);
    assert!(Duration::from_nanos(1).is_before(&Duration::from_nanos(2)));
    assert!(!Duration::from_nanos(2).is_before(&Duration::from_nanos(2)));
}

#[test]
fn nanosecond_counts_clamp_to_the_range_of_u64() {
    assert_eq!(duration_from_nanos(-5), Duration::zero());
    assert_eq!(duration_from_nanos(42), Duration::from_nanos(42));
    assert_eq!(duration_from_nanos(i128::MAX), Duration::from_nanos(u64::MAX));
}

#[test]
fn frame_timing_counts_negative_sample_counts_as_none() {
    assert_eq!(
        frame_timing(7, -3, 48_000),
        FrameTiming { pts: 7, samples: 0, sample_rate: 48_000 }
    );
    assert_eq!(frame_timing(7, 1_024, 44_100).samples, 1_024);
}

const PACKED: i32 = 3;
const PLANAR: i32 = 8;

fn straddling_frame() -> AudioFrame {
    // 720 preroll samples trimmed, 304 delivered.
    let timeline = Timeline::new(Rational { num: 1, den: 1_000 }, -100).unwrap();
    let timing = FrameTiming { pts: -15, samples: 1_024, sample_rate: 48_000 };
    AudioFrame::new(timeline.place(timing, Duration::zero()).unwrap())
}

#[test]
fn audio_frames_report_their_placement() {
    let frame = straddling_frame();
    assert_eq!(frame.samples(), 304);
    assert_eq!(frame.offset(), 720);
    assert_eq!(frame.pts(), Some(Duration::zero()));
    assert_eq!(frame.end(), Some(Duration::from_nanos(6_333_333)));
    assert_eq!(frame.duration(), Duration::from_nanos(6_333_333));
}

#[test]
fn raw_layout_skips_trimmed_samples() {
    let frame = straddling_frame();
    assert_eq!(
        frame.raw_layout(PACKED, PACKED, PLANAR, 2, true),
        Ok(RawLayout::Packed { start: 1_440, len: 608 })
    );
    assert_eq!(
        frame.raw_layout(PLANAR, PACKED, PLANAR, 2, true),
        Ok(RawLayout::Planar { planes: 2, start: 720, len: 304 })
    );
    assert_eq!(
        frame.raw_layout(PLANAR, PACKED, PLANAR, 2, false),
        Ok(RawLayout::Planar { planes: 2, start: 0, len: 0 })
    );
    assert_eq!(
        frame.raw_layout(1, PACKED, PLANAR, 2, true),
        Err(AudioError::FormatMismatch)
    );
}

#[test]
fn resample_options_default_to_stereo_float_at_44100() {
    let options = ResampleOptions::new();
    assert_eq!(
        (options.target_sample_rate, options.target_channels, options.target_sample_fmt),
        (44_100, 2, 3)
    );
    let changed = options.sample_rate(48_000).channels(1).format(8);
    assert_eq!(
        (changed.target_sample_rate, changed.target_channels, changed.target_sample_fmt),
        (48_000, 1, 8)
    );
    assert!(changed.validate().is_ok());
}

#[test]
fn resample_options_reject_empty_rates_and_channel_counts() {
    assert_eq!(
        ResampleOptions::new().sample_rate(0).validate(),
        Err(AudioError::InvalidParameter(
            "Target sample rate must be greater than 0".to_string()
        ))
    );
    assert_eq!(
        ResampleOptions::new().channels(-1).validate(),
        Err(AudioError::InvalidParameter(
            "Target channels must be greater than 0".to_string()
        ))
    );
}

#[test]
fn source_info_falls_back_to_container_values_and_unknown_names() {
    let info = SourceAudioInfo::describe(44_100, 2, 0, 320_000, None, Some("flac".to_string()), 0, 16);
    assert_eq!(info.bit_rate, 320_000);
    assert_eq!(info.bits_per_sample, 16);
    assert_eq!(info.sample_fmt, "unknown");
    assert_eq!(info.codec_name, "flac");

    let info = SourceAudioInfo::describe(48_000, 1, 128_000, 320_000, Some("s32".to_string()), None, 24, 32);
    assert_eq!(info.bit_rate, 128_000);
    assert_eq!(info.bits_per_sample, 24);
    assert_eq!(info.sample_fmt, "s32");
    assert_eq!(info.codec_name, "unknown");
}

#[test]
fn resampler_output_needs_room_for_every_channel() {
    let options = ResampleOptions::new();
    assert_eq!(options.check_format(3), Ok(()));
    assert_eq!(options.check_format(8), Err(AudioError::FormatMismatch));
    assert_eq!(options.output_size(0, 4), None);
    assert_eq!(options.output_size(-2, 4), None);
    assert_eq!(
        options.output_size(1_024, 4),
        Some(ffmpeg_audio::resampler::OutputSize { samples: 2_048, words: 1_024 })
    );
    assert_eq!(
        options.output_size(3, 2),
        Some(ffmpeg_audio::resampler::OutputSize { samples: 6, words: 2 })
    );
    assert_eq!(options.output_samples(100), 200);
}

#[test]
fn raw_data_exposes_only_the_delivered_samples() {
    let frame = straddling_frame();
    let interleaved: Vec<i16> = (0..2_048).collect();
    let data = [&interleaved[..]];
    match frame.raw_data(PACKED, PACKED, PLANAR, 2, &data) {
        Ok(RawAudioData::Packed(samples)) => assert_eq!(samples, &interleaved[1_440..2_048]),
        other => panic!("unexpected {other:?}"),
    }

    let left: Vec<i16> = (0..1_024).collect();
    let right: Vec<i16> = (1_024..2_048).collect();
    let planes = [&left[..], &right[..]];
    match frame.raw_data(PLANAR, PACKED, PLANAR, 2, &planes) {
        Ok(RawAudioData::Planar(channels)) => {
            assert_eq!(channels, vec![&left[720..], &right[720..]]);
        }
        other => panic!("unexpected {other:?}"),
    }

    let none: [&[i16]; 0] = [];
    match frame.raw_data(PLANAR, PACKED, PLANAR, 2, &none) {
        Ok(RawAudioData::Planar(channels)) => assert_eq!(channels, vec![&[][..], &[][..]]),
        other => panic!("unexpected {other:?}"),
    }
    assert!(matches!(
        frame.raw_data(1, PACKED, PLANAR, 2, &planes),
        Err(AudioError::FormatMismatch)
    ));
}

#[test]
fn decimal_text_is_written_as_formatting_writes_it() {
    for n in [0i64, 7, 10, 1_000, -1, -2_147_483_648, i64::MAX] {
        assert_eq!(decimal_string(n), format!("{n}"));
    }
}
