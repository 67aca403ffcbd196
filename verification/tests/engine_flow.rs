use ffmpeg_audio::{
    AudioError, DecodeAction, DecodeEngine, DecodeEvent, Duration, DurationScan, FramePlacement,
    FrameTiming, Rational, Receive, Resume, ScanMode, SeekMode, SeekStep,
};

const RATE: i32 = 48_000;

fn engine() -> DecodeEngine {
    DecodeEngine::new(Rational { num: 1, den: RATE }, 0).unwrap()
}

fn timing(pts: i64) -> FrameTiming {
    FrameTiming { pts, samples: 1_024, sample_rate: RATE }
}

fn found(action: DecodeAction) -> FramePlacement {
    match action {
        DecodeAction::Found(placement) => placement,
        other => panic!("expected a frame, got {other:?}"),
    }
}

#[test]
fn engine_rejects_an_invalid_time_base() {
    let result = DecodeEngine::new(Rational { num: 0, den: 48_000 }, 0);
    assert!(matches!(result, Err(AudioError::InvalidParameter(_))));
}

#[test]
fn decoding_reads_packets_drops_preroll_and_delivers_frames() {
    let mut engine = engine();
    assert_eq!(engine.receive_frame(), Receive::Decode);
    assert_eq!(
        engine.decode_step(Duration::zero(), DecodeEvent::NeedsInput),
        DecodeAction::ReadPacket
    );
    // A frame lying wholly before zero is preroll and dropped.
    assert_eq!(
        engine.decode_step(Duration::zero(), DecodeEvent::Frame(timing(-2_048))),
        DecodeAction::ReceiveFrame
    );
    let first = found(engine.decode_step(Duration::zero(), DecodeEvent::Frame(timing(0))));
    engine.deliver(first);
    assert_eq!(engine.stream_position(), Some(Duration::zero()));
}

#[test]
fn end_of_input_is_signalled_once_before_the_stream_is_exhausted() {
    let mut engine = engine();
    assert_eq!(
        engine.decode_step(Duration::zero(), DecodeEvent::EndOfInput),
        DecodeAction::SendEndOfInput
    );
    assert_eq!(
        engine.decode_step(Duration::zero(), DecodeEvent::EndOfInput),
        DecodeAction::Exhausted
    );
    assert_eq!(engine.receive_frame(), Receive::Finished);
}

#[test]
fn a_drained_decoder_exhausts_the_stream_and_keeps_the_position() {
    let mut engine = engine();
    let first = found(engine.decode_step(Duration::zero(), DecodeEvent::Frame(timing(480))));
    engine.deliver(first);
    assert_eq!(
        engine.decode_step(Duration::zero(), DecodeEvent::Drained),
        DecodeAction::Exhausted
    );
    assert_eq!(engine.receive_frame(), Receive::Finished);
    assert_eq!(engine.stream_position(), Some(Duration::from_millis(10)));
    assert_eq!(engine.cursor().resume(), Resume::Exhausted);
}

#[test]
fn a_seek_clears_the_end_of_input_signal() {
    let mut engine = engine();
    engine.decode_step(Duration::zero(), DecodeEvent::EndOfInput);
    assert_eq!(engine.seek(Duration::zero(), SeekMode::Coarse), SeekStep::Done);
    assert_eq!(
        engine.decode_step(Duration::zero(), DecodeEvent::EndOfInput),
        DecodeAction::SendEndOfInput
    );
}

#[test]
fn accurate_seek_trims_to_the_target_and_delivers_the_pending_frame_first() {
    let mut engine = engine();
    let target = Duration::from_millis(10);
    assert_eq!(engine.seek_pts(target), 480);
    assert_eq!(engine.seek(target, SeekMode::Accurate), SeekStep::Align);
    let placement = found(engine.decode_step(target, DecodeEvent::Frame(timing(0))));
    assert_eq!((placement.offset(), placement.samples()), (480, 544));
    assert!(engine.finish_accurate_seek(target, Some(placement)).is_ok());
    assert_eq!(engine.stream_position(), None);
    assert_eq!(
        engine.cursor().resume(),
        Resume::Seek { target, mode: SeekMode::Accurate }
    );
    assert_eq!(engine.receive_frame(), Receive::Deliver(placement));
    assert_eq!(engine.stream_position(), Some(target));
    assert_eq!(engine.receive_frame(), Receive::Decode);
}

#[test]
fn accurate_seek_fails_on_frames_without_timestamps() {
    let mut engine = engine();
    let target = Duration::from_millis(10);
    engine.seek(target, SeekMode::Accurate);
    let untimed = found(engine.decode_step(
        target,
        DecodeEvent::Frame(timing(ffmpeg_audio::AV_NOPTS_VALUE)),
    ));
    assert!(matches!(
        engine.finish_accurate_seek(target, Some(untimed)),
        Err(AudioError::InvalidData(_))
    ));
    assert!(engine.finish_accurate_seek(target, None).is_ok());
}

#[test]
fn a_scan_leaves_reading_where_it_stood() {
    let mut engine = engine();
    let first = found(engine.decode_step(Duration::zero(), DecodeEvent::Frame(timing(0))));
    engine.deliver(first);
    let second = found(engine.decode_step(Duration::zero(), DecodeEvent::Frame(timing(1_024))));
    engine.deliver(second);
    let saved = engine.cursor();

    // The scan reads the whole stream from the start.
    engine.seek(Duration::zero(), SeekMode::Coarse);
    let mut scan = DurationScan::new();
    for pts in [0, 1_024, 2_048] {
        let frame = found(engine.decode_step(Duration::zero(), DecodeEvent::Frame(timing(pts))));
        engine.deliver(frame);
        scan.add_frame(&frame);
    }
    assert_eq!(scan.result(ScanMode::Frame), Some(Duration::from_nanos(64_000_000)));

    // Resuming continues after the second frame.
    let Resume::After { raw_pts, next } = saved.resume() else {
        panic!("reading resumes after the last frame");
    };
    assert_eq!(raw_pts, 1_024);
    engine.seek(next, SeekMode::Coarse);
    let again = found(engine.decode_step(Duration::zero(), DecodeEvent::Frame(timing(1_024))));
    assert!(!engine.accept_after(raw_pts, next, again));
    let third = found(engine.decode_step(Duration::zero(), DecodeEvent::Frame(timing(2_048))));
    assert!(engine.accept_after(raw_pts, next, third));
    engine.finish_restore(saved);

    assert_eq!(engine.stream_position(), saved.stream_position());
    assert_eq!(engine.cursor().resume(), saved.resume());
    assert_eq!(engine.receive_frame(), Receive::Deliver(third));
}

#[test]
fn restoring_an_exhausted_stream_takes_it_back_as_it_was() {
    let mut engine = engine();
    engine.decode_step(Duration::zero(), DecodeEvent::Drained);
    let saved = engine.cursor();
    engine.seek(Duration::zero(), SeekMode::Coarse);
    engine.finish_restore(saved);
    assert_eq!(engine.cursor(), saved);
    assert_eq!(engine.receive_frame(), Receive::Finished);
}

#[test]
fn packet_scan_reports_the_latest_packet_end() {
    let engine = DecodeEngine::new(Rational { num: 1, den: 44_100 }, 0).unwrap();
    let timeline = engine.timeline();
    let mut scan = DurationScan::new();
    assert_eq!(scan.result(ScanMode::Packet), None);
    // Packets out of order, one without a timestamp: a 2 s stream ends exactly at 2 s.
    for (pts, duration) in [(84_672, 3_528), (0, 4_410), (ffmpeg_audio::AV_NOPTS_VALUE, 10)] {
        scan.add_packet(&timeline, pts, duration);
    }
    assert_eq!(scan.result(ScanMode::Packet), Some(Duration::from_secs(2)));
}

#[test]
fn frame_scan_falls_back_to_the_total_duration() {
    let timeline = ffmpeg_audio::Timeline::new(Rational { num: 1, den: RATE }, 0).unwrap();
    let untimed = timeline
        .place(timing(ffmpeg_audio::AV_NOPTS_VALUE), Duration::zero())
        .unwrap();
    let mut scan = DurationScan::new();
    assert_eq!(scan.result(ScanMode::Frame), None);
    scan.add_frame(&untimed);
    scan.add_frame(&untimed);
    assert_eq!(scan.result(ScanMode::Frame), Some(Duration::from_nanos(42_666_666)));
    assert_eq!(scan.result(ScanMode::Packet), None);
}

#[test]
fn engine_declared_duration_comes_from_the_stream_or_the_container() {
    let engine = DecodeEngine::new(Rational { num: 1, den: 44_100 }, 0).unwrap();
    assert_eq!(engine.declared_duration(44_100, 5), Some(Duration::from_secs(1)));
    assert_eq!(engine.declared_duration(-1, 5), Some(Duration::from_micros(5)));
    assert_eq!(engine.declared_duration(-1, -1), None);
}
