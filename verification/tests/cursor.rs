use ffmpeg_audio::cursor::{ReadCursor, Resume, SeekMode};
use ffmpeg_audio::time::Duration;
use ffmpeg_audio::timeline::{FramePlacement, FrameTiming, Rational, Timeline, AV_NOPTS_VALUE};

const RATE: i32 = 48_000;

/// Duration of the 1024-sample frames built by [`frame`].
fn frame_len() -> Duration {
    Duration::from_nanos(21_333_333)
}

fn coarse_500() -> Resume {
    Resume::Seek {
        target: Duration::from_millis(500),
        mode: SeekMode::Coarse,
    }
}

fn accurate_500() -> Resume {
    Resume::Seek {
        target: Duration::from_millis(500),
        mode: SeekMode::Accurate,
    }
}

/// A 1024-sample frame at 48 kHz whose raw timestamp counts samples, or has no timestamp.
fn frame(raw_pts: Option<i64>) -> FramePlacement {
    let timeline = Timeline::new(Rational { num: 1, den: RATE }, 0).unwrap();
    let timing = FrameTiming {
        pts: raw_pts.unwrap_or(AV_NOPTS_VALUE),
        samples: 1_024,
        sample_rate: RATE,
    };
    timeline.place(timing, Duration::zero()).unwrap()
}

#[derive(Debug, Clone, Copy)]
enum Event {
    CoarseSeek(Duration),
    Pending(Resume, FramePlacement),
    Deliver(FramePlacement),
    Exhaust,
    RestorePosition(Option<Duration>),
}

fn cursor_after(events: &[Event]) -> ReadCursor {
    let mut cursor = ReadCursor::default();
    for &event in events {
        match event {
            Event::CoarseSeek(target) => cursor.record_coarse_seek(target),
            Event::Pending(resume, frame) => cursor.record_pending(resume, frame),
            Event::Deliver(frame) => cursor.record_delivery(frame),
            Event::Exhaust => cursor.record_exhaustion(),
            Event::RestorePosition(position) => cursor.restore_position(position),
        }
    }
    cursor
}

#[test]
fn reports_the_stream_position_and_how_to_resume() {
    let first = frame(Some(0));
    let second = frame(Some(1_024));
    let after_second = Resume::After {
        raw_pts: 1_024,
        next: second.end().unwrap(),
    };

    // (situation, events, stream position, resume)
    let cases = [
        (
            "start",
            vec![],
            None,
            Resume::Seek {
                target: Duration::zero(),
                mode: SeekMode::Coarse,
            },
        ),
        (
            "coarse seek",
            vec![Event::CoarseSeek(Duration::from_millis(500))],
            None,
            coarse_500(),
        ),
        (
            "accurate seek",
            vec![Event::Pending(accurate_500(), second)],
            None,
            accurate_500(),
        ),
        (
            "reading",
            vec![Event::Deliver(first), Event::Deliver(second)],
            second.pts(),
            after_second,
        ),
        (
            "reading after an accurate seek",
            vec![Event::Pending(accurate_500(), second), Event::Deliver(second)],
            second.pts(),
            after_second,
        ),
        (
            "exhausted while reading",
            vec![Event::Deliver(first), Event::Exhaust],
            first.pts(),
            Resume::Exhausted,
        ),
        (
            "exhausted right after a seek",
            vec![Event::CoarseSeek(Duration::from_millis(500)), Event::Exhaust],
            None,
            Resume::Exhausted,
        ),
        (
            "restored after a scan",
            vec![
                Event::Deliver(first),
                Event::CoarseSeek(Duration::from_millis(500)),
                Event::RestorePosition(first.pts()),
            ],
            first.pts(),
            coarse_500(),
        ),
        (
            "delivery after a restored position",
            vec![
                Event::CoarseSeek(Duration::from_millis(500)),
                Event::RestorePosition(first.pts()),
                Event::Deliver(second),
            ],
            second.pts(),
            after_second,
        ),
    ];

    for (situation, events, position, resume) in cases {
        let cursor = cursor_after(&events);
        assert_eq!(cursor.stream_position(), position, "{situation}");
        assert_eq!(cursor.resume(), resume, "{situation}");
        assert_eq!(
            cursor.is_exhausted(),
            resume == Resume::Exhausted,
            "{situation}"
        );
    }
}

#[test]
fn frames_without_timestamps_advance_the_last_known_position() {
    let untimed = frame(None);
    let timed = frame(Some(0));

    // (situation, events, resume)
    let cases = [
        (
            "from the start",
            vec![Event::Deliver(untimed), Event::Deliver(untimed)],
            Resume::Seek {
                target: frame_len().saturating_add(frame_len()),
                mode: SeekMode::Accurate,
            },
        ),
        (
            "after a frame with a timestamp",
            vec![Event::Deliver(timed), Event::Deliver(untimed)],
            Resume::Seek {
                target: timed.end().unwrap().saturating_add(frame_len()),
                mode: SeekMode::Accurate,
            },
        ),
        (
            "as the pending frame",
            vec![
                Event::Pending(
                    Resume::After {
                        raw_pts: 0,
                        next: frame_len(),
                    },
                    untimed,
                ),
                Event::Deliver(untimed),
            ],
            Resume::Seek {
                target: frame_len().saturating_add(frame_len()),
                mode: SeekMode::Accurate,
            },
        ),
        // Where a coarse seek landed is unknown, so resuming repeats the seek.
        (
            "after a coarse seek",
            vec![Event::CoarseSeek(Duration::from_millis(500)), Event::Deliver(untimed)],
            coarse_500(),
        ),
    ];

    for (situation, events, resume) in cases {
        let cursor = cursor_after(&events);
        assert_eq!(cursor.stream_position(), None, "{situation}");
        assert_eq!(cursor.resume(), resume, "{situation}");
    }
}

#[test]
fn delivering_the_pending_frame_clears_it() {
    for pending in [frame(Some(1_024)), frame(None)] {
        let resume = Resume::After {
            raw_pts: 0,
            next: frame_len(),
        };
        let mut cursor = cursor_after(&[Event::Pending(resume, pending)]);
        assert_eq!(cursor.pending(), Some(pending));

        cursor.record_delivery(pending);
        assert_eq!(cursor.pending(), None, "{pending:?}");
    }
}
