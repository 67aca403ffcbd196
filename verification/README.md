# ffmpeg_audio

The timestamp arithmetic and reading state of a small FFmpeg audio decoder, verified with Verus.

- `src/time.rs` — durations in whole nanoseconds.
- `src/arith.rs` — floor and ceiling division on `i128`.
- `src/text.rs` — decimal text of integers, for error messages.
- `src/timeline.rs` — the mapping from raw stream timestamps to the public timeline: trimming
  decoded frames to a requested time, seek timestamps, packet end times, declared durations.
- `src/cursor.rs` — where reading stands: the reported stream position and how to resume reading
  after the stream has been scanned.
- `src/engine.rs` — the decisions of the decode engine, one answer of the demuxer or decoder at a
  time, and the accumulation of a duration scan.
- `src/frame.rs`, `src/info.rs`, `src/resampler.rs` — decoded frames and their samples, stream
  information and resampling options.
- `app/` — drives the engine against any demuxer and decoder that implement `MediaBackend`.
