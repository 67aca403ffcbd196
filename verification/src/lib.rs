//! Timestamp arithmetic and reading state of an audio decoding engine.
pub mod arith;
pub mod cursor;
pub mod engine;
pub mod error;
pub mod frame;
pub mod info;
pub mod resampler;
pub mod text;
pub mod time;
pub mod timeline;

pub use cursor::{ReadCursor, Resume, SeekMode};
pub use engine::{DecodeAction, DecodeEngine, DecodeEvent, DurationScan, Receive, ScanMode, SeekStep};
pub use error::AudioError;
pub use frame::{AudioFrame, RawAudioData, RawLayout};
pub use info::{AudioCover, SourceAudioInfo};
pub use resampler::ResampleOptions;
pub use time::Duration;
pub use timeline::{FramePlacement, FrameTiming, Rational, Timeline, AV_NOPTS_VALUE};
