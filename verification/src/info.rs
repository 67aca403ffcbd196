//! What the library reports about a source: its audio stream and its cover art.
use vstd::prelude::*;

verus! {

/// Cover art embedded in a source.
#[derive(Debug, Clone)]
pub struct AudioCover {
    pub data: Vec<u8>,
    pub mime_type: Option<String>,
}

/// What the source's audio stream is.
#[derive(Debug, Clone)]
pub struct SourceAudioInfo {
    pub sample_rate: i32,
    pub channels: i32,
    pub bit_rate: i64,
    pub sample_fmt: String,
    pub codec_name: String,
    /// The bit depth of the source: a 24-bit FLAC stream decodes to 32-bit samples, yet this
    /// stays 24.
    pub bits_per_sample: i32,
}

/// The name reported where FFmpeg knows none.
pub open spec fn name_or_unknown(name: Option<String>) -> Seq<char> {
    match name {
        Some(n) => n@,
        None => "unknown"@,
    }
}

impl SourceAudioInfo {
    /// Describes a stream from what the decoder and the demuxer report: the stream's own bit
    /// rate when it is known (positive), otherwise the container's; the raw bit depth when it is
    /// known (positive), otherwise the coded one; and "unknown" for a codec or sample format
    /// without a name.
    pub fn describe(
        sample_rate: i32,
        channels: i32,
        stream_bit_rate: i64,
        container_bit_rate: i64,
        sample_fmt: Option<String>,
        codec_name: Option<String>,
        bits_per_raw_sample: i32,
        bits_per_coded_sample: i32,
    ) -> (info: SourceAudioInfo)
        ensures
            info.sample_rate == sample_rate,
            info.channels == channels,
            info.bit_rate == if stream_bit_rate > 0 {
                stream_bit_rate
            } else {
                container_bit_rate
            },
            info.sample_fmt@ == name_or_unknown(sample_fmt),
            info.codec_name@ == name_or_unknown(codec_name),
            info.bits_per_sample == if bits_per_raw_sample > 0 {
                bits_per_raw_sample
            } else {
                bits_per_coded_sample
            },
    {
        let sample_fmt = match sample_fmt {
            Some(name) => name,
            None => "unknown".to_owned(),
        };
        let codec_name = match codec_name {
            Some(name) => name,
            None => "unknown".to_owned(),
        };
        SourceAudioInfo {
            sample_rate,
            channels,
            bit_rate: if stream_bit_rate > 0 {
                stream_bit_rate
            } else {
                container_bit_rate
            },
            sample_fmt,
            codec_name,
            bits_per_sample: if bits_per_raw_sample > 0 {
                bits_per_raw_sample
            } else {
                bits_per_coded_sample
            },
        }
    }
}

} // verus!
