//! Configuration of the conversion of decoded audio to the sample rate, channel count and sample
//! format a caller wants.
use vstd::prelude::*;

use crate::error::AudioError;

verus! {

/// FFmpeg's number for packed 32-bit float samples.
pub const AV_SAMPLE_FMT_FLT: i32 = 3;

/// Room for the samples one conversion yields.
#[derive(Debug, Clone, Copy, PartialEq, Eq, Structural)]
pub struct OutputSize {
    /// Number of samples over all channels.
    pub samples: usize,
    /// Number of 8-byte words of buffer that hold them.
    pub words: usize,
}

/// Configuration options for the audio resampler.
///
/// Use the builder pattern to construct resampling parameters such as
/// target sample rate, number of channels, and audio data format.
#[derive(Debug, Clone, Copy, PartialEq, Eq, Structural)]
pub struct ResampleOptions {
    pub target_sample_rate: i32,
    pub target_channels: i32,
    /// FFmpeg's number for the target sample format.
    pub target_sample_fmt: i32,
}

impl Default for ResampleOptions {
    fn default() -> (o: ResampleOptions)
        ensures
            o == (ResampleOptions {
                target_sample_rate: 44100,
                target_channels: 2,
                target_sample_fmt: AV_SAMPLE_FMT_FLT,
            }),
    {
        ResampleOptions {
            target_sample_rate: 44100,
            target_channels: 2,
            target_sample_fmt: AV_SAMPLE_FMT_FLT,
        }
    }
}

impl ResampleOptions {
    /// Creates a new [`ResampleOptions`] builder with default settings
    /// (44100 Hz, Stereo, 32-bit Float).
    pub fn new() -> (o: ResampleOptions)
        ensures
            o == (ResampleOptions {
                target_sample_rate: 44100,
                target_channels: 2,
                target_sample_fmt: AV_SAMPLE_FMT_FLT,
            }),
    {
        ResampleOptions::default()
    }

    /// Validate the configuration.
    pub fn validate(&self) -> (r: Result<(), AudioError>)
        ensures
            r is Ok <==> self.target_sample_rate > 0 && self.target_channels > 0,
            self.target_sample_rate <= 0 ==> (r matches Err(AudioError::InvalidParameter(m))
                && m@ == "Target sample rate must be greater than 0"@),
            self.target_sample_rate > 0 && self.target_channels <= 0 ==> (r matches Err(
                AudioError::InvalidParameter(m),
            ) && m@ == "Target channels must be greater than 0"@),
    {
        if self.target_sample_rate <= 0 {
            return Err(
                AudioError::InvalidParameter("Target sample rate must be greater than 0".to_owned()),
            );
        }
        if self.target_channels <= 0 {
            return Err(
                AudioError::InvalidParameter("Target channels must be greater than 0".to_owned()),
            );
        }
        Ok(())
    }

    /// Checks that samples in `sample_fmt` are the ones this configuration converts to.
    pub fn check_format(&self, sample_fmt: i32) -> (r: Result<(), AudioError>)
        ensures
            r is Ok <==> sample_fmt == self.target_sample_fmt,
            r matches Err(e) ==> e is FormatMismatch,
    {
        if sample_fmt != self.target_sample_fmt {
            return Err(AudioError::FormatMismatch);
        }
        Ok(())
    }

    /// The room needed for a conversion that the resampler expects to yield
    /// `expected_out_samples` samples per channel, each `sample_size` bytes wide; `None` where it
    /// expects none, and more input is needed first.
    pub fn output_size(&self, expected_out_samples: i32, sample_size: usize) -> (r: Option<
        OutputSize,
    >)
        requires
            self.target_channels > 0,
            sample_size > 0,
            expected_out_samples * self.target_channels * sample_size <= usize::MAX,
        ensures
            expected_out_samples <= 0 <==> r is None,
            r matches Some(size) ==> {
                &&& size.samples == expected_out_samples * self.target_channels
                &&& size.words * 8 >= size.samples * sample_size
                &&& (size.words - 1) * 8 < size.samples * sample_size
            },
    {
        if expected_out_samples <= 0 {
            return None;
        }
        let channels = self.target_channels as usize;
        let expected = expected_out_samples as usize;
        proof {
            assert(expected * channels <= expected * channels * sample_size) by (nonlinear_arith)
                requires
                    expected >= 1,
                    channels >= 1,
                    sample_size >= 1,
            ;
        }
        let samples = expected * channels;
        let bytes = samples * sample_size;
        let words = bytes / 8 + if bytes % 8 != 0 {
            1usize
        } else {
            0usize
        };
        Some(OutputSize { samples, words })
    }

    /// The number of samples over all channels in `converted` samples per channel.
    pub fn output_samples(&self, converted: i32) -> (n: usize)
        requires
            self.target_channels > 0,
            converted >= 0,
            converted * self.target_channels <= usize::MAX,
        ensures
            n == converted * self.target_channels,
    {
        converted as usize * self.target_channels as usize
    }

    /// Sets the target sample rate (in Hz).
    pub fn sample_rate(self, rate: i32) -> (o: ResampleOptions)
        ensures
            o == (ResampleOptions { target_sample_rate: rate, ..self }),
    {
        ResampleOptions { target_sample_rate: rate, ..self }
    }

    /// Sets the target number of audio channels.
    ///
    /// For example, `1` for Mono, `2` for Stereo.
    pub fn channels(self, channels: i32) -> (o: ResampleOptions)
        ensures
            o == (ResampleOptions { target_channels: channels, ..self }),
    {
        ResampleOptions { target_channels: channels, ..self }
    }

    /// Sets the target audio sample format, by FFmpeg's number for it.
    pub fn format(self, sample_fmt: i32) -> (o: ResampleOptions)
        ensures
            o == (ResampleOptions { target_sample_fmt: sample_fmt, ..self }),
    {
        ResampleOptions { target_sample_fmt: sample_fmt, ..self }
    }
}

} // verus!
