//! Decoded frames as the library hands them out: where they land on the public timeline, and
//! where their samples lie in the decoder's buffers.
use vstd::prelude::*;

use crate::error::AudioError;
use crate::time::Duration;
use crate::timeline::{FramePlacement, FrameTiming};

verus! {

/// A decoded audio frame, as placed on the public timeline.
#[derive(Debug, Clone, Copy, PartialEq, Eq, Structural)]
pub struct AudioFrame {
    placement: FramePlacement,
}

/// The delivered samples of a frame, as slices of the decoder's buffers.
#[derive(Debug, Clone)]
pub enum RawAudioData<'a, T> {
    /// Packed (interleaved) layout: all channels in one slice, e.g. `[L, R, L, R]`.
    Packed(&'a [T]),
    /// Planar layout: one slice per channel, e.g. `[L, L]` and `[R, R]`.
    Planar(Vec<&'a [T]>),
}

/// Where the delivered samples of a frame lie, counted in samples from the start of the
/// decoder's buffers.
#[derive(Debug, Clone, Copy, PartialEq, Eq, Structural)]
pub enum RawLayout {
    /// All channels are interleaved in one buffer; the delivered samples are the `len`
    /// values starting at `start`.
    Packed { start: usize, len: usize },
    /// Each of the `planes` channels has its own buffer; the delivered samples of each are the
    /// `len` values starting at `start`.
    Planar { planes: usize, start: usize, len: usize },
}

/// The timing FFmpeg reported for a decoded frame with presentation timestamp `pts`,
/// `nb_samples` samples per channel (a negative count meaning none) and `sample_rate`.
pub fn frame_timing(pts: i64, nb_samples: i32, sample_rate: i32) -> (t: FrameTiming)
    ensures
        t.pts == pts,
        t.samples == if nb_samples > 0 {
            nb_samples as int
        } else {
            0
        },
        t.sample_rate == sample_rate,
{
    let samples: usize = if nb_samples > 0 {
        nb_samples as usize
    } else {
        0
    };
    FrameTiming { pts, samples, sample_rate }
}

impl AudioFrame {
    /// Where this frame lands on the public timeline.
    pub closed spec fn placement_spec(self) -> FramePlacement {
        self.placement
    }

    /// Wraps a decoded frame that lands at `placement`.
    pub fn new(placement: FramePlacement) -> (f: AudioFrame)
        ensures
            f.placement_spec() == placement,
    {
        AudioFrame { placement }
    }

    /// Where this frame lands on the public timeline.
    pub fn placement(&self) -> (r: FramePlacement)
        ensures
            r == self.placement_spec(),
    {
        self.placement
    }

    /// Returns the number of available audio samples (per channel) contained in this frame.
    ///
    /// For example, if a stereo frame contains 1024 samples and has an offset of 100,
    /// this will return `924`.
    pub fn samples(&self) -> (r: usize)
        ensures
            r == self.placement_spec().samples_spec(),
    {
        self.placement.samples()
    }

    /// Returns the offset applied to the beginning of the frame's payload.
    pub fn offset(&self) -> (r: usize)
        ensures
            r == self.placement_spec().offset_spec(),
    {
        self.placement.offset()
    }

    /// Returns the precise playback duration of this audio frame, rounded down to whole
    /// nanoseconds.
    pub fn duration(&self) -> (r: Duration)
        ensures
            r == self.placement_spec().duration_spec(),
    {
        self.placement.duration()
    }

    /// Returns the position of this frame's first sample on the public timeline, rounded down to
    /// whole nanoseconds; `None` if the frame has no timestamp.
    ///
    /// Samples trimmed from the beginning of the frame (preroll, or samples before a seek
    /// target) are already accounted for.
    pub fn pts(&self) -> (r: Option<Duration>)
        ensures
            r == self.placement_spec().pts_spec(),
    {
        self.placement.pts()
    }

    /// Returns the public time right after this frame's last sample, if the frame has a PTS.
    pub fn end(&self) -> (r: Option<Duration>)
        ensures
            r == self.placement_spec().end_spec(),
    {
        self.placement.end()
    }

    /// Locates the delivered samples of this frame in the decoder's buffers, where the frame's
    /// data is in `sample_fmt`, `channels` channels wide, and samples of the requested type are
    /// in `packed_format` when interleaved and in `planar_format` when planar.
    ///
    /// Fails with `FormatMismatch` when the data is in neither format. Without delivered samples
    /// or without data, the layout is empty.
    pub fn raw_layout(
        &self,
        sample_fmt: i32,
        packed_format: i32,
        planar_format: i32,
        channels: usize,
        has_data: bool,
    ) -> (r: Result<RawLayout, AudioError>)
        requires
            sample_fmt == packed_format && has_data && self.placement_spec().samples_spec() > 0 ==> (
            self.placement_spec().offset_spec() + self.placement_spec().samples_spec()) * channels
                <= usize::MAX,
        ensures
            sample_fmt != packed_format && sample_fmt != planar_format <==> r is Err,
            r matches Err(e) ==> e is FormatMismatch,
            r matches Ok(layout) ==> {
                let empty = self.placement_spec().samples_spec() == 0 || !has_data;
                let offset = self.placement_spec().offset_spec();
                let samples = self.placement_spec().samples_spec();
                if sample_fmt == packed_format {
                    layout == if empty {
                        RawLayout::Packed { start: 0, len: 0 }
                    } else {
                        RawLayout::Packed {
                            start: (offset * channels) as usize,
                            len: (samples * channels) as usize,
                        }
                    }
                } else {
                    layout == if empty {
                        RawLayout::Planar { planes: channels, start: 0, len: 0 }
                    } else {
                        RawLayout::Planar { planes: channels, start: offset, len: samples }
                    }
                }
            },
    {
        let is_packed = sample_fmt == packed_format;
        let is_planar = sample_fmt == planar_format;
        if !is_packed && !is_planar {
            return Err(AudioError::FormatMismatch);
        }
        let samples = self.placement.samples();
        let offset = self.placement.offset();
        if samples == 0 || !has_data {
            return if is_packed {
                Ok(RawLayout::Packed { start: 0, len: 0 })
            } else {
                Ok(RawLayout::Planar { planes: channels, start: 0, len: 0 })
            };
        }
        if is_packed {
            proof {
                assert(offset * channels <= (offset + samples) * channels) by (nonlinear_arith);
                assert(samples * channels <= (offset + samples) * channels) by (nonlinear_arith);
            }
            Ok(RawLayout::Packed { start: offset * channels, len: samples * channels })
        } else {
            Ok(RawLayout::Planar { planes: channels, start: offset, len: samples })
        }
    }

    /// The delivered samples of this frame, cut out of its buffers `data`: the one interleaved
    /// buffer where the data is packed, one buffer per channel where it is planar, none where
    /// the frame holds no data. The data is in `sample_fmt`, `channels` channels wide, and
    /// samples of type `T` are in `packed_format` when interleaved and in `planar_format` when
    /// planar.
    ///
    /// Fails with `FormatMismatch` when the data is in neither format. The samples trimmed from
    /// the start of the frame are never exposed.
    pub fn raw_data<'a, T>(
        &self,
        sample_fmt: i32,
        packed_format: i32,
        planar_format: i32,
        channels: usize,
        data: &[&'a [T]],
    ) -> (r: Result<RawAudioData<'a, T>, AudioError>)
        requires
            sample_fmt == packed_format && data@.len() > 0 ==> (self.placement_spec().offset_spec()
                + self.placement_spec().samples_spec()) * channels <= data@[0]@.len(),
            sample_fmt == planar_format && sample_fmt != packed_format && data@.len() > 0 ==> {
                &&& channels <= data@.len()
                &&& forall|c: int|
                    0 <= c < channels ==> self.placement_spec().offset_spec()
                        + self.placement_spec().samples_spec() <= #[trigger] data@[c]@.len()
            },
        ensures
            sample_fmt != packed_format && sample_fmt != planar_format <==> r is Err,
            r matches Err(e) ==> e is FormatMismatch,
            r matches Ok(raw) ==> {
                let empty = self.placement_spec().samples_spec() == 0 || data@.len() == 0;
                let k = self.placement_spec().offset_spec() as int;
                let n = self.placement_spec().samples_spec() as int;
                if sample_fmt == packed_format {
                    raw matches RawAudioData::Packed(s) && if empty {
                        s@.len() == 0
                    } else {
                        s@ == data@[0]@.subrange(k * channels, (k + n) * channels)
                    }
                } else {
                    raw matches RawAudioData::Planar(v) && v@.len() == channels && forall|c: int|
                        0 <= c < channels ==> if empty {
                            (#[trigger] v@[c])@.len() == 0
                        } else {
                            v@[c]@ == data@[c]@.subrange(k, k + n)
                        }
                }
            },
    {
        proof {
            if data@.len() > 0 {
                assert(data@[0].len() == data@[0]@.len());
            }
        }
        let layout = self.raw_layout(
            sample_fmt,
            packed_format,
            planar_format,
            channels,
            data.len() > 0,
        )?;
        match layout {
            RawLayout::Packed { start, len } => {
                proof {
                    if data@.len() > 0 {
                        let k = self.placement_spec().offset_spec() as int;
                        let n = self.placement_spec().samples_spec() as int;
                        assert(k * channels <= (k + n) * channels && n * channels <= (k + n)
                            * channels) by (nonlinear_arith)
                            requires
                                k >= 0,
                                n >= 0,
                                channels >= 0,
                        ;
                    }
                }
                if len == 0 {
                    let empty: &'a [T] = &[];
                    proof {
                        if data@.len() > 0 && self.placement_spec().samples_spec() > 0 {
                            let k = self.placement_spec().offset_spec() as int;
                            let n = self.placement_spec().samples_spec() as int;
                            assert(channels == 0) by (nonlinear_arith)
                                requires
                                    len == n * channels,
                                    len == 0,
                                    n > 0,
                            ;
                            assert(k * channels == 0 && (k + n) * channels == 0) by (nonlinear_arith)
                                requires
                                    channels == 0,
                            ;
                            assert(empty@ =~= data@[0]@.subrange(0, 0));
                        }
                    }
                    return Ok(RawAudioData::Packed(empty));
                }
                proof {
                    assert(start + len == (self.placement_spec().offset_spec()
                        + self.placement_spec().samples_spec()) * channels) by (nonlinear_arith)
                        requires
                            start == self.placement_spec().offset_spec() * channels,
                            len == self.placement_spec().samples_spec() * channels,
                    ;
                }
                Ok(RawAudioData::Packed(vstd::slice::slice_subrange(data[0], start, start + len)))
            },
            RawLayout::Planar { planes, start, len } => {
                let mut slices: Vec<&'a [T]> = Vec::new();
                let mut c: usize = 0;
                while c < planes
                    invariant
                        planes == channels,
                        c <= planes,
                        slices@.len() == c,
                        len == 0 || (start == self.placement_spec().offset_spec() && len
                            == self.placement_spec().samples_spec() && data@.len() >= channels
                            && forall|i: int|
                            0 <= i < channels ==> self.placement_spec().offset_spec()
                                + self.placement_spec().samples_spec() <= #[trigger] data@[i]@.len()),
                        forall|i: int|
                            0 <= i < c ==> if len == 0 {
                                (#[trigger] slices@[i])@.len() == 0
                            } else {
                                slices@[i]@ == data@[i]@.subrange(start as int, start + len)
                            },
                    decreases planes - c,
                {
                    if len == 0 {
                        let empty: &'a [T] = &[];
                        slices.push(empty);
                    } else {
                        proof {
                            assert(data@[c as int].len() == data@[c as int]@.len());
                        }
                        slices.push(vstd::slice::slice_subrange(data[c], start, start + len));
                    }
                    c = c + 1;
                }
                Ok(RawAudioData::Planar(slices))
            },
        }
    }
}

} // verus!
