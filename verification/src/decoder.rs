use vstd::prelude::*;

verus! {

/// Why caller-supplied interleaved samples were refused.
#[derive(Eq, PartialEq, Structural, Clone, Copy, Debug)]
pub enum PcmError {
    ZeroFrames,
    ZeroChannels,
    ZeroSampleRate,
    SampleCountOverflow,
    LengthMismatch,
}

/// The outcome of checking interleaved samples: the sample count, or the
/// first of the checks (in this order) that fails.
pub open spec fn spec_validate_interleaved(
    data_len: int,
    frames_count: int,
    channel_count: int,
    sample_rate: int,
) -> Result<usize, PcmError> {
    if frames_count == 0 {
        Err(PcmError::ZeroFrames)
    } else if channel_count == 0 {
        Err(PcmError::ZeroChannels)
    } else if sample_rate == 0 {
        Err(PcmError::ZeroSampleRate)
    } else if frames_count * channel_count > usize::MAX {
        Err(PcmError::SampleCountOverflow)
    } else if data_len != frames_count * channel_count {
        Err(PcmError::LengthMismatch)
    } else {
        Ok((frames_count * channel_count) as usize)
    }
}

/// Checks that `data_len` interleaved samples make `frames_count` whole
/// frames of `channel_count` channels at a nonzero `sample_rate`.
pub fn validate_interleaved(
    data_len: usize,
    frames_count: usize,
    channel_count: usize,
    sample_rate: u32,
) -> (r: Result<usize, PcmError>)
    ensures
        r == spec_validate_interleaved(
            data_len as int,
            frames_count as int,
            channel_count as int,
            sample_rate as int,
        ),
{
    if frames_count == 0 {
        return Err(PcmError::ZeroFrames);
    }
    if channel_count == 0 {
        return Err(PcmError::ZeroChannels);
    }
    if sample_rate == 0 {
        return Err(PcmError::ZeroSampleRate);
    }
    let sample_count = match frames_count.checked_mul(channel_count) {
        Some(n) => n,
        None => {
            return Err(PcmError::SampleCountOverflow);
        },
    };
    if data_len != sample_count {
        return Err(PcmError::LengthMismatch);
    }
    Ok(sample_count)
}

/// What the decoder needs to know of a track of a probed container.
#[derive(Eq, PartialEq, Structural, Clone, Copy, Debug)]
pub struct TrackSummary {
    pub id: u32,
    pub has_codec: bool,
    pub sample_rate: Option<u32>,
}

/// Whether the track can be decoded: it names a codec and a sample rate.
pub open spec fn decodable(track: TrackSummary) -> bool {
    track.has_codec && track.sample_rate is Some
}

/// The index of the first decodable track, if any.
pub fn select_track(tracks: &Vec<TrackSummary>) -> (index: Option<usize>)
    ensures
        index is None ==> forall|k: int| 0 <= k < tracks.len() ==> !decodable(#[trigger] tracks@[k]),
        index matches Some(i) ==> {
            &&& i < tracks.len()
            &&& decodable(tracks@[i as int])
            &&& forall|k: int| 0 <= k < i ==> !decodable(#[trigger] tracks@[k])
        },
{
    let mut i: usize = 0;
    while i < tracks.len()
        invariant
            i <= tracks.len(),
            forall|k: int| 0 <= k < i ==> !decodable(#[trigger] tracks@[k]),
        decreases tracks.len() - i,
    {
        let track = tracks[i];
        if track.has_codec && track.sample_rate.is_some() {
            return Some(i);
        }
        i = i + 1;
    }
    None
}

/// Why a decoded stream was refused.
#[derive(Eq, PartialEq, Structural, Clone, Copy, Debug)]
pub enum DecodeError {
    InconsistentChannels,
    EmptyStream,
    ZeroChannels,
    MisalignedSamples,
}

/// The shape of a fully decoded stream.
#[derive(Eq, PartialEq, Structural, Clone, Copy, Debug)]
pub struct DecodedShape {
    pub frames_count: usize,
    pub channel_count: usize,
}

/// What has been decoded so far: the channel count of the first decoded
/// buffer, and how many interleaved samples have been collected.
pub struct DecodeProgress {
    channel_count: Option<usize>,
    sample_count: usize,
}

impl DecodeProgress {
    pub closed spec fn spec_channel_count(self) -> Option<usize> {
        self.channel_count
    }

    pub closed spec fn spec_sample_count(self) -> int {
        self.sample_count as int
    }

    /// Samples are collected in whole frames of the stream's channel count.
    pub open spec fn wf(self) -> bool {
        &&& 0 <= self.spec_sample_count() <= usize::MAX
        &&& match self.spec_channel_count() {
            None => self.spec_sample_count() == 0,
            Some(c) => if c == 0 {
                self.spec_sample_count() == 0
            } else {
                self.spec_sample_count() % (c as int) == 0
            },
        }
    }

    /// Nothing decoded yet.
    pub fn new() -> (progress: Self)
        ensures
            progress.wf(),
            progress.spec_channel_count() is None,
            progress.spec_sample_count() == 0,
    {
        DecodeProgress { channel_count: None, sample_count: 0 }
    }

    /// Interleaved samples collected so far.
    pub fn sample_count(&self) -> (n: usize)
        ensures
            n == self.spec_sample_count(),
    {
        self.sample_count
    }

    /// Records a decoded buffer of `frames` frames in `channels` channels.
    /// Refused, with nothing recorded, when an earlier buffer had another
    /// channel count.
    pub fn record_buffer(&mut self, channels: usize, frames: usize) -> (r: Result<(), DecodeError>)
        requires
            old(self).wf(),
            old(self).spec_sample_count() + frames * channels <= usize::MAX,
        ensures
            final(self).wf(),
            r is Err <==> (old(self).spec_channel_count() matches Some(c) && c != channels),
            r is Err ==> r == Err::<(), DecodeError>(DecodeError::InconsistentChannels)
                && *final(self) == *old(self),
            r is Ok ==> final(self).spec_channel_count() == Some(channels)
                && final(self).spec_sample_count() == old(self).spec_sample_count() + frames
                * channels,
    {
        if let Some(expected) = self.channel_count {
            if expected != channels {
                return Err(DecodeError::InconsistentChannels);
            }
        }
        let ghost before = self.sample_count as int;
        assert(0 <= frames * channels) by (nonlinear_arith);
        self.channel_count = Some(channels);
        self.sample_count = self.sample_count + frames * channels;
        proof {
            if channels > 0 {
                let c = channels as int;
                if before == 0 {
                    vstd::arithmetic::div_mod::lemma_small_mod(0, c as nat);
                }
                assert(before % c == 0);
                vstd::arithmetic::div_mod::lemma_mod_multiples_basic(frames as int, c);
                vstd::arithmetic::div_mod::lemma_add_mod_noop(before, frames as int * c, c);
            }
        }
        Ok(())
    }

    /// The stream's shape once every packet is decoded: refused when no
    /// buffer was decoded, when the channel count is zero, or when the
    /// samples do not make whole frames.
    pub fn finish(&self) -> (r: Result<DecodedShape, DecodeError>)
        requires
            self.wf(),
        ensures
            match self.spec_channel_count() {
                None => r == Err::<DecodedShape, DecodeError>(DecodeError::EmptyStream),
                Some(c) => if c == 0 {
                    r == Err::<DecodedShape, DecodeError>(DecodeError::ZeroChannels)
                } else {
                    r == Ok::<DecodedShape, DecodeError>(
                        DecodedShape {
                            frames_count: (self.spec_sample_count() / c as int) as usize,
                            channel_count: c,
                        },
                    )
                },
            },
    {
        let channel_count = match self.channel_count {
            Some(c) => c,
            None => {
                return Err(DecodeError::EmptyStream);
            },
        };
        if channel_count == 0 {
            return Err(DecodeError::ZeroChannels);
        }
        if self.sample_count % channel_count != 0 {
            return Err(DecodeError::MisalignedSamples);
        }
        Ok(DecodedShape { frames_count: self.sample_count / channel_count, channel_count })
    }
}

} // verus!
