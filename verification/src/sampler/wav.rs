//! Recorded sound, channel by channel.
use vstd::prelude::*;

verus! {

/// `std::io::Error`, why a file could not be read.
#[verifier::external_type_specification]
#[verifier::external_body]
pub struct ExIoError(std::io::Error);

/// `rubato::ResamplerConstructionError`, why no resampler could be made.
#[verifier::external_type_specification]
#[verifier::external_body]
pub struct ExResamplerConstructionError(rubato::ResamplerConstructionError);

/// `rubato::ResampleError`, why a resampler failed.
#[verifier::external_type_specification]
#[verifier::external_body]
pub struct ExResampleError(rubato::ResampleError);

/// What can go wrong with recorded sound.
#[derive(Debug)]
pub enum WavDataError {
    IoError(std::io::Error),
    ResamplerConstructionError(rubato::ResamplerConstructionError),
    ResampleError(rubato::ResampleError),
}

impl From<std::io::Error> for WavDataError {
    fn from(e: std::io::Error) -> (r: Self) {
        WavDataError::IoError(e)
    }
}

impl vstd::std_specs::convert::FromSpecImpl<std::io::Error> for WavDataError {
    open spec fn obeys_from_spec() -> bool {
        true
    }

    open spec fn from_spec(e: std::io::Error) -> Self {
        WavDataError::IoError(e)
    }
}

impl From<rubato::ResamplerConstructionError> for WavDataError {
    fn from(e: rubato::ResamplerConstructionError) -> (r: Self) {
        WavDataError::ResamplerConstructionError(e)
    }
}

impl vstd::std_specs::convert::FromSpecImpl<rubato::ResamplerConstructionError> for WavDataError {
    open spec fn obeys_from_spec() -> bool {
        true
    }

    open spec fn from_spec(e: rubato::ResamplerConstructionError) -> Self {
        WavDataError::ResamplerConstructionError(e)
    }
}

impl From<rubato::ResampleError> for WavDataError {
    fn from(e: rubato::ResampleError) -> (r: Self) {
        WavDataError::ResampleError(e)
    }
}

impl vstd::std_specs::convert::FromSpecImpl<rubato::ResampleError> for WavDataError {
    open spec fn obeys_from_spec() -> bool {
        true
    }

    open spec fn from_spec(e: rubato::ResampleError) -> Self {
        WavDataError::ResampleError(e)
    }
}

/// One channel of recorded sound.
#[derive(Debug)]
pub struct Channel {
    pub samples: Vec<u32>,
}

/// Recorded sound.
#[derive(Debug)]
pub struct WavData {
    pub sample_rate: u16,
    pub channels: Vec<Channel>,
    pub sample_length: usize,
}

/// What recorded sound consists of.
pub struct WavModel {
    pub sample_rate: u16,
    pub channels: Seq<Seq<u32>>,
    pub sample_length: int,
}

impl View for WavData {
    type V = WavModel;

    open spec fn view(&self) -> WavModel {
        WavModel {
            sample_rate: self.sample_rate,
            channels: self.channels@.map_values(|c: Channel| c.samples@),
            sample_length: self.sample_length as int,
        }
    }
}

/// How many whole frames interleaved samples hold.
pub open spec fn frame_count(samples: Seq<u32>, channel_count: int) -> int {
    samples.len() as int / channel_count
}

/// One channel out of interleaved samples, as far as the frames are whole.
pub open spec fn deinterleaved(samples: Seq<u32>, channel_count: int, channel: int) -> Seq<u32> {
    Seq::new(
        frame_count(samples, channel_count) as nat,
        |i: int| samples[i * channel_count + channel],
    )
}

/// Sample `i` of a channel lies within the interleaved samples.
proof fn lemma_in_frame(len: int, channel_count: int, channel: int, i: int)
    requires
        0 <= channel < channel_count,
        0 <= i < len / channel_count,
    ensures
        0 <= i * channel_count + channel < len,
        0 <= i * channel_count <= len,
{
    assert(i * channel_count + channel_count <= (len / channel_count) * channel_count
        && (len / channel_count) * channel_count <= len && 0 <= i * channel_count)
        by (nonlinear_arith)
        requires
            0 < channel_count,
            0 <= i < len / channel_count,
    ;
}

impl WavData {
    /// Parts the channels of samples that are interleaved, and drops a frame that is not whole. Of
    /// the sampling rate the lower 16 bits are kept.
    pub fn from_interleaved(sampling_rate: u32, channel_count: u16, samples: &Vec<u32>) -> (r: Self)
        requires
            channel_count > 0,
        ensures
            r@ == (WavModel {
                sample_rate: (sampling_rate as int % 0x1_0000) as u16,
                channels: Seq::new(
                    channel_count as nat,
                    |c: int| deinterleaved(samples@, channel_count as int, c),
                ),
                sample_length: frame_count(samples@, channel_count as int),
            }),
    {
        let count: usize = channel_count as usize;
        let frames: usize = samples.len() / count;
        let mut channels: Vec<Channel> = Vec::new();
        let mut c: usize = 0;
        while c < count
            invariant
                0 < count == channel_count,
                frames == frame_count(samples@, count as int),
                c <= count,
                channels@.len() == c,
                forall|k: int|
                    0 <= k < c ==> (#[trigger] channels@[k]).samples@ == deinterleaved(
                        samples@,
                        count as int,
                        k,
                    ),
            decreases count - c,
        {
            let mut channel: Vec<u32> = Vec::new();
            let mut i: usize = 0;
            while i < frames
                invariant
                    c < count,
                    frames == frame_count(samples@, count as int),
                    i <= frames,
                    channel@ == deinterleaved(samples@, count as int, c as int).take(i as int),
                decreases frames - i,
            {
                proof {
                    let len = samples.len();
                    lemma_in_frame(len as int, count as int, c as int, i as int);
                }
                channel.push(samples[i * count + c]);
                i += 1;
                assert(channel@ =~= deinterleaved(samples@, count as int, c as int).take(i as int));
            }
            assert(channel@ =~= deinterleaved(samples@, count as int, c as int));
            channels.push(Channel { samples: channel });
            c += 1;
        }
        assert(sampling_rate as u16 == sampling_rate % 0x1_0000) by (bit_vector);
        let r = WavData { sample_rate: sampling_rate as u16, channels, sample_length: frames };
        assert(r@.channels =~= Seq::new(
            channel_count as nat,
            |c: int| deinterleaved(samples@, channel_count as int, c),
        ));
        r
    }

    /// The samples of each channel, as a resampler takes them.
    pub fn waves(&self) -> (r: Vec<Vec<u32>>)
        ensures
            r@.map_values(|w: Vec<u32>| w@) == self@.channels,
    {
        let mut waves: Vec<Vec<u32>> = Vec::new();
        let mut c: usize = 0;
        while c < self.channels.len()
            invariant
                c <= self.channels@.len(),
                waves@.len() == c,
                forall|k: int| 0 <= k < c ==> (#[trigger] waves@[k])@ == self@.channels[k],
            decreases self.channels@.len() - c,
        {
            let wave = self.channels[c].samples.clone();
            assert(wave@ =~= self@.channels[c as int]);
            waves.push(wave);
            c += 1;
        }
        assert(waves@.map_values(|w: Vec<u32>| w@) =~= self@.channels);
        waves
    }

    /// The same sound at a new sample rate, once its channels have been resampled. The recorded
    /// length stays that of the sound before.
    pub fn resample(
        &self,
        resampled: Result<Vec<Vec<u32>>, WavDataError>,
        new_sample_rate: u16,
    ) -> (r: Result<Self, WavDataError>)
        ensures
            match resampled {
                Ok(waves) => r is Ok && r->Ok_0@ == (WavModel {
                    sample_rate: new_sample_rate,
                    channels: waves@.map_values(|w: Vec<u32>| w@),
                    sample_length: self@.sample_length,
                }),
                Err(e) => r == Err::<Self, WavDataError>(e),
            },
    {
        let waves = match resampled {
            Ok(waves) => waves,
            Err(e) => {
                return Err(e);
            },
        };
        let mut channels: Vec<Channel> = Vec::new();
        let mut c: usize = 0;
        while c < waves.len()
            invariant
                c <= waves@.len(),
                channels@.len() == c,
                forall|k: int| 0 <= k < c ==> (#[trigger] channels@[k]).samples@ == waves@[k]@,
            decreases waves@.len() - c,
        {
            let samples = waves[c].clone();
            assert(samples@ =~= waves@[c as int]@);
            channels.push(Channel { samples });
            c += 1;
        }
        let new = WavData {
            sample_rate: new_sample_rate,
            channels,
            sample_length: self.sample_length,
        };
        assert(new@.channels =~= waves@.map_values(|w: Vec<u32>| w@));
        Ok(new)
    }
}

/// Every sample of a whole frame is found again: sample `k` of the interleaved ones is sample
/// `k / channel_count` of channel `k % channel_count`.
pub proof fn law_every_sample_kept(samples: Seq<u32>, channel_count: int, k: int)
    requires
        channel_count > 0,
        0 <= k < frame_count(samples, channel_count) * channel_count,
    ensures
        0 <= k / channel_count < frame_count(samples, channel_count),
        deinterleaved(samples, channel_count, k % channel_count)[k / channel_count] == samples[k],
{
    let frames = frame_count(samples, channel_count);
    assert(0 <= k / channel_count < frames && (k / channel_count) * channel_count + k
        % channel_count == k) by (nonlinear_arith)
        requires
            channel_count > 0,
            0 <= k < frames * channel_count,
    ;
}

/// All whole frames are kept: what is left over is less than one frame.
pub proof fn law_only_a_broken_frame_is_dropped(samples: Seq<u32>, channel_count: int)
    requires
        channel_count > 0,
    ensures
        0 <= frame_count(samples, channel_count),
        frame_count(samples, channel_count) * channel_count <= samples.len(),
        samples.len() < (frame_count(samples, channel_count) + 1) * channel_count,
        forall|c: int|
            0 <= c < channel_count ==> (#[trigger] deinterleaved(samples, channel_count, c)).len()
                == frame_count(samples, channel_count),
{
    let len = samples.len() as int;
    let count = len / channel_count;
    assert(0 <= count && count * channel_count <= len && len < (count + 1) * channel_count)
        by (nonlinear_arith)
        requires
            channel_count > 0,
            0 <= len,
            count == len / channel_count,
    ;
}

/// A sound shows its rate, its length and the samples of each of its channels.
pub proof fn law_sounds_show_what_they_hold(wav: WavData, c: int)
    requires
        0 <= c < wav.channels@.len(),
    ensures
        wav@.sample_rate == wav.sample_rate,
        wav@.sample_length == wav.sample_length,
        wav@.channels.len() == wav.channels@.len(),
        wav@.channels[c] == wav.channels@[c].samples@,
{
}

} // verus!
