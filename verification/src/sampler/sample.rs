//! A recorded note.
use std::path::PathBuf;

use vstd::prelude::*;

use crate::sampler::wav::{Channel, WavData, WavDataError, WavModel};

verus! {

/// What can go wrong with a recorded note.
#[derive(Debug)]
pub enum SampleError {
    SampleNotLoaded,
    ChannelOutOfBounds,
    SampleOutOfBounds,
    WavDataError(WavDataError),
}

impl From<WavDataError> for SampleError {
    fn from(e: WavDataError) -> (r: Self) {
        SampleError::WavDataError(e)
    }
}

impl vstd::std_specs::convert::FromSpecImpl<WavDataError> for SampleError {
    open spec fn obeys_from_spec() -> bool {
        true
    }

    open spec fn from_spec(e: WavDataError) -> Self {
        SampleError::WavDataError(e)
    }
}

/// A recorded note: the file it is in, the note it is of, and the sound once it is loaded.
#[derive(Debug)]
pub struct Sample {
    pub filepath: PathBuf,
    pub midi_note: u8,
    pub data: Option<WavData>,
}

/// What a recorded note consists of.
pub struct SampleModel {
    pub filepath: PathBuf,
    pub midi_note: u8,
    pub data: Option<WavModel>,
}

impl View for Sample {
    type V = SampleModel;

    open spec fn view(&self) -> SampleModel {
        SampleModel {
            filepath: self.filepath,
            midi_note: self.midi_note,
            data: match self.data {
                Some(wav) => Some(wav@),
                None => None,
            },
        }
    }
}

impl SampleModel {
    /// The samples of a channel, or why there are none.
    pub open spec fn channel(self, channel: int) -> Result<Seq<u32>, SampleError> {
        match self.data {
            None => Err(SampleError::SampleNotLoaded),
            Some(wav) => if 0 <= channel < wav.channels.len() {
                Ok(wav.channels[channel])
            } else {
                Err(SampleError::ChannelOutOfBounds)
            },
        }
    }

    /// One sample of a channel, or why there is none.
    pub open spec fn sample(self, index: int, channel: int) -> Result<u32, SampleError> {
        match self.channel(channel) {
            Err(e) => Err(e),
            Ok(samples) => if 0 <= index < samples.len() {
                Ok(samples[index])
            } else {
                Err(SampleError::SampleOutOfBounds)
            },
        }
    }

    /// The samples on both sides of a place in a channel, for an interpolation between them. Where there
    /// is none at `high`, there is only the one at `low`.
    pub open spec fn between(self, low: int, high: int, channel: int) -> Result<
        (u32, Option<u32>),
        SampleError,
    > {
        match self.sample(low, channel) {
            Err(e) => Err(e),
            Ok(l) => match self.sample(high, channel) {
                Ok(h) => Ok((l, Some(h))),
                Err(_) => Ok((l, None)),
            },
        }
    }
}

/// The channel that is played on an output channel: the same, or the last one there is.
pub open spec fn source_channel(wav: WavModel, output_channel: int) -> int {
    if output_channel < wav.channels.len() {
        output_channel
    } else {
        wav.channels.len() - 1
    }
}

/// What is played at one place of the output: the samples with the indices `low` and `high`, between
/// which it lies, the first one alone where there is no second, or nothing past the end of the sound.
pub open spec fn heard(wav: WavModel, low: int, high: int, output_channel: int) -> Option<
    (u32, Option<u32>),
> {
    let samples = wav.channels[source_channel(wav, output_channel)];
    if 0 <= low < samples.len() {
        Some(
            (
                samples[low],
                if 0 <= high < samples.len() {
                    Some(samples[high])
                } else {
                    None
                },
            ),
        )
    } else {
        None
    }
}

/// What is played for some frames that lie between two sample indices each, interleaved by output
/// channel.
pub open spec fn gathered(wav: WavModel, indices: Seq<(usize, usize)>, output_channels: int) -> Seq<
    Option<(u32, Option<u32>)>,
> {
    Seq::new(
        (indices.len() * output_channels) as nat,
        |k: int|
            heard(
                wav,
                indices[k / output_channels].0 as int,
                indices[k / output_channels].1 as int,
                k % output_channels,
            ),
    )
}

/// For so many frames and output channels, what a sound gives can be gathered: there is an output
/// channel, the output can be counted, and the sound has a channel if there is a frame to be played.
pub open spec fn can_gather(wav: WavModel, frames: int, output_channels: int) -> bool {
    &&& output_channels > 0
    &&& frames * output_channels <= usize::MAX
    &&& frames > 0 ==> wav.channels.len() > 0
}

impl Sample {
    /// Takes over the sound that was read from the file. Where that failed, nothing changes.
    pub fn load(&mut self, read: Result<WavData, WavDataError>) -> (r: Result<(), SampleError>)
        ensures
            match read {
                Ok(wav) => {
                    &&& r is Ok
                    &&& final(self)@ == (SampleModel { data: Some(wav@), ..old(self)@ })
                },
                Err(e) => {
                    &&& r == Err::<(), SampleError>(SampleError::WavDataError(e))
                    &&& final(self)@ == old(self)@
                },
            },
    {
        match read {
            Ok(wav) => {
                self.data = Some(wav);
                Ok(())
            },
            Err(e) => Err(SampleError::from(e)),
        }
    }

    /// Takes over the channels as they were resampled. Where that failed, or no sound is loaded,
    /// nothing changes.
    pub fn resample(
        &mut self,
        resampled: Result<Vec<Vec<u32>>, WavDataError>,
        new_sample_rate: u16,
    ) -> (r: Result<(), SampleError>)
        ensures
            match (old(self)@.data, resampled) {
                (None, _) => {
                    &&& r == Err::<(), SampleError>(SampleError::SampleNotLoaded)
                    &&& final(self)@ == old(self)@
                },
                (Some(wav), Ok(waves)) => {
                    &&& r is Ok
                    &&& final(self)@ == (SampleModel {
                        data: Some(
                            WavModel {
                                sample_rate: new_sample_rate,
                                channels: waves@.map_values(|w: Vec<u32>| w@),
                                sample_length: wav.sample_length,
                            },
                        ),
                        ..old(self)@
                    })
                },
                (Some(_), Err(e)) => {
                    &&& r == Err::<(), SampleError>(SampleError::WavDataError(e))
                    &&& final(self)@ == old(self)@
                },
            },
    {
        let outcome = match &self.data {
            None => {
                return Err(SampleError::SampleNotLoaded);
            },
            Some(wav) => wav.resample(resampled, new_sample_rate),
        };
        match outcome {
            Ok(wav) => {
                self.data = Some(wav);
                Ok(())
            },
            Err(e) => Err(SampleError::from(e)),
        }
    }

    /// One channel of the sound.
    pub fn get_channel(&self, channel: usize) -> (r: Result<&Channel, SampleError>)
        ensures
            match self@.channel(channel as int) {
                Ok(samples) => r is Ok && r->Ok_0.samples@ == samples,
                Err(e) => r == Err::<&Channel, SampleError>(e),
            },
    {
        match &self.data {
            None => Err(SampleError::SampleNotLoaded),
            Some(wav) => {
                if channel < wav.channels.len() {
                    Ok(&wav.channels[channel])
                } else {
                    Err(SampleError::ChannelOutOfBounds)
                }
            },
        }
    }

    /// How many samples each channel of the sound had when it was loaded.
    pub fn get_sample_length(&self) -> (r: Result<usize, SampleError>)
        ensures
            match self@.data {
                Some(wav) => r is Ok && r->Ok_0 == wav.sample_length,
                None => r == Err::<usize, SampleError>(SampleError::SampleNotLoaded),
            },
    {
        match &self.data {
            None => Err(SampleError::SampleNotLoaded),
            Some(wav) => Ok(wav.sample_length),
        }
    }

    /// The sample rate of the sound.
    pub fn get_sample_rate(&self) -> (r: Result<u16, SampleError>)
        ensures
            r == match self@.data {
                Some(wav) => Ok::<u16, SampleError>(wav.sample_rate),
                None => Err(SampleError::SampleNotLoaded),
            },
    {
        match &self.data {
            None => Err(SampleError::SampleNotLoaded),
            Some(wav) => Ok(wav.sample_rate),
        }
    }

    /// How many channels the sound has.
    pub fn get_sample_channel_count(&self) -> (r: Result<usize, SampleError>)
        ensures
            match self@.data {
                Some(wav) => r is Ok && r->Ok_0 == wav.channels.len(),
                None => r == Err::<usize, SampleError>(SampleError::SampleNotLoaded),
            },
    {
        match &self.data {
            None => Err(SampleError::SampleNotLoaded),
            Some(wav) => Ok(wav.channels.len()),
        }
    }

    /// One sample of a channel.
    pub fn get_sample(&self, index: usize, channel: usize) -> (r: Result<u32, SampleError>)
        ensures
            r == self@.sample(index as int, channel as int),
    {
        let channel = match self.get_channel(channel) {
            Ok(channel) => channel,
            Err(e) => {
                return Err(e);
            },
        };
        if index < channel.samples.len() {
            Ok(channel.samples[index])
        } else {
            Err(SampleError::SampleOutOfBounds)
        }
    }

    /// The samples between which a place in a channel lies: those with the indices `low` and `high`. The
    /// sound at that place is interpolated between them. Where there is no sample at `high`, it is the
    /// one at `low`, and where there is none at `low` either, there is no sound.
    pub fn get_sample_interpolated(&self, low: usize, high: usize, channel: usize) -> (r: Result<
        (u32, Option<u32>),
        SampleError,
    >)
        ensures
            r == self@.between(low as int, high as int, channel as int),
    {
        let channel = match self.get_channel(channel) {
            Ok(channel) => channel,
            Err(e) => {
                return Err(e);
            },
        };
        if low >= channel.samples.len() {
            return Err(SampleError::SampleOutOfBounds);
        }
        let high_sample: Option<u32> = if high < channel.samples.len() {
            Some(channel.samples[high])
        } else {
            None
        };
        Ok((channel.samples[low], high_sample))
    }

    /// The samples to be played for some frames, given the two sample indices between which each frame
    /// lies. They are interleaved by output channel, and past the end of the sound there is nothing to be
    /// played.
    pub fn get_samples(&self, indices: &Vec<(usize, usize)>, output_channels: usize) -> (r: Result<
        Vec<Option<(u32, Option<u32>)>>,
        SampleError,
    >)
        requires
            self@.data matches Some(wav) ==> can_gather(
                wav,
                indices@.len() as int,
                output_channels as int,
            ),
        ensures
            match self@.data {
                None => r == Err::<Vec<Option<(u32, Option<u32>)>>, SampleError>(
                    SampleError::SampleNotLoaded,
                ),
                Some(wav) => r is Ok && r->Ok_0@ == gathered(
                    wav,
                    indices@,
                    output_channels as int,
                ),
            },
    {
        let sample_channels: usize = match self.get_sample_channel_count() {
            Ok(count) => count,
            Err(e) => {
                return Err(e);
            },
        };
        let ghost wav = self@.data->0;
        let ghost n = output_channels as int;
        let ghost all = gathered(wav, indices@, n);
        let mut output: Vec<Option<(u32, Option<u32>)>> = Vec::new();
        let mut sampled: usize = 0;
        while sampled < indices.len()
            invariant
                n == output_channels > 0,
                self@.data == Some(wav),
                wav.channels.len() == sample_channels,
                indices@.len() > 0 ==> sample_channels > 0,
                all == gathered(wav, indices@, n),
                sampled <= indices@.len(),
                output@.len() == sampled * n,
                output@.len() <= all.len(),
                output@ == all.take(output@.len() as int),
            decreases indices@.len() - sampled,
        {
            let (low, high): (usize, usize) = indices[sampled];
            assert((sampled + 1) * n == sampled * n + n) by (nonlinear_arith);
            assert((sampled + 1) * n <= indices@.len() * n) by (nonlinear_arith)
                requires
                    sampled < indices@.len(),
                    n > 0,
            ;
            let mut channel: usize = 0;
            while channel < output_channels
                invariant
                    n == output_channels > 0,
                    self@.data == Some(wav),
                    wav.channels.len() == sample_channels > 0,
                    all == gathered(wav, indices@, n),
                    sampled < indices@.len(),
                    (low, high) == indices@[sampled as int],
                    channel <= output_channels,
                    sampled * n + n <= all.len(),
                    output@.len() == sampled * n + channel,
                    output@ == all.take(output@.len() as int),
                decreases output_channels - channel,
            {
                let source: usize = if channel < sample_channels {
                    channel
                } else {
                    sample_channels - 1
                };
                let ghost k = sampled * n + channel;
                assert(k / n == sampled && k % n == channel) by (nonlinear_arith)
                    requires
                        k == sampled * n + channel,
                        0 <= channel < n,
                        0 <= sampled,
                ;
                let heard: Option<(u32, Option<u32>)> = match self.get_sample_interpolated(
                    low,
                    high,
                    source,
                ) {
                    Ok(samples) => Some(samples),
                    Err(_) => None,
                };
                assert(heard == all[k]);
                output.push(heard);
                channel += 1;
                assert(output@ =~= all.take(output@.len() as int));
            }
            sampled += 1;
        }
        assert(output@ =~= all);
        Ok(output)
    }
}

/// A sound with one channel is heard on every channel of the output alike.
pub proof fn law_mono_is_heard_everywhere(wav: WavModel, low: int, high: int, a: int, b: int)
    requires
        wav.channels.len() == 1,
        0 <= a,
        0 <= b,
    ensures
        heard(wav, low, high, a) == heard(wav, low, high, b),
{
}

/// At the place of a sample itself both samples are that one, so there is nothing to interpolate.
pub proof fn law_samples_are_heard_as_they_are(wav: WavModel, index: int, output_channel: int)
    requires
        0 <= index < wav.channels[source_channel(wav, output_channel)].len(),
    ensures
        ({
            let sample = wav.channels[source_channel(wav, output_channel)][index];
            heard(wav, index, index, output_channel) == Some((sample, Some(sample)))
        }),
{
}

/// A channel is that of the sound; what is not loaded has none, and neither is there one past the last.
pub proof fn law_channels_are_those_of_the_sound(s: SampleModel, channel: int)
    requires
        0 <= channel,
    ensures
        s.data is None ==> s.channel(channel) == Err::<Seq<u32>, SampleError>(
            SampleError::SampleNotLoaded,
        ),
        s.data matches Some(wav) ==> (channel < wav.channels.len() ==> s.channel(channel) == Ok::<
            Seq<u32>,
            SampleError,
        >(wav.channels[channel])),
        s.data matches Some(wav) ==> (channel >= wav.channels.len() ==> s.channel(channel) == Err::<
            Seq<u32>,
            SampleError,
        >(SampleError::ChannelOutOfBounds)),
{
}

/// A sample is the one with its index in its channel; past the end of the channel there is none.
pub proof fn law_samples_are_those_of_the_channel(s: SampleModel, wav: WavModel, index: int, channel: int)
    requires
        s.data == Some(wav),
        0 <= channel,
        0 <= index,
    ensures
        channel >= wav.channels.len() ==> s.sample(index, channel) == Err::<u32, SampleError>(
            SampleError::ChannelOutOfBounds,
        ),
        channel < wav.channels.len() && index >= wav.channels[channel].len() ==> s.sample(
            index,
            channel,
        ) == Err::<u32, SampleError>(SampleError::SampleOutOfBounds),
        channel < wav.channels.len() && index < wav.channels[channel].len() ==> s.sample(index, channel)
            == Ok::<u32, SampleError>(wav.channels[channel][index]),
{
}

/// A place between two samples of a channel has both of them, in order; at the end of the channel it has the
/// first one alone, and past it there is nothing.
pub proof fn law_places_lie_between_samples(
    s: SampleModel,
    wav: WavModel,
    low: int,
    high: int,
    channel: int,
)
    requires
        s.data == Some(wav),
        0 <= channel < wav.channels.len(),
        0 <= low,
        0 <= high,
    ensures
        ({
            let samples = wav.channels[channel];
            &&& low < samples.len() && high < samples.len() ==> s.between(low, high, channel) == Ok::<
                (u32, Option<u32>),
                SampleError,
            >((samples[low], Some(samples[high])))
            &&& low < samples.len() && high >= samples.len() ==> s.between(low, high, channel) == Ok::<
                (u32, Option<u32>),
                SampleError,
            >((samples[low], None))
            &&& low >= samples.len() ==> s.between(low, high, channel) == Err::<
                (u32, Option<u32>),
                SampleError,
            >(SampleError::SampleOutOfBounds)
        }),
{
}

/// What cannot be found at all is reported for the same reason wherever it is looked for.
pub proof fn law_between_fails_as_sample_does(s: SampleModel, low: int, high: int, channel: int)
    ensures
        s.sample(low, channel) matches Err(e) ==> s.between(low, high, channel) == Err::<
            (u32, Option<u32>),
            SampleError,
        >(e),
        s.sample(low, channel) is Ok ==> s.between(low, high, channel) is Ok,
{
}

/// Frame `f` on output channel `c` is played from the channel of the same number, or from the last one where
/// the sound has fewer, at the two indices of that frame; past the end of the sound nothing is played.
pub proof fn law_frames_are_played_from_their_places(
    wav: WavModel,
    indices: Seq<(usize, usize)>,
    output_channels: int,
    f: int,
    c: int,
)
    requires
        wav.channels.len() > 0,
        0 <= f < indices.len(),
        0 <= c < output_channels,
    ensures
        ({
            let all = gathered(wav, indices, output_channels);
            let samples = if c < wav.channels.len() {
                wav.channels[c]
            } else {
                wav.channels.last()
            };
            let (low, high) = indices[f];
            &&& all.len() == indices.len() * output_channels
            &&& 0 <= f * output_channels + c < all.len()
            &&& all[f * output_channels + c] == if low >= samples.len() {
                None::<(u32, Option<u32>)>
            } else if high >= samples.len() {
                Some((samples[low as int], None::<u32>))
            } else {
                Some((samples[low as int], Some(samples[high as int])))
            }
        }),
{
    let k = f * output_channels + c;
    let frames = indices.len() as int;
    assert(k / output_channels == f && k % output_channels == c && 0 <= k && k < frames
        * output_channels) by (nonlinear_arith)
        requires
            k == f * output_channels + c,
            0 <= c < output_channels,
            0 <= f < frames,
    ;
}

/// Samples can be gathered wherever there is an output channel and a channel to play from, and the output can
/// be counted.
pub proof fn law_samples_can_be_gathered(wav: WavModel, frames: int, output_channels: int)
    requires
        output_channels > 0,
        0 <= frames * output_channels <= usize::MAX,
        wav.channels.len() > 0 || frames == 0,
    ensures
        can_gather(wav, frames, output_channels),
{
}

/// A recorded note shows its file, its note and its sound.
pub proof fn law_notes_show_what_they_hold(s: Sample)
    ensures
        s@.filepath == s.filepath,
        s@.midi_note == s.midi_note,
        s.data matches Some(wav) ==> s@.data == Some(wav@),
        s.data is None ==> s@.data is None,
{
}

} // verus!
