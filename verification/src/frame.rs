//! Frames of audio.
//!
//! A sample is held as the bit pattern of a 32-bit float, as `f32::to_bits` gives it: the library
//! moves samples about and never computes with them. The pattern of silence, `0.0`, is `0`.
use vstd::prelude::*;

verus! {

/// A single frame of audio, mono or stereo.
#[derive(Clone, Copy, Debug, PartialEq, Eq, Structural)]
pub enum Frame {
    Mono(u32),
    Stereo(u32, u32),
}

/// The frame that a player with no song yields.
pub open spec fn silence() -> Frame {
    Frame::Mono(0)
}

/// Frame `i` of samples that are interleaved by channel: the only channel, or the first two.
pub open spec fn frame_at(samples: Seq<u32>, channel_count: int, i: int) -> Frame {
    if channel_count == 1 {
        Frame::Mono(samples[i])
    } else {
        Frame::Stereo(samples[i * channel_count], samples[i * channel_count + 1])
    }
}

/// All whole frames of samples that are interleaved by channel.
pub open spec fn frames_of(samples: Seq<u32>, channel_count: int) -> Seq<Frame> {
    Seq::new((samples.len() / channel_count as nat) as nat, |i: int| frame_at(samples, channel_count, i))
}

/// Frame `i` of samples that are interleaved by channel.
pub fn read_frame(samples: &Vec<u32>, channel_count: usize, i: usize) -> (frame: Frame)
    requires
        channel_count > 0,
        i < samples@.len() / channel_count as nat,
    ensures
        frame == frame_at(samples@, channel_count as int, i as int),
{
    proof {
        let len = samples.len();
        assert(0 <= i * channel_count && i * channel_count + channel_count <= len)
            by (nonlinear_arith)
            requires
                channel_count > 0,
                i < len / channel_count,
        ;
    }
    if channel_count == 1 {
        Frame::Mono(samples[i])
    } else {
        Frame::Stereo(samples[i * channel_count], samples[i * channel_count + 1])
    }
}

/// The frame to play: the one that was waiting, or silence where none was.
pub fn frame_or_silence(waiting: Option<Frame>) -> (frame: Frame)
    ensures
        frame == match waiting {
            Some(f) => f,
            None => silence(),
        },
{
    match waiting {
        Some(f) => f,
        None => Frame::Mono(0),
    }
}

/// Silence is a mono frame whose sample is zero.
pub proof fn law_silence_is_zero()
    ensures
        silence() == Frame::Mono(0),
{
}

/// One channel makes mono frames, one for each sample.
pub proof fn law_one_channel_is_mono(samples: Seq<u32>)
    ensures
        frames_of(samples, 1).len() == samples.len(),
        forall|i: int|
            0 <= i < samples.len() ==> #[trigger] frames_of(samples, 1)[i] == Frame::Mono(samples[i]),
{
    assert(samples.len() / 1nat == samples.len());
}

/// Two channels or more make stereo frames of the first two, one for every `channel_count` samples, and only
/// a frame that is not whole is left out.
pub proof fn law_more_channels_are_stereo(samples: Seq<u32>, channel_count: int)
    requires
        channel_count >= 2,
    ensures
        ({
            let frames = frames_of(samples, channel_count);
            &&& frames.len() * channel_count <= samples.len()
            &&& samples.len() < (frames.len() + 1) * channel_count
            &&& forall|i: int|
                0 <= i < frames.len() ==> #[trigger] frames[i] == Frame::Stereo(
                    samples[i * channel_count],
                    samples[i * channel_count + 1],
                )
        }),
{
    let count = samples.len() as int / channel_count;
    let len = samples.len() as int;
    assert(0 <= count && count * channel_count <= len && len < (count + 1) * channel_count)
        by (nonlinear_arith)
        requires
            channel_count >= 2,
            0 <= len,
            count == len / channel_count,
    ;
    assert((samples.len() / channel_count as nat) as int == count);
}

} // verus!
