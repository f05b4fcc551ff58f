//! Where an audio device gets its frames from.
use vstd::prelude::*;

use crate::frame::{frame_or_silence, silence, Frame};
use crate::ring::{
    frames_among, lemma_one_more_pop, pop, pops, pushed, seen, stream_in, stream_out,
};

verus! {

/// Hands the frames of a player to an audio output device.
pub struct MidiPlayerOutput {
    consumer: ringbuf::Consumer<Frame>,
}

/// What asking for a frame once comes to: the next frame of the stream, or silence where all that the
/// player has handed over is taken.
pub open spec fn hands_out(before: MidiPlayerOutput, after: MidiPlayerOutput, frame: Frame) -> bool {
    &&& after.stream() == before.stream()
    &&& before.arrived() <= after.arrived() <= after.stream().len()
    &&& after.found() == before.found().push(after.found().last())
    &&& match after.found().last() {
        Some(waiting) => {
            &&& before.taken().len() < after.arrived()
            &&& frame == waiting
            &&& after.taken() == before.taken().push(waiting)
            &&& after.taken().is_prefix_of(after.stream())
        },
        None => {
            &&& before.taken().len() == after.arrived()
            &&& frame == silence()
            &&& after.taken() == before.taken()
        },
    }
}

/// The frame to be played for what was found.
pub open spec fn played(outcome: Option<Frame>) -> Frame {
    match outcome {
        Some(frame) => frame,
        None => silence(),
    }
}

impl MidiPlayerOutput {
    /// What the device found each time it asked for a frame.
    pub closed spec fn found(&self) -> Seq<Option<Frame>> {
        pops(self.consumer)
    }

    /// The frames that the device has had from the player.
    pub open spec fn taken(&self) -> Seq<Frame> {
        frames_among(self.found())
    }

    /// How many frames the player had handed over when the device last asked.
    pub closed spec fn arrived(&self) -> nat {
        seen(self.consumer)
    }

    /// Every frame that the player ever hands over.
    pub closed spec fn stream(&self) -> Seq<Frame> {
        stream_out(self.consumer)
    }

    /// The output end of the ring that `consumer` belongs to.
    pub fn new(consumer: ringbuf::Consumer<Frame>) -> (r: Self)
        ensures
            r.found() == pops(consumer),
            r.arrived() == seen(consumer),
            r.stream() == stream_out(consumer),
    {
        MidiPlayerOutput { consumer }
    }

    /// The next frame of audio: the next one of the player, or silence where none is waiting.
    pub fn get_next_frame(&mut self) -> (frame: Frame)
        ensures
            hands_out(*old(self), *final(self), frame),
    {
        let waiting = pop(&mut self.consumer);
        proof {
            lemma_one_more_pop(old(self).found(), waiting);
        }
        frame_or_silence(waiting)
    }
}

/// However often the device asks, it is played what it found, in order: each frame of the player once and
/// in the order of the stream, and silence where there was none. Where there always was one, nothing but
/// the next frames of the stream is played.
pub proof fn law_frames_are_played_in_order(outputs: Seq<MidiPlayerOutput>, frames: Seq<Frame>)
    requires
        outputs.len() == frames.len() + 1,
        forall|i: int|
            0 <= i < frames.len() ==> hands_out(outputs[i], outputs[i + 1], #[trigger] frames[i]),
        outputs.first().taken().is_prefix_of(outputs.first().stream()),
    ensures
        ({
            let start = outputs.first();
            let end = outputs.last();
            let outcomes = end.found().skip(start.found().len() as int);
            &&& end.stream() == start.stream()
            &&& end.found() == start.found() + outcomes
            &&& outcomes.len() == frames.len()
            &&& frames == outcomes.map_values(|outcome: Option<Frame>| played(outcome))
            &&& end.taken() == start.taken() + frames_among(outcomes)
            &&& end.taken().is_prefix_of(end.stream())
            &&& (forall|i: int| 0 <= i < outcomes.len() ==> (#[trigger] outcomes[i]) is Some)
                ==> end.taken() == start.taken() + frames
        }),
    decreases frames.len(),
{
    let start = outputs.first();
    let end = outputs.last();
    let outcomes = end.found().skip(start.found().len() as int);
    if frames.len() == 0 {
        assert(outcomes =~= seq![]);
        assert(end.found() =~= start.found() + outcomes);
        assert(frames =~= outcomes.map_values(|outcome: Option<Frame>| played(outcome)));
        assert(end.taken() =~= start.taken() + frames_among(outcomes));
        assert(end.taken() =~= start.taken() + frames);
    } else {
        let fewer = frames.drop_last();
        let earlier = outputs.drop_last();
        assert forall|i: int| 0 <= i < fewer.len() implies hands_out(
            earlier[i],
            earlier[i + 1],
            #[trigger] fewer[i],
        ) by {
            assert(fewer[i] == frames[i]);
        }
        law_frames_are_played_in_order(earlier, fewer);
        let middle = earlier.last();
        let before = middle.found().skip(start.found().len() as int);
        let last = end.found().last();
        assert(hands_out(middle, end, frames[frames.len() - 1]));
        assert(outcomes =~= before.push(last));
        assert(end.found() =~= start.found() + outcomes);
        let heard = outcomes.map_values(|outcome: Option<Frame>| played(outcome));
        let heard_before = before.map_values(|outcome: Option<Frame>| played(outcome));
        assert forall|i: int| 0 <= i < frames.len() implies frames[i] == heard[i] by {
            if i < fewer.len() {
                assert(fewer[i] == heard_before[i]);
                assert(outcomes[i] == before[i]);
            }
        }
        assert(frames =~= heard);
        lemma_one_more_pop(before, last);
        assert(end.taken() =~= start.taken() + frames_among(outcomes));
        if forall|i: int| 0 <= i < outcomes.len() ==> (#[trigger] outcomes[i]) is Some {
            assert forall|i: int| 0 <= i < before.len() implies (#[trigger] before[i]) is Some by {
                assert(before[i] == outcomes[i]);
            }
            assert(outcomes[outcomes.len() - 1] is Some);
            assert(end.taken() =~= start.taken() + frames);
        }
    }
}

/// How many frames are taken after some calls during which `total` have been handed over.
pub open spec fn taken_after(start: int, calls: int, total: int) -> int {
    if start + calls < total {
        start + calls
    } else {
        total
    }
}

/// Where an output stands after `calls` calls, at each of which `total` frames had been handed over.
proof fn lemma_taken_after(
    outputs: Seq<MidiPlayerOutput>,
    frames: Seq<Frame>,
    total: nat,
    calls: int,
)
    requires
        outputs.len() == frames.len() + 1,
        0 <= calls < outputs.len(),
        forall|i: int|
            0 <= i < frames.len() ==> hands_out(outputs[i], outputs[i + 1], #[trigger] frames[i]),
        forall|i: int| 0 < i < outputs.len() ==> (#[trigger] outputs[i]).arrived() == total,
        outputs.first().taken().len() <= total,
        outputs.first().taken().is_prefix_of(outputs.first().stream()),
    ensures
        outputs[calls].stream() == outputs.first().stream(),
        outputs[calls].taken().is_prefix_of(outputs.first().stream()),
        outputs[calls].taken().len() == taken_after(
            outputs.first().taken().len() as int,
            calls,
            total as int,
        ),
    decreases calls,
{
    if calls > 0 {
        lemma_taken_after(outputs, frames, total, calls - 1);
        assert(hands_out(outputs[calls - 1], outputs[calls], frames[calls - 1]));
        assert(outputs[calls].arrived() == total);
    }
}

/// While a player has handed over some frames and nothing else, the device is played each of them that it
/// has not had, once and in order, and from then on silence: of a fresh output, call `i` gives frame `i`,
/// and every call behind the last frame gives silence and takes nothing.
pub proof fn law_waiting_frames_are_played(
    producer: ringbuf::Producer<Frame>,
    outputs: Seq<MidiPlayerOutput>,
    frames: Seq<Frame>,
)
    requires
        stream_in(producer) == outputs.first().stream(),
        pushed(producer).is_prefix_of(stream_in(producer)),
        outputs.len() == frames.len() + 1,
        forall|i: int|
            0 <= i < frames.len() ==> hands_out(outputs[i], outputs[i + 1], #[trigger] frames[i]),
        forall|i: int|
            0 < i < outputs.len() ==> (#[trigger] outputs[i]).arrived() == pushed(producer).len(),
        outputs.first().taken().is_prefix_of(outputs.first().stream()),
    ensures
        ({
            let start = outputs.first().taken().len() as int;
            let total = pushed(producer).len() as int;
            &&& forall|i: int|
                0 <= i < frames.len() ==> #[trigger] frames[i] == if start + i < total {
                    pushed(producer)[start + i]
                } else {
                    silence()
                }
            &&& frames.len() > 0 ==> outputs.last().taken() == pushed(producer).take(
                taken_after(start, frames.len() as int, total),
            )
        }),
{
    let start = outputs.first().taken().len() as int;
    let total = pushed(producer).len();
    if frames.len() > 0 {
        assert(hands_out(outputs[0], outputs[1], frames[0]));
        assert(outputs[1].arrived() == total);
        assert forall|i: int| 0 <= i < frames.len() implies #[trigger] frames[i] == if start + i < total {
            pushed(producer)[start + i]
        } else {
            silence()
        } by {
            lemma_taken_after(outputs, frames, total, i);
            lemma_taken_after(outputs, frames, total, i + 1);
            assert(hands_out(outputs[i], outputs[i + 1], frames[i]));
            assert(outputs[i + 1].arrived() == total);
            if start + i < total {
                assert(outputs[i + 1].taken()[start + i] == outputs.first().stream()[start + i]);
            }
        }
        lemma_taken_after(outputs, frames, total, frames.len() as int);
        assert(outputs.last().taken() =~= pushed(producer).take(
            taken_after(start, frames.len() as int, total as int),
        ));
    }
}

} // verus!
