//! Where an audio device gets its frames from.
use vstd::prelude::*;

use crate::frame::Frame;
use crate::ring::{
    frames_among, lemma_one_more_pop, pop, pops, pushed, seen, stream_in, stream_out,
};

verus! {

/// Hands the frames of a player to an audio output device.
pub struct MidiPlayerOutput {
    consumer: ringbuf::Consumer<Frame>,
}

/// What asking for a frame once comes to: the next frame of the stream, or nothing where all that the
/// player has handed over is taken.
pub open spec fn hands_out(
    before: MidiPlayerOutput,
    after: MidiPlayerOutput,
    r: Option<Frame>,
) -> bool {
    &&& after.stream() == before.stream()
    &&& before.arrived() <= after.arrived() <= after.stream().len()
    &&& after.found() == before.found().push(r)
    &&& match r {
        Some(frame) => {
            &&& before.taken().len() < after.arrived()
            &&& after.taken() == before.taken().push(frame)
            &&& after.taken().is_prefix_of(after.stream())
        },
        None => {
            &&& before.taken().len() == after.arrived()
            &&& after.taken() == before.taken()
        },
    }
}

impl MidiPlayerOutput {
    /// What the device found each time it asked for a frame.
    pub closed spec fn found(&self) -> Seq<Option<Frame>> {
        pops(self.consumer)
    }

    /// The frames that the device has had from the player.
    pub open spec fn taken(&self) -> Seq<Frame> {
        frames_among(self.found())
    }

    /// How many frames the player had handed over when the device last asked.
    pub closed spec fn arrived(&self) -> nat {
        seen(self.consumer)
    }

    /// Every frame that the player ever hands over.
    pub closed spec fn stream(&self) -> Seq<Frame> {
        stream_out(self.consumer)
    }

    /// The output end of the ring that `consumer` belongs to.
    pub fn new(consumer: ringbuf::Consumer<Frame>) -> (r: Self)
        ensures
            r.found() == pops(consumer),
            r.arrived() == seen(consumer),
            r.stream() == stream_out(consumer),
    {
        MidiPlayerOutput { consumer }
    }

    /// The next frame of the player, if one is waiting.
    pub fn get_next_frame(&mut self) -> (r: Option<Frame>)
        ensures
            hands_out(*old(self), *final(self), r),
    {
        let waiting = pop(&mut self.consumer);
        proof {
            lemma_one_more_pop(old(self).found(), waiting);
        }
        waiting
    }
}

/// However often the device asks, it gets each frame of the player once and in the order of the stream.
pub proof fn law_frames_come_in_order(
    outputs: Seq<MidiPlayerOutput>,
    results: Seq<Option<Frame>>,
)
    requires
        outputs.len() == results.len() + 1,
        forall|i: int|
            0 <= i < results.len() ==> hands_out(outputs[i], outputs[i + 1], #[trigger] results[i]),
        outputs.first().taken().is_prefix_of(outputs.first().stream()),
    ensures
        ({
            let start = outputs.first();
            let end = outputs.last();
            &&& end.stream() == start.stream()
            &&& end.found() == start.found() + results
            &&& end.taken() == start.taken() + frames_among(results)
            &&& end.taken().is_prefix_of(end.stream())
        }),
    decreases results.len(),
{
    let start = outputs.first();
    let end = outputs.last();
    if results.len() == 0 {
        assert(end.found() =~= start.found() + results);
        assert(end.taken() =~= start.taken() + frames_among(results));
    } else {
        let fewer = results.drop_last();
        let earlier = outputs.drop_last();
        assert forall|i: int| 0 <= i < fewer.len() implies hands_out(
            earlier[i],
            earlier[i + 1],
            #[trigger] fewer[i],
        ) by {
            assert(fewer[i] == results[i]);
        }
        law_frames_come_in_order(earlier, fewer);
        assert(hands_out(earlier.last(), end, results[results.len() - 1]));
        assert(results =~= fewer.push(results.last()));
        lemma_one_more_pop(fewer, results.last());
        assert(end.found() =~= start.found() + results);
        assert(end.taken() =~= start.taken() + frames_among(results));
    }
}

/// How many frames are taken after some calls during which `total` have been handed over.
pub open spec fn taken_after(start: int, calls: int, total: int) -> int {
    if start + calls < total {
        start + calls
    } else {
        total
    }
}

/// Where an output stands after `calls` calls, at each of which `total` frames had been handed over.
proof fn lemma_taken_after(
    outputs: Seq<MidiPlayerOutput>,
    results: Seq<Option<Frame>>,
    total: nat,
    calls: int,
)
    requires
        outputs.len() == results.len() + 1,
        0 <= calls < outputs.len(),
        forall|i: int|
            0 <= i < results.len() ==> hands_out(outputs[i], outputs[i + 1], #[trigger] results[i]),
        forall|i: int| 0 < i < outputs.len() ==> (#[trigger] outputs[i]).arrived() == total,
        outputs.first().taken().len() <= total,
        outputs.first().taken().is_prefix_of(outputs.first().stream()),
    ensures
        outputs[calls].stream() == outputs.first().stream(),
        outputs[calls].taken().is_prefix_of(outputs.first().stream()),
        outputs[calls].taken().len() == taken_after(
            outputs.first().taken().len() as int,
            calls,
            total as int,
        ),
    decreases calls,
{
    if calls > 0 {
        lemma_taken_after(outputs, results, total, calls - 1);
        assert(hands_out(outputs[calls - 1], outputs[calls], results[calls - 1]));
        assert(outputs[calls].arrived() == total);
    }
}

/// While a player has handed over some frames and nothing else, the device gets each of them that it has
/// not had, once and in order, and from then on nothing.
pub proof fn law_waiting_frames_are_found(
    producer: ringbuf::Producer<Frame>,
    outputs: Seq<MidiPlayerOutput>,
    results: Seq<Option<Frame>>,
)
    requires
        stream_in(producer) == outputs.first().stream(),
        pushed(producer).is_prefix_of(stream_in(producer)),
        outputs.len() == results.len() + 1,
        forall|i: int|
            0 <= i < results.len() ==> hands_out(outputs[i], outputs[i + 1], #[trigger] results[i]),
        forall|i: int|
            0 < i < outputs.len() ==> (#[trigger] outputs[i]).arrived() == pushed(producer).len(),
        outputs.first().taken().is_prefix_of(outputs.first().stream()),
    ensures
        ({
            let start = outputs.first().taken().len() as int;
            let total = pushed(producer).len() as int;
            &&& forall|i: int|
                0 <= i < results.len() ==> #[trigger] results[i] == if start + i < total {
                    Some(pushed(producer)[start + i])
                } else {
                    None
                }
            &&& results.len() > 0 ==> outputs.last().taken() == pushed(producer).take(
                taken_after(start, results.len() as int, total),
            )
        }),
{
    let start = outputs.first().taken().len() as int;
    let total = pushed(producer).len();
    if results.len() > 0 {
        assert(hands_out(outputs[0], outputs[1], results[0]));
        assert(outputs[1].arrived() == total);
        assert forall|i: int| 0 <= i < results.len() implies #[trigger] results[i] == if start + i < total {
            Some(pushed(producer)[start + i])
        } else {
            None
        } by {
            lemma_taken_after(outputs, results, total, i);
            lemma_taken_after(outputs, results, total, i + 1);
            assert(hands_out(outputs[i], outputs[i + 1], results[i]));
            assert(outputs[i + 1].arrived() == total);
            if start + i < total {
                assert(outputs[i + 1].taken()[start + i] == outputs.first().stream()[start + i]);
            }
        }
        lemma_taken_after(outputs, results, total, results.len() as int);
        assert(outputs.last().taken() =~= pushed(producer).take(
            taken_after(start, results.len() as int, total as int),
        ));
    }
}

} // verus!
