//! Synthesizers, and how a player draws frames from one.
use vstd::prelude::*;

use crate::frame::{frames_of, read_frame, Frame};
use crate::ring::{capacity, push, pushed, remaining, room, stream_in};
use crate::smf::MidiMessage;

verus! {

/// A synthesizer that a player can use to generate samples.
///
/// What a synthesizer does is its own affair: each method is described by a relation between the
/// synthesizer before and after the call. An implementation that says nothing of a relation leaves it
/// open.
pub trait Synth: Sized {
    /// `post` is what the message makes of `pre`.
    open spec fn receives(pre: Self, post: Self, channel: usize, message: MidiMessage) -> bool {
        true
    }

    /// `pre` turns the samples `before` into `after`, and itself into `post`.
    open spec fn generates(
        pre: Self,
        post: Self,
        output_sample_rate: usize,
        output_channel_count: usize,
        before: Seq<u32>,
        after: Seq<u32>,
    ) -> bool {
        true
    }

    /// `post` is what a reset makes of `pre`.
    open spec fn resets(pre: Self, post: Self) -> bool {
        true
    }

    /// Accepts a MIDI message.
    fn midi_message(&mut self, channel: usize, message: MidiMessage)
        ensures
            Self::receives(*old(self), *final(self), channel, message),
    ;

    /// Fills `output` with samples, interleaved by channel, and returns how many it generated.
    fn gen_samples(
        &mut self,
        output_sample_rate: usize,
        output_channel_count: usize,
        output: &mut [u32],
    ) -> (count: usize)
        ensures
            final(output)@.len() == old(output)@.len(),
            Self::generates(
                *old(self),
                *final(self),
                output_sample_rate,
                output_channel_count,
                old(output)@,
                final(output)@,
            ),
    ;

    /// Resets the synthesizer, that is, turns off all notes.
    fn reset(&mut self)
        ensures
            Self::resets(*old(self), *final(self)),
    ;
}

/// How many samples are asked of a synthesizer at once, at most.
pub const CHUNK_SIZE: usize = 4096;

/// How many frames a chunk has room for.
pub open spec fn frames_per_chunk(channel_count: int) -> int {
    CHUNK_SIZE as int / channel_count
}

/// How many of `total` frames chunk `k` is for: a full chunk, or what is left for the last one.
pub open spec fn chunk_frames(total: int, channel_count: int, k: int) -> int {
    let done = k * frames_per_chunk(channel_count);
    if total - done < frames_per_chunk(channel_count) {
        total - done
    } else {
        frames_per_chunk(channel_count)
    }
}

/// `len` zero samples.
pub open spec fn zeros(len: nat) -> Seq<u32> {
    Seq::new(len, |i: int| 0u32)
}

/// The frames of all chunks, one after the other.
pub open spec fn frames_of_chunks(chunks: Seq<Seq<u32>>, channel_count: int) -> Seq<Frame>
    decreases chunks.len(),
{
    if chunks.len() == 0 {
        seq![]
    } else {
        frames_of_chunks(chunks.drop_last(), channel_count) + frames_of(chunks.last(), channel_count)
    }
}

/// Chunk `k` of `total` frames is what the synthesizer in `states[k]` made of a cleared buffer, which
/// left it in `states[k + 1]`.
pub open spec fn chunk_drawn<S: Synth>(
    states: Seq<S>,
    chunks: Seq<Seq<u32>>,
    sample_rate: usize,
    channel_count: usize,
    total: int,
    k: int,
) -> bool {
    &&& chunk_frames(total, channel_count as int, k) > 0
    &&& chunks[k].len() == chunk_frames(total, channel_count as int, k) * channel_count
    &&& S::generates(
        states[k],
        states[k + 1],
        sample_rate,
        channel_count,
        zeros(chunks[k].len()),
        chunks[k],
    )
}

/// The first chunks of `total` frames were drawn from the synthesizer, one after the other.
pub open spec fn drawn<S: Synth>(
    states: Seq<S>,
    chunks: Seq<Seq<u32>>,
    sample_rate: usize,
    channel_count: usize,
    total: int,
) -> bool {
    &&& states.len() == chunks.len() + 1
    &&& forall|k: int|
        0 <= k < chunks.len() ==> #[trigger] chunk_drawn(
            states,
            chunks,
            sample_rate,
            channel_count,
            total,
            k,
        )
}

/// The chunks of all `total` frames were drawn from the synthesizer.
pub open spec fn all_drawn<S: Synth>(
    states: Seq<S>,
    chunks: Seq<Seq<u32>>,
    sample_rate: usize,
    channel_count: usize,
    total: int,
) -> bool {
    &&& drawn(states, chunks, sample_rate, channel_count, total)
    &&& total <= chunks.len() * frames_per_chunk(channel_count as int)
}

/// One more chunk may be drawn where the last one left off.
proof fn lemma_drawn_one_more<S: Synth>(
    states: Seq<S>,
    chunks: Seq<Seq<u32>>,
    post: S,
    chunk: Seq<u32>,
    sample_rate: usize,
    channel_count: usize,
    total: int,
)
    requires
        drawn(states, chunks, sample_rate, channel_count, total),
        chunk_frames(total, channel_count as int, chunks.len() as int) > 0,
        chunk.len() == chunk_frames(total, channel_count as int, chunks.len() as int)
            * channel_count,
        S::generates(
            states.last(),
            post,
            sample_rate,
            channel_count,
            zeros(chunk.len()),
            chunk,
        ),
    ensures
        drawn(states.push(post), chunks.push(chunk), sample_rate, channel_count, total),
{
    let more_states = states.push(post);
    let more_chunks = chunks.push(chunk);
    assert forall|k: int| 0 <= k < more_chunks.len() implies #[trigger] chunk_drawn(
        more_states,
        more_chunks,
        sample_rate,
        channel_count,
        total,
        k,
    ) by {
        if k < chunks.len() {
            assert(chunk_drawn(states, chunks, sample_rate, channel_count, total, k));
        }
    }
}

/// Draws frames from the synthesizer and pushes them into the ring: `due` frames, or as many as the
/// ring has room for. Returns how many these were.
pub fn render<S: Synth>(
    synth: &mut S,
    producer: &mut ringbuf::Producer<Frame>,
    sample_rate: usize,
    channel_count: usize,
    due: usize,
) -> (total: usize)
    requires
        1 <= channel_count <= CHUNK_SIZE,
    ensures
        total <= due,
        total < due ==> room(*final(producer)) == 0,
        total <= capacity(*old(producer)),
        capacity(*final(producer)) == capacity(*old(producer)),
        stream_in(*final(producer)) == stream_in(*old(producer)),
        pushed(*old(producer)).is_prefix_of(stream_in(*old(producer))) ==> pushed(
            *final(producer),
        ).is_prefix_of(stream_in(*final(producer))),
        pushed(*final(producer)).len() == pushed(*old(producer)).len() + total,
        exists|states: Seq<S>, chunks: Seq<Seq<u32>>|
            {
                &&& #[trigger] all_drawn(states, chunks, sample_rate, channel_count, total as int)
                &&& states.first() == *old(synth)
                &&& states.last() == *final(synth)
                &&& pushed(*final(producer)) == pushed(*old(producer)) + frames_of_chunks(
                    chunks,
                    channel_count as int,
                )
            },
{
    let free: usize = remaining(producer);
    let total: usize = if free < due { free } else { due };
    let per_chunk: usize = CHUNK_SIZE / channel_count;
    let ghost before = pushed(*old(producer));
    let ghost ch = channel_count as int;
    let ghost mut states: Seq<S> = seq![*synth];
    let ghost mut chunks: Seq<Seq<u32>> = seq![];
    assert(per_chunk >= 1) by (nonlinear_arith)
        requires
            per_chunk == CHUNK_SIZE as int / channel_count as int,
            1 <= channel_count <= CHUNK_SIZE,
    ;
    assert(per_chunk * channel_count <= CHUNK_SIZE) by (nonlinear_arith)
        requires
            per_chunk == CHUNK_SIZE as int / channel_count as int,
            1 <= channel_count,
    ;
    assert(pushed(*producer) =~= before + frames_of_chunks(chunks, ch));
    let mut processed: usize = 0;
    while processed < total
        invariant
            1 <= channel_count <= CHUNK_SIZE,
            ch == channel_count,
            per_chunk == frames_per_chunk(ch),
            per_chunk >= 1,
            per_chunk * channel_count <= CHUNK_SIZE,
            processed <= total,
            total <= free,
            room(*producer) == free - processed,
            capacity(*producer) == capacity(*old(producer)),
            stream_in(*producer) == stream_in(*old(producer)),
            before.is_prefix_of(stream_in(*old(producer))) ==> pushed(*producer).is_prefix_of(
                stream_in(*producer),
            ),
            drawn(states, chunks, sample_rate, channel_count, total as int),
            states.first() == *old(synth),
            states.last() == *synth,
            pushed(*producer) == before + frames_of_chunks(chunks, ch),
            frames_of_chunks(chunks, ch).len() == processed,
            processed < total ==> processed == chunks.len() * per_chunk,
            processed == total ==> total <= chunks.len() * per_chunk,
        decreases total - processed,
    {
        let left: usize = total - processed;
        let frames: usize = if left < per_chunk { left } else { per_chunk };
        let ghost k = chunks.len() as int;
        assert(frames == chunk_frames(total as int, ch, k));
        assert(0 < frames * channel_count <= CHUNK_SIZE) by (nonlinear_arith)
            requires
                1 <= frames <= per_chunk,
                1 <= channel_count,
                per_chunk * channel_count <= CHUNK_SIZE,
        ;
        let len: usize = frames * channel_count;
        let mut buffer: Vec<u32> = vec![0u32; len];
        assert(buffer@ =~= zeros(len as nat));
        let _ = synth.gen_samples(sample_rate, channel_count, buffer.as_mut_slice());
        assert(len / channel_count == frames) by (nonlinear_arith)
            requires
                len == frames * channel_count,
                channel_count >= 1,
        ;
        let ghost start = pushed(*producer);
        let ghost whole = frames_of(buffer@, ch);
        assert(whole.len() == frames);
        assert(start =~= start + whole.take(0));
        let mut i: usize = 0;
        while i < frames
            invariant
                i <= frames,
                frames <= left,
                left == total - processed,
                processed <= total <= free,
                ch == channel_count,
                channel_count >= 1,
                buffer@.len() / channel_count as nat == frames,
                whole == frames_of(buffer@, ch),
                whole.len() == frames,
                room(*producer) == free - processed - i,
                capacity(*producer) == capacity(*old(producer)),
                stream_in(*producer) == stream_in(*old(producer)),
                before.is_prefix_of(stream_in(*old(producer))) ==> pushed(*producer).is_prefix_of(
                    stream_in(*producer),
                ),
                pushed(*producer) == start + whole.take(i as int),
            decreases frames - i,
        {
            let frame = read_frame(&buffer, channel_count, i);
            match push(producer, frame) {
                Ok(()) => {},
                Err(_) => {
                    assert(false);
                },
            }
            i += 1;
            assert(pushed(*producer) =~= start + whole.take(i as int));
        }
        proof {
            assert(whole.take(frames as int) =~= whole);
            let next = chunks.push(buffer@);
            assert(next.drop_last() =~= chunks);
            assert(frames_of_chunks(next, ch) =~= frames_of_chunks(chunks, ch) + whole);
            assert(pushed(*producer) =~= before + frames_of_chunks(next, ch));
            assert((k + 1) * per_chunk == k * per_chunk + per_chunk) by (nonlinear_arith);
            lemma_drawn_one_more(
                states,
                chunks,
                *synth,
                buffer@,
                sample_rate,
                channel_count,
                total as int,
            );
            states = states.push(*synth);
            chunks = next;
        }
        processed = processed + frames;
    }
    assert(all_drawn(states, chunks, sample_rate, channel_count, total as int));
    total
}

/// Whatever was drawn, it was drawn in chunks of as many whole frames as fit into 4096 samples, the last one
/// apart, which may be shorter; together they are all the frames that were asked for.
pub proof fn law_frames_are_drawn_in_full_chunks<S: Synth>(
    states: Seq<S>,
    chunks: Seq<Seq<u32>>,
    sample_rate: usize,
    channel_count: usize,
    total: nat,
)
    requires
        1 <= channel_count <= 4096,
        all_drawn(states, chunks, sample_rate, channel_count, total as int),
    ensures
        states.len() == chunks.len() + 1,
        frames_of_chunks(chunks, channel_count as int).len() == total,
        forall|k: int|
            0 <= k < chunks.len() ==> {
                &&& 0 < (#[trigger] chunks[k]).len() <= 4096
                &&& chunks[k].len() % channel_count as nat == 0
                &&& k < chunks.len() - 1 ==> chunks[k].len() + channel_count > 4096
            },
        forall|k: int|
            0 <= k < chunks.len() ==> S::generates(
                states[k],
                states[k + 1],
                sample_rate,
                channel_count,
                Seq::new((#[trigger] chunks[k]).len(), |i: int| 0u32),
                chunks[k],
            ),
{
    let ch = channel_count as int;
    let per = frames_per_chunk(ch);
    let all = total as int;
    assert(per >= 1 && per * ch <= 4096 && 4096 < per * ch + ch) by (nonlinear_arith)
        requires
            per == 4096int / ch,
            1 <= ch <= 4096,
    ;
    lemma_frames_counted(chunks, states, sample_rate, channel_count, all, chunks.len() as int);
    assert(chunks.take(chunks.len() as int) =~= chunks);
    let last = chunks.len() - 1;
    if chunks.len() > 0 {
        assert(chunk_drawn(states, chunks, sample_rate, channel_count, all, last));
        assert((last + 1) * per == last * per + per) by (nonlinear_arith);
        lemma_frames_counted(chunks, states, sample_rate, channel_count, all, last);
    } else {
        assert(0 * per == 0);
        assert(frames_of_chunks(chunks, ch) =~= seq![]);
    }
    assert forall|k: int| 0 <= k < chunks.len() implies {
        &&& 0 < (#[trigger] chunks[k]).len() <= 4096
        &&& chunks[k].len() % channel_count as nat == 0
        &&& k < chunks.len() - 1 ==> chunks[k].len() + channel_count > 4096
    } by {
        assert(chunk_drawn(states, chunks, sample_rate, channel_count, all, k));
        let n = chunk_frames(all, ch, k);
        assert(0 < n * ch && n * ch <= per * ch && (n * ch) % ch == 0) by (nonlinear_arith)
            requires
                0 < n <= per,
                1 <= ch,
        ;
        if k < last {
            assert(chunk_drawn(states, chunks, sample_rate, channel_count, all, last));
            assert(k * per + per <= last * per) by (nonlinear_arith)
                requires
                    k + 1 <= last,
                    per >= 1,
            ;
            assert(n == per);
        }
    }
    assert forall|k: int| 0 <= k < chunks.len() implies S::generates(
        states[k],
        states[k + 1],
        sample_rate,
        channel_count,
        Seq::new((#[trigger] chunks[k]).len(), |i: int| 0u32),
        chunks[k],
    ) by {
        assert(chunk_drawn(states, chunks, sample_rate, channel_count, all, k));
        assert(Seq::new(chunks[k].len(), |i: int| 0u32) =~= zeros(chunks[k].len()));
    }
}

/// How many frames the first `n` chunks hold.
proof fn lemma_frames_counted<S: Synth>(
    chunks: Seq<Seq<u32>>,
    states: Seq<S>,
    sample_rate: usize,
    channel_count: usize,
    total: int,
    n: int,
)
    requires
        1 <= channel_count <= 4096,
        drawn(states, chunks, sample_rate, channel_count, total),
        0 <= n <= chunks.len(),
        0 <= total,
    ensures
        ({
            let done = n * frames_per_chunk(channel_count as int);
            frames_of_chunks(chunks.take(n), channel_count as int).len() == if done < total {
                done
            } else {
                total
            }
        }),
    decreases n,
{
    let ch = channel_count as int;
    let per = frames_per_chunk(ch);
    assert(per >= 1) by (nonlinear_arith)
        requires
            per == 4096int / ch,
            1 <= ch <= 4096,
    ;
    if n == 0 {
        assert(chunks.take(n) =~= seq![]);
    } else {
        lemma_frames_counted(chunks, states, sample_rate, channel_count, total, n - 1);
        assert(chunk_drawn(states, chunks, sample_rate, channel_count, total, n - 1));
        let some = chunks.take(n);
        let fewer = chunks.take(n - 1);
        let last = chunks[n - 1];
        assert(some.len() == n);
        assert(some.drop_last() =~= fewer);
        assert(some.last() == last);
        let frames = chunk_frames(total, ch, n - 1);
        let done = (n - 1) * per;
        let len = last.len() as int;
        assert(frames > 0);
        assert(frames == if total - done < per { total - done } else { per });
        assert(len == frames * ch);
        assert(len / ch == frames) by (nonlinear_arith)
            requires
                len == frames * ch,
                ch >= 1,
        ;
        assert(last.len() / channel_count as nat == frames);
        assert(frames_of(last, ch).len() == frames);
        assert(frames_of_chunks(fewer, ch).len() == done);
        assert(frames_of_chunks(some, ch) == frames_of_chunks(fewer, ch) + frames_of(last, ch));
        assert(frames_of_chunks(some, ch).len() == done + frames);
        assert(n * per == done + per) by (nonlinear_arith)
            requires
                done == (n - 1) * per,
        ;
    }
}

/// Frames keep the order of the chunks, and each chunk comes out whole: the frames of two runs of chunks are
/// those of the first one, then those of the second.
pub proof fn law_chunks_follow_one_another(
    first: Seq<Seq<u32>>,
    second: Seq<Seq<u32>>,
    channel_count: int,
)
    ensures
        frames_of_chunks(first + second, channel_count) == frames_of_chunks(first, channel_count)
            + frames_of_chunks(second, channel_count),
    decreases second.len(),
{
    if second.len() == 0 {
        assert(first + second =~= first);
        assert(frames_of_chunks(second, channel_count) =~= seq![]);
    } else {
        law_chunks_follow_one_another(first, second.drop_last(), channel_count);
        assert((first + second).drop_last() =~= first + second.drop_last());
        assert((first + second).last() == second.last());
    }
    assert(frames_of_chunks(first + second, channel_count) =~= frames_of_chunks(first, channel_count)
        + frames_of_chunks(second, channel_count));
}

/// The frames of a single chunk are those of its samples.
pub proof fn law_one_chunk(chunk: Seq<u32>, channel_count: int)
    ensures
        frames_of_chunks(seq![chunk], channel_count) == frames_of(chunk, channel_count),
{
    reveal_with_fuel(frames_of_chunks, 2);
    assert(seq![chunk].drop_last() =~= seq![]);
    assert(frames_of_chunks(seq![chunk], channel_count) =~= frames_of(chunk, channel_count));
}

} // verus!
