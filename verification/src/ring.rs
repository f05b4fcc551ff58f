//! The ring buffer between a player and its output, from the `ringbuf` crate.
//!
//! The two ends of a ring may sit on two threads. What one end can say for sure is what has gone
//! through it so far, and so the contracts speak of that: of the frames that the producer pushed, of
//! those that the consumer popped, and of the one stream that both are beginnings of.
use vstd::prelude::*;

use crate::frame::Frame;

verus! {

/// `ringbuf::RingBuffer`, a ring whose ends have not been parted.
#[verifier::external_type_specification]
#[verifier::external_body]
#[verifier::reject_recursive_types(T)]
pub struct ExRingBuffer<T>(ringbuf::RingBuffer<T>);

/// `ringbuf::Producer`, the end of a ring that frames go into.
#[verifier::external_type_specification]
#[verifier::external_body]
#[verifier::reject_recursive_types(T)]
pub struct ExProducer<T>(ringbuf::Producer<T>);

/// `ringbuf::Consumer`, the end of a ring that frames come out of.
#[verifier::external_type_specification]
#[verifier::external_body]
#[verifier::reject_recursive_types(T)]
pub struct ExConsumer<T>(ringbuf::Consumer<T>);

/// How many frames a ring that is still whole can hold.
pub uninterp spec fn whole_capacity(ring: ringbuf::RingBuffer<Frame>) -> nat;

/// How many frames the ring of a producer can hold.
pub uninterp spec fn capacity(producer: ringbuf::Producer<Frame>) -> nat;

/// The frames that went into the ring through a producer.
pub uninterp spec fn pushed(producer: ringbuf::Producer<Frame>) -> Seq<Frame>;

/// How many free slots a producer is sure of: what it last counted, less what it pushed since.
/// Nobody else can take one.
pub uninterp spec fn room(producer: ringbuf::Producer<Frame>) -> nat;

/// Every frame that ever goes into the ring of a producer, in order.
pub uninterp spec fn stream_in(producer: ringbuf::Producer<Frame>) -> Seq<Frame>;

/// What each call of `ringbuf::Consumer::pop` on a consumer gave, in order.
pub uninterp spec fn pops(consumer: ringbuf::Consumer<Frame>) -> Seq<Option<Frame>>;

/// The frames among some outcomes.
pub open spec fn frames_among(outcomes: Seq<Option<Frame>>) -> Seq<Frame>
    decreases outcomes.len(),
{
    if outcomes.len() == 0 {
        seq![]
    } else {
        match outcomes.last() {
            Some(frame) => frames_among(outcomes.drop_last()).push(frame),
            None => frames_among(outcomes.drop_last()),
        }
    }
}

/// The frames that came out of the ring through a consumer.
pub open spec fn popped(consumer: ringbuf::Consumer<Frame>) -> Seq<Frame> {
    frames_among(pops(consumer))
}

/// How many frames had gone into the ring of a consumer when it last looked for one. Those among them
/// that it has not popped are waiting, and nobody else can take them.
pub uninterp spec fn seen(consumer: ringbuf::Consumer<Frame>) -> nat;

/// Every frame that ever goes into the ring of a consumer, in order.
pub uninterp spec fn stream_out(consumer: ringbuf::Consumer<Frame>) -> Seq<Frame>;

/// Calls `ringbuf::RingBuffer::new`, which allocates one slot more than `slots`. A slot takes up twelve
/// bytes, and what they take up together must not be more than can be allocated at once.
#[verifier::external_body]
fn new_ring(slots: usize) -> (r: ringbuf::RingBuffer<Frame>)
    requires
        slots < isize::MAX / 12,
    ensures
        whole_capacity(r) == slots,
{
    ringbuf::RingBuffer::new(slots)
}

/// Calls `ringbuf::RingBuffer::split`. The two ends share one ring, which is empty.
#[verifier::external_body]
fn split(ring: ringbuf::RingBuffer<Frame>) -> (r: (
    ringbuf::Producer<Frame>,
    ringbuf::Consumer<Frame>,
))
    ensures
        capacity(r.0) == whole_capacity(ring),
        room(r.0) == whole_capacity(ring),
        pushed(r.0) == Seq::<Frame>::empty(),
        pops(r.1) == Seq::<Option<Frame>>::empty(),
        seen(r.1) == 0,
        stream_in(r.0) == stream_out(r.1),
{
    ring.split()
}

/// Calls `ringbuf::Producer::remaining`. The consumer may free more slots at any time; the counted
/// ones stay free until this producer fills them.
#[verifier::external_body]
pub(crate) fn remaining(producer: &mut ringbuf::Producer<Frame>) -> (r: usize)
    ensures
        r <= capacity(*old(producer)),
        room(*final(producer)) == r,
        pushed(*final(producer)) == pushed(*old(producer)),
        capacity(*final(producer)) == capacity(*old(producer)),
        stream_in(*final(producer)) == stream_in(*old(producer)),
{
    producer.remaining()
}

/// Calls `ringbuf::Producer::push`, which hands the frame back where the ring is full.
#[verifier::external_body]
pub(crate) fn push(producer: &mut ringbuf::Producer<Frame>, frame: Frame) -> (r: Result<(), Frame>)
    ensures
        room(*old(producer)) > 0 ==> r is Ok && room(*final(producer)) == room(*old(producer)) - 1,
        r is Ok ==> pushed(*final(producer)) == pushed(*old(producer)).push(frame),
        r is Ok ==> pushed(*final(producer)).is_prefix_of(stream_in(*final(producer))),
        r matches Err(f) ==> f == frame && pushed(*final(producer)) == pushed(*old(producer)),
        capacity(*final(producer)) == capacity(*old(producer)),
        stream_in(*final(producer)) == stream_in(*old(producer)),
{
    producer.push(frame)
}

/// Calls `ringbuf::Producer::len`. The consumer may take frames out at any time; the slots that were
/// counted as free stay free until this producer fills them.
#[verifier::external_body]
pub(crate) fn len(producer: &mut ringbuf::Producer<Frame>) -> (r: usize)
    ensures
        r <= capacity(*old(producer)),
        room(*final(producer)) == capacity(*old(producer)) - r,
        pushed(*final(producer)) == pushed(*old(producer)),
        capacity(*final(producer)) == capacity(*old(producer)),
        stream_in(*final(producer)) == stream_in(*old(producer)),
{
    producer.len()
}

/// Calls `ringbuf::Producer::capacity`.
#[verifier::external_body]
pub(crate) fn capacity_of(producer: &ringbuf::Producer<Frame>) -> (r: usize)
    ensures
        r == capacity(*producer),
{
    producer.capacity()
}

/// Calls `ringbuf::Consumer::pop`. It looks how many frames have gone in, and takes out the next one
/// unless all of them are out. How many have gone in is up to the producer; never fewer than before.
#[verifier::external_body]
pub(crate) fn pop(consumer: &mut ringbuf::Consumer<Frame>) -> (r: Option<Frame>)
    ensures
        pops(*final(consumer)) == pops(*old(consumer)).push(r),
        popped(*old(consumer)).len() <= seen(*final(consumer)),
        r is Some <==> popped(*old(consumer)).len() < seen(*final(consumer)),
        r is Some ==> popped(*final(consumer)).is_prefix_of(stream_out(*final(consumer))),
        seen(*old(consumer)) <= seen(*final(consumer)) <= stream_out(*final(consumer)).len(),
        stream_out(*final(consumer)) == stream_out(*old(consumer)),
{
    consumer.pop()
}

/// One outcome more adds its frame, if it is one.
pub proof fn lemma_one_more_pop(outcomes: Seq<Option<Frame>>, outcome: Option<Frame>)
    ensures
        frames_among(outcomes.push(outcome)) == match outcome {
            Some(frame) => frames_among(outcomes).push(frame),
            None => frames_among(outcomes),
        },
{
    assert(outcomes.push(outcome).drop_last() =~= outcomes);
}

/// Makes an empty ring for `slots` frames and parts its two ends.
pub fn create_ring(slots: usize) -> (r: (ringbuf::Producer<Frame>, ringbuf::Consumer<Frame>))
    requires
        slots < isize::MAX / 12,
    ensures
        capacity(r.0) == slots,
        room(r.0) == slots,
        pushed(r.0) == Seq::<Frame>::empty(),
        pops(r.1) == Seq::<Option<Frame>>::empty(),
        popped(r.1) == Seq::<Frame>::empty(),
        seen(r.1) == 0,
        stream_in(r.0) == stream_out(r.1),
{
    split(new_ring(slots))
}

/// Frames come out in the order in which they went in: where the two ends of a ring have both moved
/// on to frame `i`, it is the same frame.
pub proof fn law_first_in_first_out(
    producer: ringbuf::Producer<Frame>,
    consumer: ringbuf::Consumer<Frame>,
    i: int,
)
    requires
        stream_in(producer) == stream_out(consumer),
        pushed(producer).is_prefix_of(stream_in(producer)),
        popped(consumer).is_prefix_of(stream_out(consumer)),
        0 <= i < pushed(producer).len(),
        i < popped(consumer).len(),
    ensures
        popped(consumer)[i] == pushed(producer)[i],
{
}

/// How many frames a ring that holds `len` of `capacity` is from being half full: none where it is
/// half full or less.
pub open spec fn above_half(len: int, capacity: int) -> int {
    if len > capacity / 2 {
        len - capacity / 2
    } else {
        0
    }
}

/// How many frames have to come out of a ring to bring it down to half of its capacity.
pub fn frames_above_half(len: usize, capacity: usize) -> (r: usize)
    ensures
        r == above_half(len as int, capacity as int),
{
    if len > capacity / 2 {
        len - capacity / 2
    } else {
        0
    }
}

/// How many frames have to come out of the ring to bring it down to half of its capacity. What is in
/// it is counted now.
pub fn excess(producer: &mut ringbuf::Producer<Frame>) -> (r: usize)
    ensures
        r == above_half(
            capacity(*old(producer)) - room(*final(producer)),
            capacity(*old(producer)) as int,
        ),
        room(*final(producer)) <= capacity(*old(producer)),
        pushed(*final(producer)) == pushed(*old(producer)),
        capacity(*final(producer)) == capacity(*old(producer)),
        stream_in(*final(producer)) == stream_in(*old(producer)),
{
    let held: usize = len(producer);
    frames_above_half(held, capacity_of(producer))
}

/// Where that many frames come out, the ring is half full at most; and where it was fuller than that, exactly
/// half full, so none is waited for without need.
pub proof fn law_waiting_brings_it_to_half(len: int, capacity: int)
    requires
        0 <= len <= capacity,
    ensures
        0 <= above_half(len, capacity) <= len,
        len - above_half(len, capacity) <= capacity / 2,
        above_half(len, capacity) > 0 ==> len - above_half(len, capacity) == capacity / 2,
{
}

/// The frames among some outcomes are those that were found, in order and all of them.
pub proof fn law_frames_among_are_those_found(outcomes: Seq<Option<Frame>>)
    ensures
        frames_among(outcomes) == outcomes.filter(|o: Option<Frame>| o is Some).map_values(
            |o: Option<Frame>| o->0,
        ),
    decreases outcomes.len(),
{
    reveal(Seq::filter);
    let found = |o: Option<Frame>| o is Some;
    let frame = |o: Option<Frame>| o->0;
    if outcomes.len() > 0 {
        law_frames_among_are_those_found(outcomes.drop_last());
        let before = outcomes.drop_last().filter(found);
        if outcomes.last() is Some {
            assert(before.push(outcomes.last()).map_values(frame) =~= before.map_values(frame).push(
                outcomes.last()->0,
            ));
        }
    } else {
        assert(outcomes.filter(found).map_values(frame) =~= seq![]);
    }
}

} // verus!
