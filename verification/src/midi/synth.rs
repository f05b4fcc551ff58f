//! Synthesizers that fill frames, and how a player drives one.
use vstd::prelude::*;

use crate::frame::Frame;
use crate::ring::{capacity, push, pushed, remaining, room, stream_in};
use crate::smf::{EventKind, MidiMessage, Timing};
use crate::song::{in_time_order, song_in, MidiSong, TimedEvent};

verus! {

/// A synthesizer that a player can use to generate frames.
///
/// What a synthesizer does is its own affair: each method is described by a relation between the
/// synthesizer before and after the call. An implementation that says nothing of a relation leaves it
/// open.
pub trait Synth: Sized {
    /// `post` is what the message makes of `pre`.
    open spec fn receives(pre: Self, post: Self, channel: usize, message: MidiMessage) -> bool {
        true
    }

    /// `pre` turns the frames `before` into `after`, of which it generated `count`, and itself into
    /// `post`.
    open spec fn generates(
        pre: Self,
        post: Self,
        output_channel_count: usize,
        before: Seq<Frame>,
        after: Seq<Frame>,
        count: usize,
    ) -> bool {
        true
    }

    /// Accepts a MIDI message.
    fn midi_message(&mut self, channel: usize, message: MidiMessage)
        ensures
            Self::receives(*old(self), *final(self), channel, message),
    ;

    /// Fills `output` with frames and returns how many it generated.
    fn gen_samples(&mut self, output_channel_count: usize, output: &mut [Frame]) -> (count: usize)
        ensures
            final(output)@.len() == old(output)@.len(),
            Self::generates(
                *old(self),
                *final(self),
                output_channel_count,
                old(output)@,
                final(output)@,
                count,
            ),
    ;
}

/// A silent frame for so many channels.
pub open spec fn silent_frame(channel_count: int) -> Frame {
    if channel_count == 1 {
        Frame::Mono(0)
    } else {
        Frame::Stereo(0, 0)
    }
}

/// Pushes silent frames into the ring: one for every `channel_count` slots that were free. Returns
/// how many these were.
pub fn fill_silence(producer: &mut ringbuf::Producer<Frame>, channel_count: usize) -> (total: usize)
    requires
        channel_count > 0,
    ensures
        exists|free: nat|
            #![trigger free / channel_count as nat]
            {
                &&& free <= capacity(*old(producer))
                &&& total == free / channel_count as nat
                &&& room(*final(producer)) == free - total
            },
        pushed(*final(producer)) == pushed(*old(producer)) + Seq::new(
            total as nat,
            |i: int| silent_frame(channel_count as int),
        ),
        capacity(*final(producer)) == capacity(*old(producer)),
        stream_in(*final(producer)) == stream_in(*old(producer)),
        pushed(*old(producer)).is_prefix_of(stream_in(*old(producer))) ==> pushed(
            *final(producer),
        ).is_prefix_of(stream_in(*final(producer))),
{
    let free: usize = remaining(producer);
    let total: usize = free / channel_count;
    let frame = if channel_count == 1 {
        Frame::Mono(0)
    } else {
        Frame::Stereo(0, 0)
    };
    let ghost before = pushed(*old(producer));
    assert(total <= free) by (nonlinear_arith)
        requires
            total == free / channel_count,
            channel_count > 0,
    ;
    let mut i: usize = 0;
    assert(before =~= before + Seq::new(0, |i: int| frame));
    while i < total
        invariant
            i <= total <= free,
            frame == silent_frame(channel_count as int),
            room(*producer) == free - i,
            pushed(*producer) == before + Seq::new(i as nat, |i: int| frame),
            capacity(*producer) == capacity(*old(producer)),
            stream_in(*producer) == stream_in(*old(producer)),
            before.is_prefix_of(stream_in(*old(producer))) ==> pushed(*producer).is_prefix_of(
                stream_in(*producer),
            ),
        decreases total - i,
    {
        let _ = push(producer, frame);
        i += 1;
        assert(pushed(*producer) =~= before + Seq::new(i as nat, |i: int| frame));
    }
    assert(pushed(*producer) =~= before + Seq::new(
        total as nat,
        |i: int| silent_frame(channel_count as int),
    ));
    assert(free as nat / channel_count as nat == total);
    total
}

/// So many silent frames.
pub open spec fn silence(count: nat, channel_count: int) -> Seq<Frame> {
    Seq::new(count, |i: int| silent_frame(channel_count))
}

/// `frames` are what the synthesizer made of so many silent frames, which left it in `post`. Where there
/// are none, it was not asked.
pub open spec fn drawn<S: Synth>(
    pre: S,
    post: S,
    channel_count: usize,
    count: nat,
    frames: Seq<Frame>,
) -> bool {
    &&& frames.len() == count
    &&& if count == 0 {
        post == pre
    } else {
        exists|generated: usize| #[trigger]
            S::generates(
                pre,
                post,
                channel_count,
                silence(count, channel_count as int),
                frames,
                generated,
            )
    }
}

/// Draws frames from the synthesizer and pushes them into the ring: `due` frames, or as many as there
/// are `channel_count` free slots for. Returns how many these were.
pub fn render<S: Synth>(
    synth: &mut S,
    producer: &mut ringbuf::Producer<Frame>,
    channel_count: usize,
    due: usize,
) -> (total: usize)
    requires
        channel_count > 0,
    ensures
        room(*final(producer)) + total <= capacity(*old(producer)),
        total == {
            let free = room(*final(producer)) + total;
            if free / channel_count as int <= due {
                free / channel_count as int
            } else {
                due as int
            }
        },
        exists|frames: Seq<Frame>|
            {
                &&& #[trigger] drawn(
                    *old(synth),
                    *final(synth),
                    channel_count,
                    total as nat,
                    frames,
                )
                &&& pushed(*final(producer)) == pushed(*old(producer)) + frames
            },
        capacity(*final(producer)) == capacity(*old(producer)),
        stream_in(*final(producer)) == stream_in(*old(producer)),
        pushed(*old(producer)).is_prefix_of(stream_in(*old(producer))) ==> pushed(
            *final(producer),
        ).is_prefix_of(stream_in(*final(producer))),
{
    let free: usize = remaining(producer);
    let fitting: usize = free / channel_count;
    let total: usize = if fitting <= due { fitting } else { due };
    assert(fitting <= free) by (nonlinear_arith)
        requires
            fitting == free / channel_count,
            channel_count > 0,
    ;
    let silent = if channel_count == 1 {
        Frame::Mono(0)
    } else {
        Frame::Stereo(0, 0)
    };
    let mut buffer: Vec<Frame> = vec![silent; total];
    assert(buffer@ =~= silence(total as nat, channel_count as int));
    if total > 0 {
        let _ = synth.gen_samples(channel_count, buffer.as_mut_slice());
    }
    let ghost frames = buffer@;
    let ghost before = pushed(*old(producer));
    assert(drawn(*old(synth), *synth, channel_count, total as nat, frames));
    assert(before =~= before + frames.take(0));
    let mut i: usize = 0;
    while i < total
        invariant
            i <= total <= free,
            frames == buffer@,
            frames.len() == total,
            room(*producer) == free - i,
            pushed(*producer) == before + frames.take(i as int),
            capacity(*producer) == capacity(*old(producer)),
            stream_in(*producer) == stream_in(*old(producer)),
            before.is_prefix_of(stream_in(*old(producer))) ==> pushed(*producer).is_prefix_of(
                stream_in(*producer),
            ),
        decreases total - i,
    {
        let _ = push(producer, buffer[i]);
        i += 1;
        assert(pushed(*producer) =~= before + frames.take(i as int));
    }
    assert(frames.take(total as int) =~= frames);
    total
}

/// What came of taking an event.
#[derive(Clone, Copy, Debug, PartialEq, Eq)]
pub struct Taken {
    /// The tempo that starts now, as microseconds per beat and ticks per beat.
    pub tempo: Option<(u32, u16)>,
    /// The tick of the event, counted from the start of the song.
    pub offset: u64,
    /// The ticks until the next event, or nothing where there is none.
    pub wait: Option<u64>,
}

/// A song that is being played, event by event.
pub struct SongCursor {
    pub timing: Timing,
    pub events: Vec<TimedEvent>,
    /// How many events were taken.
    pub taken: usize,
}

/// What a song that is being played consists of.
pub struct SongCursorModel {
    pub timing: Timing,
    pub events: Seq<TimedEvent>,
    pub taken: int,
}

impl View for SongCursor {
    type V = SongCursorModel;

    open spec fn view(&self) -> SongCursorModel {
        SongCursorModel { timing: self.timing, events: self.events@, taken: self.taken as int }
    }
}

/// The tempo that an event starts.
pub open spec fn tempo_of(kind: EventKind, timing: Timing) -> Option<(u32, u16)> {
    match (kind, timing) {
        (EventKind::Tempo(micros), Timing::Metrical(ticks)) => Some((micros, ticks)),
        _ => None,
    }
}

impl SongCursorModel {
    /// The ticks from the event that is taken next to the one after it.
    pub open spec fn wait(self) -> Option<u64> {
        if self.taken + 1 < self.events.len() {
            let ticks = self.events[self.taken + 1].0 - self.events[self.taken].0;
            Some(
                if ticks >= 0 {
                    ticks as u64
                } else {
                    0
                },
            )
        } else {
            None
        }
    }
}

/// What an event does to a synthesizer: a message for it is handed over, and nothing else touches
/// it.
pub open spec fn struck<S: Synth>(kind: EventKind, pre: S, post: S) -> bool {
    match kind {
        EventKind::Midi { channel, message } => S::receives(pre, post, channel as usize, message),
        _ => post == pre,
    }
}

impl SongCursor {
    /// Starts a song.
    pub fn open(song: &MidiSong) -> (r: Self)
        requires
            song@.ticks_fit(),
        ensures
            r@ == (SongCursorModel { timing: song@.timing, events: song@.events(), taken: 0 }),
            song@.happens_as(r@.events),
    {
        SongCursor { timing: song.timing, events: song.iter(), taken: 0 }
    }

    /// Starts the song in the bytes of a MIDI file, where they are a song that can be played.
    pub fn start(bytes: &Vec<u8>) -> (r: Option<Self>)
        ensures
            match song_in(bytes@) {
                Some(song) => {
                    &&& r is Some
                    &&& r->0@ == (SongCursorModel {
                        timing: song.timing,
                        events: song.events(),
                        taken: 0,
                    })
                    &&& song.happens_as(r->0@.events)
                },
                None => r is None,
            },
    {
        match MidiSong::try_from_bytes(bytes) {
            Some(song) => {
                if song.ticks_fit() {
                    Some(Self::open(&song))
                } else {
                    None
                }
            },
            None => None,
        }
    }

    /// Takes the next event and lets it happen.
    pub fn take<S: Synth>(&mut self, synth: &mut S) -> (r: Option<Taken>)
        ensures
            old(self)@.taken < old(self)@.events.len() ==> {
                let (offset, _, kind) = old(self)@.events[old(self)@.taken];
                &&& r == Some(
                    Taken {
                        tempo: tempo_of(kind, old(self)@.timing),
                        offset,
                        wait: old(self)@.wait(),
                    },
                )
                &&& struck(kind, *old(synth), *final(synth))
                &&& final(self)@ == (SongCursorModel {
                    taken: old(self)@.taken + 1,
                    ..old(self)@
                })
            },
            old(self)@.taken >= old(self)@.events.len() ==> {
                &&& r is None
                &&& *final(synth) == *old(synth)
                &&& final(self)@ == old(self)@
            },
    {
        if self.taken >= self.events.len() {
            return None;
        }
        let (offset, _, kind) = self.events[self.taken];
        self.taken = self.taken + 1;
        let mut tempo: Option<(u32, u16)> = None;
        match kind {
            EventKind::Tempo(micros) => {
                if let Timing::Metrical(ticks) = self.timing {
                    tempo = Some((micros, ticks));
                }
            },
            EventKind::Midi { channel, message } => {
                synth.midi_message(channel as usize, message);
            },
            _ => {},
        }
        let mut wait: Option<u64> = None;
        if self.taken < self.events.len() {
            let next: u64 = self.events[self.taken].0;
            wait = Some(
                if next >= offset {
                    next - offset
                } else {
                    0
                },
            );
        }
        Some(Taken { tempo, offset, wait })
    }
}

/// How many millionths of a sample a tick lasts: the whole microseconds of a tick times the sample
/// rate.
pub open spec fn micro_samples(micros_per_beat: u32, ticks_per_beat: u16, sample_rate: usize) -> int {
    (micros_per_beat as int / ticks_per_beat as int) * sample_rate
}

/// How many millionths of a sample a tick lasts.
pub fn micro_samples_per_tick(micros_per_beat: u32, ticks_per_beat: u16, sample_rate: usize) -> (r:
    usize)
    requires
        ticks_per_beat > 0,
        (micros_per_beat as int / ticks_per_beat as int) * sample_rate <= usize::MAX,
    ensures
        r == (micros_per_beat as int / ticks_per_beat as int) * sample_rate,
        r == micro_samples(micros_per_beat, ticks_per_beat, sample_rate),
{
    let micros_per_tick: u32 = micros_per_beat / ticks_per_beat as u32;
    assert(micros_per_tick * sample_rate >= 0) by (nonlinear_arith);
    micros_per_tick as usize * sample_rate
}

/// Silence is zero on the one channel, or on both of two.
pub proof fn law_silence_is_zero(count: nat, channel_count: int, i: int)
    requires
        0 <= i < count,
    ensures
        silence(count, channel_count).len() == count,
        channel_count == 1 ==> silence(count, channel_count)[i] == Frame::Mono(0),
        channel_count != 1 ==> silence(count, channel_count)[i] == Frame::Stereo(0, 0),
{
}

/// A tempo event sets the tempo that it says, with the ticks per beat of the song.
pub proof fn law_tempo_is_set_by_its_event(micros: u32, ticks: u16)
    ensures
        tempo_of(EventKind::Tempo(micros), Timing::Metrical(ticks)) == Some((micros, ticks)),
{
}

/// Nothing else sets a tempo: no other event, and none under a time code.
pub proof fn law_tempo_is_set_by_nothing_else(kind: EventKind, timing: Timing)
    requires
        !(kind is Tempo) || timing is Timecode,
    ensures
        tempo_of(kind, timing) is None,
{
}

/// The wait behind an event is what the tick of the next one is past its own; behind the last one there is
/// none.
pub proof fn law_wait_is_between_ticks(c: SongCursorModel)
    requires
        in_time_order(c.events),
        0 <= c.taken < c.events.len(),
    ensures
        c.taken == c.events.len() - 1 ==> c.wait() is None,
        c.taken < c.events.len() - 1 ==> {
            &&& c.wait() is Some
            &&& c.events[c.taken].0 + c.wait()->0 == c.events[c.taken + 1].0
        },
{
}

/// A message reaches the synthesizer on its own channel, and no other event touches it.
pub proof fn law_messages_reach_the_synthesizer<S: Synth>(kind: EventKind, pre: S, post: S)
    ensures
        kind matches EventKind::Midi { channel, message } ==> (struck(kind, pre, post) <==> S::receives(
            pre,
            post,
            channel as usize,
            message,
        )),
        !(kind is Midi) ==> (struck(kind, pre, post) <==> post == pre),
{
}

/// Frames are drawn from a cleared buffer, all of them at once; a synthesizer that is asked for none is left
/// alone.
pub proof fn law_frames_are_drawn_from_silence<S: Synth>(
    pre: S,
    post: S,
    channel_count: usize,
    count: nat,
    frames: Seq<Frame>,
)
    requires
        drawn(pre, post, channel_count, count, frames),
    ensures
        frames.len() == count,
        count == 0 ==> post == pre,
        count > 0 ==> exists|before: Seq<Frame>, generated: usize|
            {
                &&& before.len() == count
                &&& forall|i: int|
                    0 <= i < count ==> before[i] == if channel_count == 1 {
                        Frame::Mono(0)
                    } else {
                        Frame::Stereo(0, 0)
                    }
                &&& #[trigger] S::generates(pre, post, channel_count, before, frames, generated)
            },
{
    if count > 0 {
        let before = silence(count, channel_count as int);
        let generated = choose|generated: usize| #[trigger]
            S::generates(pre, post, channel_count, before, frames, generated);
        assert(S::generates(pre, post, channel_count, before, frames, generated));
    }
}

/// A tick lasts as many whole microseconds as fit into its share of a beat, and as many samples as fall on
/// those.
pub proof fn law_ticks_share_a_beat(micros_per_beat: u32, ticks_per_beat: u16, sample_rate: usize)
    requires
        ticks_per_beat > 0,
    ensures
        ({
            let micros_per_tick = micro_samples(micros_per_beat, ticks_per_beat, 1);
            &&& micros_per_tick * ticks_per_beat <= micros_per_beat
            &&& micros_per_beat < (micros_per_tick + 1) * ticks_per_beat
            &&& micro_samples(micros_per_beat, ticks_per_beat, sample_rate) == sample_rate
                * micros_per_tick
        }),
{
    let m = micros_per_beat as int;
    let t = ticks_per_beat as int;
    let q = m / t;
    let r = sample_rate as int;
    assert(q * t <= m && m < (q + 1) * t && q * 1 == q && q * r == r * q) by (nonlinear_arith)
        requires
            t > 0,
            q == m / t,
    ;
}

/// A song that is being played shows its timing, its events and how many were taken.
pub proof fn law_cursors_show_what_they_hold(c: SongCursor)
    ensures
        c@.timing == c.timing,
        c@.events == c.events@,
        c@.taken == c.taken,
{
}

} // verus!
