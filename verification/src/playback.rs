//! A song that is being played: which of its events happened, and what comes next.
use vstd::prelude::*;

use crate::smf::{EventKind, MidiMessage, Timing};
use crate::song::{in_time_order, song_in, MidiSong, TimedEvent};
use crate::synth::Synth;

verus! {

/// What came of moving on to the next event.
#[derive(Clone, Copy, Debug, PartialEq, Eq)]
pub struct Fired {
    /// The tempo that starts now, as microseconds per beat and ticks per beat.
    pub tempo: Option<(u32, u16)>,
    /// The ticks until the next event, or nothing where the song is over.
    pub wait: Option<u64>,
}

/// A song that is being played.
pub struct Playback {
    pub timing: Timing,
    pub events: Vec<TimedEvent>,
    /// How many events were fetched. All of them but the last have happened.
    pub fetched: usize,
}

/// What a song that is being played consists of.
pub struct PlaybackModel {
    pub timing: Timing,
    pub events: Seq<TimedEvent>,
    pub fetched: int,
}

impl View for Playback {
    type V = PlaybackModel;

    open spec fn view(&self) -> PlaybackModel {
        PlaybackModel { timing: self.timing, events: self.events@, fetched: self.fetched as int }
    }
}

impl PlaybackModel {
    /// The events are in time order, and no more were fetched than there are.
    pub open spec fn wf(self) -> bool {
        &&& in_time_order(self.events)
        &&& 0 <= self.fetched <= self.events.len()
    }

    /// The event that was fetched last and is about to happen.
    pub open spec fn due(self) -> Option<TimedEvent> {
        if self.fetched > 0 {
            Some(self.events[self.fetched - 1])
        } else {
            None
        }
    }

    /// The tick that the song has come to: that of the event which is about to happen.
    pub open spec fn now(self) -> int {
        match self.due() {
            Some(event) => event.0 as int,
            None => 0,
        }
    }

    /// The tempo that starts when the due event happens.
    pub open spec fn tempo(self) -> Option<(u32, u16)> {
        match (self.due(), self.timing) {
            (Some((_, _, EventKind::Tempo(micros))), Timing::Metrical(ticks)) => Some(
                (micros, ticks),
            ),
            _ => None,
        }
    }

    /// The ticks from the due event to the one after it.
    pub open spec fn wait(self) -> Option<u64> {
        if self.fetched < self.events.len() {
            Some((self.events[self.fetched].0 - self.now()) as u64)
        } else {
            None
        }
    }

    /// The same song with one event more fetched, if there is one.
    pub open spec fn moved_on(self) -> PlaybackModel {
        PlaybackModel {
            fetched: if self.fetched < self.events.len() {
                self.fetched + 1
            } else {
                self.fetched
            },
            ..self
        }
    }
}

/// What the due event does to a synthesizer: a message for it is handed over, and nothing else
/// touches it.
pub open spec fn struck<S: Synth>(due: Option<TimedEvent>, pre: S, post: S) -> bool {
    match due {
        Some((_, _, EventKind::Midi { channel, message })) => S::receives(
            pre,
            post,
            channel as usize,
            message,
        ),
        _ => post == pre,
    }
}

impl Playback {
    /// Starts a song.
    pub fn open(song: &MidiSong) -> (r: Self)
        requires
            song@.ticks_fit(),
        ensures
            r@ == (PlaybackModel { timing: song@.timing, events: song@.events(), fetched: 0 }),
            r@.wf(),
            song@.happens_as(r@.events),
    {
        Playback { timing: song.timing, events: song.iter(), fetched: 0 }
    }

    /// Starts the song in the bytes of a MIDI file and resets the synthesizer for it. Where the bytes
    /// are no song that can be played, nothing happens.
    pub fn start<S: Synth>(bytes: &Vec<u8>, synth: &mut S) -> (r: Option<Self>)
        ensures
            match song_in(bytes@) {
                Some(song) => {
                    &&& r is Some
                    &&& r->0@ == (PlaybackModel {
                        timing: song.timing,
                        events: song.events(),
                        fetched: 0,
                    })
                    &&& r->0@.wf()
                    &&& song.happens_as(r->0@.events)
                    &&& S::resets(*old(synth), *final(synth))
                },
                None => r is None && *final(synth) == *old(synth),
            },
    {
        match MidiSong::try_from_bytes(bytes) {
            Some(song) => {
                if song.ticks_fit() {
                    synth.reset();
                    Some(Self::open(&song))
                } else {
                    None
                }
            },
            None => None,
        }
    }

    /// Lets the due event happen and fetches the next one.
    pub fn fire<S: Synth>(&mut self, synth: &mut S) -> (r: Fired)
        requires
            old(self)@.wf(),
        ensures
            final(self)@ == old(self)@.moved_on(),
            final(self)@.wf(),
            struck(old(self)@.due(), *old(synth), *final(synth)),
            r.tempo == old(self)@.tempo(),
            r.wait == old(self)@.wait(),
            old(self)@.fetched > 0 ==> match (
                old(self)@.events[old(self)@.fetched - 1].2,
                old(self)@.timing,
            ) {
                (EventKind::Tempo(micros), Timing::Metrical(ticks)) => r.tempo == Some(
                    (micros, ticks),
                ),
                _ => r.tempo is None,
            },
            old(self)@.fetched == 0 ==> r.tempo is None,
    {
        let mut old_offset: u64 = 0;
        let mut tempo: Option<(u32, u16)> = None;
        if self.fetched > 0 {
            let (offset, _, kind) = self.events[self.fetched - 1];
            match kind {
                EventKind::Tempo(micros) => {
                    if let Timing::Metrical(ticks) = self.timing {
                        tempo = Some((micros, ticks));
                    }
                },
                EventKind::Midi { channel, message } => {
                    synth.midi_message(channel as usize, message);
                },
                _ => {},
            }
            old_offset = offset;
        }
        if self.fetched < self.events.len() {
            let (offset, _, _) = self.events[self.fetched];
            self.fetched = self.fetched + 1;
            Fired { tempo, wait: Some(offset - old_offset) }
        } else {
            Fired { tempo, wait: None }
        }
    }
}

/// The song after `n` events were fetched.
pub open spec fn after(start: PlaybackModel, n: nat) -> PlaybackModel
    decreases n,
{
    if n == 0 {
        start
    } else {
        after(start, (n - 1) as nat).moved_on()
    }
}

/// The ticks waited for until `n` events were fetched.
pub open spec fn waited(start: PlaybackModel, n: nat) -> int
    decreases n,
{
    if n == 0 {
        0
    } else {
        waited(start, (n - 1) as nat) + match after(start, (n - 1) as nat).wait() {
            Some(ticks) => ticks as int,
            None => 0,
        }
    }
}

/// From the start of a song, each event happens after waits that add up to its own tick, and none is
/// left out: after `n + 1` steps event `n` is due.
pub proof fn law_waits_add_up(start: PlaybackModel, n: nat)
    requires
        start.wf(),
        start.fetched == 0,
        n < start.events.len(),
    ensures
        after(start, n + 1).due() == Some(start.events[n as int]),
        waited(start, n + 1) == start.events[n as int].0,
    decreases n,
{
    if n > 0 {
        law_waits_add_up(start, (n - 1) as nat);
    }
    lemma_after(start, n);
    lemma_after(start, n + 1);
    assert(waited(start, 0) == 0);
}

/// Where a song is after `n` steps from its start.
proof fn lemma_after(start: PlaybackModel, n: nat)
    requires
        start.wf(),
        start.fetched == 0,
        n <= start.events.len(),
    ensures
        after(start, n) == (PlaybackModel { fetched: n as int, ..start }),
    decreases n,
{
    if n > 0 {
        lemma_after(start, (n - 1) as nat);
    }
}

/// A song ends once every event has happened, and not before.
pub proof fn law_ends_after_last_event(start: PlaybackModel, n: nat)
    requires
        start.wf(),
        start.fetched == 0,
        n <= start.events.len(),
    ensures
        after(start, n).wait() is None <==> n == start.events.len(),
{
    lemma_after(start, n);
}

/// When a tempo event happens in a song that counts ticks per beat, the tempo that starts is the one that
/// this event sets, together with the ticks per beat of the song.
pub proof fn law_tempo_is_set_by_its_event(
    p: PlaybackModel,
    tick: u64,
    track: usize,
    micros: u32,
    ticks: u16,
)
    requires
        0 < p.fetched <= p.events.len(),
        p.events[p.fetched - 1] == (tick, track, EventKind::Tempo(micros)),
        p.timing == Timing::Metrical(ticks),
    ensures
        p.tempo() == Some((micros, ticks)),
{
}

/// Nothing else starts a tempo: no other event, no event under a time code, and not the start of a song.
pub proof fn law_tempo_is_set_by_nothing_else(p: PlaybackModel)
    requires
        0 <= p.fetched <= p.events.len(),
        p.fetched == 0 || !(p.events[p.fetched - 1].2 is Tempo) || p.timing is Timecode,
    ensures
        p.tempo() is None,
{
}

/// The wait before an event is what its tick is past the tick of the event before it, or past the start of
/// the song; behind the last event there is none.
pub proof fn law_wait_is_between_ticks(p: PlaybackModel)
    requires
        p.wf(),
    ensures
        p.fetched == p.events.len() ==> p.wait() is None,
        p.fetched == 0 && p.events.len() > 0 ==> p.wait() == Some(p.events[0].0),
        0 < p.fetched < p.events.len() ==> {
            &&& p.wait() is Some
            &&& p.events[p.fetched - 1].0 + p.wait()->0 == p.events[p.fetched].0
        },
{
}

/// A message is handed to the synthesizer when its event happens, on the channel of the event.
pub proof fn law_messages_reach_the_synthesizer<S: Synth>(
    p: PlaybackModel,
    tick: u64,
    track: usize,
    channel: u8,
    message: MidiMessage,
    pre: S,
    post: S,
)
    requires
        0 < p.fetched <= p.events.len(),
        p.events[p.fetched - 1] == (tick, track, EventKind::Midi { channel, message }),
    ensures
        struck(p.due(), pre, post) <==> S::receives(pre, post, channel as usize, message),
{
}

/// No other event touches the synthesizer, and the start of a song does not either.
pub proof fn law_nothing_else_reaches_the_synthesizer<S: Synth>(p: PlaybackModel, pre: S, post: S)
    requires
        0 <= p.fetched <= p.events.len(),
        p.fetched == 0 || !(p.events[p.fetched - 1].2 is Midi),
    ensures
        struck(p.due(), pre, post) <==> post == pre,
{
}

/// Moving on fetches the next event and leaves the song as it is.
pub proof fn law_moving_on_keeps_the_song(p: PlaybackModel)
    requires
        p.wf(),
    ensures
        p.moved_on().wf(),
        p.moved_on().timing == p.timing,
        p.moved_on().events == p.events,
        p.fetched < p.events.len() ==> p.moved_on().fetched == p.fetched + 1,
        p.fetched == p.events.len() ==> p.moved_on() == p,
        p.fetched < p.events.len() ==> p.moved_on().due() == Some(p.events[p.fetched]),
{
}

/// From the start of a song, a tempo event is in force once it has happened: after `n + 1` steps the tempo
/// that starts is the one that event `n` sets.
pub proof fn law_song_sets_its_tempo(start: PlaybackModel, n: nat, micros: u32, ticks: u16)
    requires
        start.wf(),
        start.fetched == 0,
        n < start.events.len(),
        start.events[n as int].2 == EventKind::Tempo(micros),
        start.timing == Timing::Metrical(ticks),
    ensures
        after(start, n + 1).tempo() == Some((micros, ticks)),
{
    lemma_after(start, n + 1);
}

/// A song that is being played shows its timing, its events and how many were fetched.
pub proof fn law_playbacks_show_what_they_hold(p: Playback)
    ensures
        p@.timing == p.timing,
        p@.events == p.events@,
        p@.fetched == p.fetched,
{
}

} // verus!
