//! Songs: the tracks of a MIDI file and the order in which their events happen.
use vstd::prelude::*;

use crate::smf::{EventKind, Timing, TrackEvent};

verus! {

/// An event with the tick at which it happens, counted from the start of the song, and the index
/// of the track that it is from.
pub type TimedEvent = (u64, usize, EventKind);

/// What a song is: what a tick is worth, and the events of each track.
pub struct SongModel {
    pub timing: Timing,
    pub tracks: Seq<Seq<TrackEvent>>,
}

/// A song that can be played.
pub struct MidiSong {
    pub timing: Timing,
    pub tracks: Vec<Vec<TrackEvent>>,
}

impl View for MidiSong {
    type V = SongModel;

    open spec fn view(&self) -> SongModel {
        SongModel { timing: self.timing, tracks: self.tracks@.map_values(|t: Vec<TrackEvent>| t@) }
    }
}

/// The ticks from the start of a track to its event `n - 1`: the sum of the first `n` deltas.
pub open spec fn ticks(track: Seq<TrackEvent>, n: int) -> int
    decreases n,
{
    if n <= 0 {
        0
    } else {
        ticks(track, n - 1) + track[n - 1].delta
    }
}

/// The events of a track with the ticks at which they happen.
pub open spec fn timed_track(track: Seq<TrackEvent>, index: int) -> Seq<TimedEvent> {
    Seq::new(track.len(), |i: int| (ticks(track, i + 1) as u64, index as usize, track[i].kind))
}

/// No event comes before the one it follows.
pub open spec fn in_time_order(events: Seq<TimedEvent>) -> bool {
    forall|i: int, j: int| 0 <= i <= j < events.len() ==> events[i].0 <= events[j].0
}

/// Tells the events of one track.
pub open spec fn is_of_track(index: int) -> spec_fn(TimedEvent) -> bool {
    |e: TimedEvent| e.1 == index
}

/// The events of one track among all events.
pub open spec fn of_track(events: Seq<TimedEvent>, index: int) -> Seq<TimedEvent> {
    events.filter(is_of_track(index))
}

/// Every event carries the index of the track that it stands in.
pub open spec fn tagged(tracks: Seq<Seq<TimedEvent>>) -> bool {
    forall|t: int, i: int|
        0 <= t < tracks.len() && 0 <= i < tracks[t].len() ==> (#[trigger] tracks[t][i]).1 == t
}

impl SongModel {
    /// The tracks with the ticks at which their events happen.
    pub open spec fn timed_tracks(self) -> Seq<Seq<TimedEvent>> {
        Seq::new(self.tracks.len(), |t: int| timed_track(self.tracks[t], t))
    }

    /// Each track ends at a tick that fits in 64 bits.
    pub open spec fn ticks_fit(self) -> bool {
        forall|t: int|
            0 <= t < self.tracks.len() ==> ticks(
                #[trigger] self.tracks[t],
                self.tracks[t].len() as int,
            ) <= u64::MAX
    }

    /// `events` are the events of all tracks in time order, each track in its own order and none left
    /// out.
    pub open spec fn happens_as(self, events: Seq<TimedEvent>) -> bool {
        &&& in_time_order(events)
        &&& forall|t: int| #[trigger]
            of_track(events, t) == if 0 <= t < self.tracks.len() {
                timed_track(self.tracks[t], t)
            } else {
                seq![]
            }
    }

    /// The events of all tracks in the order in which they happen.
    pub open spec fn events(self) -> Seq<TimedEvent> {
        merged(self.timed_tracks())
    }
}

/// The song in the bytes of a MIDI file, if it can be played: `midly` parses the file, and every
/// event has a tick.
pub open spec fn song_in(bytes: Seq<u8>) -> Option<SongModel> {
    match crate::smf::parsed_smf(bytes) {
        Some((timing, tracks)) if crate::smf::timecodes_negate_spec(bytes) && (SongModel {
            timing,
            tracks,
        }).ticks_fit() => Some(SongModel { timing, tracks }),
        _ => None,
    }
}

/// The order in which `itertools::kmerge_by` hands out the events of `tracks` when it compares
/// them by their ticks. Which of two events at one tick goes first is its own choice.
pub uninterp spec fn merged(tracks: Seq<Seq<TimedEvent>>) -> Seq<TimedEvent>;

/// Whether `a` happens at an earlier tick than `b`.
pub fn happens_before(a: &TimedEvent, b: &TimedEvent) -> (r: bool)
    ensures
        r == (a.0 < b.0),
{
    a.0 < b.0
}

/// Collects what `itertools::kmerge_by` hands out for `tracks`, with [`happens_before`] as the
/// order. It takes the events of each track in their order and leaves none out; where each track is
/// in time order, so is the outcome.
#[verifier::external_body]
fn kmerge(tracks: Vec<Vec<TimedEvent>>) -> (r: Vec<TimedEvent>)
    ensures
        r@ == merged(tracks@.map_values(|t: Vec<TimedEvent>| t@)),
        tagged(tracks@.map_values(|t: Vec<TimedEvent>| t@)) ==> forall|t: int|
            #[trigger] of_track(r@, t) == if 0 <= t < tracks@.len() {
                tracks@[t]@
            } else {
                seq![]
            },
        (forall|t: int| 0 <= t < tracks@.len() ==> in_time_order(#[trigger] tracks@[t]@))
            ==> in_time_order(r@),
{
    itertools::kmerge_by(tracks, |a: &TimedEvent, b: &TimedEvent| happens_before(a, b)).collect()
}

/// Ticks only grow along a track.
pub proof fn lemma_ticks_monotonic(track: Seq<TrackEvent>, m: int, n: int)
    requires
        m <= n <= track.len(),
    ensures
        ticks(track, m) <= ticks(track, n),
        0 <= ticks(track, m),
    decreases n - m, m,
{
    if m < n {
        lemma_ticks_monotonic(track, m, n - 1);
    } else if m > 0 {
        lemma_ticks_monotonic(track, m - 1, m - 1);
    }
}

/// A track with its ticks is in time order.
proof fn lemma_timed_track_in_order(track: Seq<TrackEvent>, index: int)
    requires
        ticks(track, track.len() as int) <= u64::MAX,
    ensures
        in_time_order(timed_track(track, index)),
{
    let timed = timed_track(track, index);
    assert forall|i: int, j: int| 0 <= i <= j < timed.len() implies timed[i].0 <= timed[j].0 by {
        lemma_ticks_monotonic(track, i + 1, j + 1);
        lemma_ticks_monotonic(track, j + 1, track.len() as int);
    }
}

impl MidiSong {
    /// Reads a song from the bytes of a MIDI file, which `midly` must be able to parse.
    pub fn from_bytes(bytes: &Vec<u8>) -> (song: Self)
        requires
            crate::smf::timecodes_negate_spec(bytes@),
            crate::smf::parsed_smf(bytes@) is Some,
        ensures
            crate::smf::parsed_smf(bytes@) == Some((song@.timing, song@.tracks)),
    {
        match crate::smf::parse(bytes.as_slice()) {
            Ok(smf) => Self::from_smf(&smf),
            Err(_) => vstd::pervasive::unreached(),
        }
    }

    /// Reads a song from the bytes of a MIDI file, where they are one.
    pub fn try_from_bytes(bytes: &Vec<u8>) -> (r: Option<Self>)
        ensures
            r is Some <==> crate::smf::timecodes_negate_spec(bytes@)
                && crate::smf::parsed_smf(bytes@) is Some,
            r matches Some(song) ==> crate::smf::parsed_smf(bytes@) == Some(
                (song@.timing, song@.tracks),
            ),
    {
        if !crate::smf::timecodes_negate(bytes.as_slice()) {
            return None;
        }
        if crate::smf::parse(bytes.as_slice()).is_err() {
            return None;
        }
        Some(Self::from_bytes(bytes))
    }

    /// Takes over the timing and the tracks of a parsed file.
    fn from_smf(smf: &midly::Smf) -> (song: Self)
        ensures
            song@.timing == crate::smf::smf_timing(*smf),
            song@.tracks == crate::smf::smf_tracks(*smf),
    {
        let ghost source = crate::smf::smf_tracks(*smf);
        let count: usize = crate::smf::track_count(smf);
        let mut tracks: Vec<Vec<TrackEvent>> = Vec::new();
        let mut t: usize = 0;
        while t < count
            invariant
                source == crate::smf::smf_tracks(*smf),
                count == source.len(),
                t <= count,
                tracks@.len() == t,
                forall|k: int| 0 <= k < t ==> (#[trigger] tracks@[k])@ == source[k],
            decreases count - t,
        {
            let len: usize = crate::smf::track_len(smf, t);
            let mut track: Vec<TrackEvent> = Vec::new();
            let mut i: usize = 0;
            while i < len
                invariant
                    source == crate::smf::smf_tracks(*smf),
                    t < source.len(),
                    len == source[t as int].len(),
                    i <= len,
                    track@ == source[t as int].take(i as int),
                decreases len - i,
            {
                track.push(crate::smf::event(smf, t, i));
                i += 1;
                assert(track@ =~= source[t as int].take(i as int));
            }
            assert(track@ =~= source[t as int]);
            tracks.push(track);
            t += 1;
        }
        let song = MidiSong { timing: crate::smf::timing(smf), tracks };
        assert(song@.tracks =~= source);
        song
    }

    /// Whether each track ends at a tick that fits in 64 bits.
    pub fn ticks_fit(&self) -> (r: bool)
        ensures
            r == self@.ticks_fit(),
    {
        let mut t: usize = 0;
        while t < self.tracks.len()
            invariant
                t <= self.tracks@.len(),
                forall|k: int|
                    0 <= k < t ==> ticks(
                        #[trigger] self@.tracks[k],
                        self@.tracks[k].len() as int,
                    ) <= u64::MAX,
            decreases self.tracks@.len() - t,
        {
            let track: &Vec<TrackEvent> = &self.tracks[t];
            assert(track@ == self@.tracks[t as int]);
            let mut offset: u64 = 0;
            let mut i: usize = 0;
            while i < track.len()
                invariant
                    t < self.tracks@.len(),
                    track@ == self@.tracks[t as int],
                    i <= track@.len(),
                    offset == ticks(track@, i as int),
                decreases track@.len() - i,
            {
                match offset.checked_add(track[i].delta as u64) {
                    Some(sum) => {
                        offset = sum;
                    },
                    None => {
                        proof {
                            lemma_ticks_monotonic(track@, i + 1, track@.len() as int);
                            assert(!self@.ticks_fit());
                        }
                        return false;
                    },
                }
                i += 1;
            }
            t += 1;
        }
        assert(self@.tracks.len() == self.tracks@.len());
        true
    }

    /// The events of all tracks in one list, each with its tick, in the order in which they happen.
    pub fn iter(&self) -> (events: Vec<TimedEvent>)
        requires
            self@.ticks_fit(),
        ensures
            events@ == self@.events(),
            self@.happens_as(events@),
    {
        let mut timed: Vec<Vec<TimedEvent>> = Vec::new();
        let mut t: usize = 0;
        while t < self.tracks.len()
            invariant
                self@.ticks_fit(),
                t <= self.tracks@.len(),
                timed@.len() == t,
                forall|k: int|
                    0 <= k < t ==> (#[trigger] timed@[k])@ == timed_track(self@.tracks[k], k),
            decreases self.tracks@.len() - t,
        {
            let track: &Vec<TrackEvent> = &self.tracks[t];
            assert(track@ == self@.tracks[t as int]);
            let mut offset: u64 = 0;
            let mut events: Vec<TimedEvent> = Vec::new();
            let mut i: usize = 0;
            while i < track.len()
                invariant
                    track@ == self@.tracks[t as int],
                    ticks(track@, track@.len() as int) <= u64::MAX,
                    i <= track@.len(),
                    offset == ticks(track@, i as int),
                    events@ == timed_track(track@, t as int).take(i as int),
                decreases track@.len() - i,
            {
                proof {
                    lemma_ticks_monotonic(track@, i + 1, track@.len() as int);
                }
                offset = offset + track[i].delta as u64;
                events.push((offset, t, track[i].kind));
                i += 1;
                assert(events@ =~= timed_track(track@, t as int).take(i as int));
            }
            assert(events@ =~= timed_track(track@, t as int));
            timed.push(events);
            t += 1;
        }
        proof {
            let view = timed@.map_values(|t: Vec<TimedEvent>| t@);
            assert(view =~= self@.timed_tracks());
            assert(tagged(view));
            assert forall|k: int| 0 <= k < timed@.len() implies in_time_order(
                #[trigger] timed@[k]@,
            ) by {
                assert(ticks(self@.tracks[k], self@.tracks[k].len() as int) <= u64::MAX);
                lemma_timed_track_in_order(self@.tracks[k], k);
            }
        }
        let events = kmerge(timed);
        events
    }
}

/// The ticks of a track: each event comes its own delta after the one before it, the first one after the
/// start, and keeps its kind and its track.
pub proof fn law_deltas_set_the_ticks(track: Seq<TrackEvent>, index: usize, i: int)
    requires
        ticks(track, track.len() as int) <= u64::MAX,
        0 <= i < track.len(),
    ensures
        timed_track(track, index as int).len() == track.len(),
        timed_track(track, index as int)[i].1 == index,
        timed_track(track, index as int)[i].2 == track[i].kind,
        i == 0 ==> timed_track(track, index as int)[i].0 == track[i].delta,
        i > 0 ==> timed_track(track, index as int)[i].0 == timed_track(track, index as int)[i - 1].0
            + track[i].delta,
{
    lemma_ticks_monotonic(track, i, track.len() as int);
    lemma_ticks_monotonic(track, i + 1, track.len() as int);
    if i > 0 {
        lemma_ticks_monotonic(track, i - 1, track.len() as int);
    } else {
        assert(ticks(track, 0) == 0);
        assert(ticks(track, 1) == track[0].delta);
    }
}

/// The tick that a track ends at is the sum of its deltas.
pub proof fn law_ticks_are_the_sum_of_deltas(track: Seq<TrackEvent>)
    ensures
        ticks(track, track.len() as int) == track.fold_left(0int, |sum: int, e: TrackEvent| sum + e.delta),
    decreases track.len(),
{
    if track.len() > 0 {
        let shorter = track.drop_last();
        law_ticks_are_the_sum_of_deltas(shorter);
        lemma_ticks_of_prefix(track, shorter.len() as int);
    }
}

/// The ticks of a track up to an event do not depend on what comes behind it.
proof fn lemma_ticks_of_prefix(track: Seq<TrackEvent>, n: int)
    requires
        0 <= n < track.len(),
    ensures
        ticks(track.drop_last(), n) == ticks(track, n),
    decreases n,
{
    if n > 0 {
        lemma_ticks_of_prefix(track, n - 1);
    }
}

/// A song can be played whose tracks have at most four billion events each, whatever their deltas.
pub proof fn law_ordinary_songs_fit(song: SongModel)
    requires
        forall|t: int| 0 <= t < song.tracks.len() ==> (#[trigger] song.tracks[t]).len() <= u32::MAX,
    ensures
        song.ticks_fit(),
{
    assert forall|t: int| 0 <= t < song.tracks.len() implies ticks(
        #[trigger] song.tracks[t],
        song.tracks[t].len() as int,
    ) <= u64::MAX by {
        let track = song.tracks[t];
        let len = track.len() as int;
        lemma_ticks_bounded(track, len);
        assert(len * u32::MAX <= u64::MAX) by (nonlinear_arith)
            requires
                0 <= len <= u32::MAX,
        ;
    }
}

/// Each event adds at most the largest delta.
proof fn lemma_ticks_bounded(track: Seq<TrackEvent>, n: int)
    requires
        0 <= n <= track.len(),
    ensures
        ticks(track, n) <= n * u32::MAX,
    decreases n,
{
    if n > 0 {
        lemma_ticks_bounded(track, n - 1);
        assert(n * u32::MAX == (n - 1) * u32::MAX + u32::MAX) by (nonlinear_arith);
    }
}

/// Every event of every track happens.
pub proof fn law_every_event_happens(song: SongModel, events: Seq<TimedEvent>, t: int, i: int)
    requires
        song.happens_as(events),
        0 <= t < song.tracks.len(),
        t <= usize::MAX,
        0 <= i < song.tracks[t].len(),
    ensures
        events.contains(timed_track(song.tracks[t], t)[i]),
{
    let of = of_track(events, t);
    assert(of == timed_track(song.tracks[t], t));
    let pred = is_of_track(t);
    assert(events.filter(pred)[i] == of[i]);
    lemma_filtered_was_there(events, pred, i);
}

/// What is kept of some events was among them.
proof fn lemma_filtered_was_there(
    events: Seq<TimedEvent>,
    pred: spec_fn(TimedEvent) -> bool,
    i: int,
)
    requires
        0 <= i < events.filter(pred).len(),
    ensures
        events.contains(events.filter(pred)[i]),
    decreases events.len(),
{
    reveal(Seq::filter);
    if events.len() > 0 {
        let shorter = events.drop_last();
        if i < shorter.filter(pred).len() {
            lemma_filtered_was_there(shorter, pred, i);
            let k = choose|k: int| 0 <= k < shorter.len() && shorter[k] == shorter.filter(pred)[i];
            assert(events[k] == events.filter(pred)[i]);
        } else {
            assert(events[events.len() - 1] == events.filter(pred)[i]);
        }
    }
}

/// Nothing else happens: every event that happens is one of a track, of which it has the number.
pub proof fn law_only_events_of_tracks_happen(song: SongModel, events: Seq<TimedEvent>, k: int)
    requires
        song.happens_as(events),
        0 <= k < events.len(),
    ensures
        events[k].1 < song.tracks.len(),
        timed_track(song.tracks[events[k].1 as int], events[k].1 as int).contains(events[k]),
{
    let t = events[k].1 as int;
    let pred = is_of_track(t);
    events.filter_lemma(pred);
    assert(of_track(events, t) == events.filter(pred));
    assert(events.filter(pred).contains(events[k]));
}

/// Of two events that happen, the first one is never the later one.
pub proof fn law_time_does_not_go_back(song: SongModel, events: Seq<TimedEvent>, i: int, j: int)
    requires
        song.happens_as(events),
        0 <= i < j < events.len(),
    ensures
        events[i].0 <= events[j].0,
{
}

/// Bytes that `midly` parses are a song that can be played, with what it found in them, unless a time code in
/// them has a first byte of `0x80` or a tick does not fit.
pub proof fn law_parsed_songs_can_be_played(bytes: Seq<u8>)
    requires
        forall|p: int|
            0 <= p && p + 14 <= bytes.len() && #[trigger] bytes.subrange(p, p + 4) == seq![
                0x4du8,
                0x54u8,
                0x68u8,
                0x64u8,
            ] ==> bytes[p + 12] != 0x80,
    ensures
        match crate::smf::parsed_smf(bytes) {
            Some((timing, tracks)) => (SongModel { timing, tracks }).ticks_fit() ==> song_in(bytes)
                == Some(SongModel { timing, tracks }),
            None => song_in(bytes) is None,
        },
{
    crate::smf::law_only_such_time_codes_are_held_back(bytes);
}

/// A song shows its timing and the events of each of its tracks.
pub proof fn law_songs_show_what_they_hold(song: MidiSong, t: int)
    requires
        0 <= t < song.tracks@.len(),
    ensures
        song@.timing == song.timing,
        song@.tracks.len() == song.tracks@.len(),
        song@.tracks[t] == song.tracks@[t]@,
{
}

} // verus!
