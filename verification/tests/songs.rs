use rusty_sample_player::midi::SongCursor;
use rusty_sample_player::smf::timecodes_negate;
use rusty_sample_player::song::happens_before;
use rusty_sample_player::{
    EventKind, Fired, MidiMessage, MidiSong, Playback, Synth, Timing, TrackEvent,
};

fn chunk(id: &[u8; 4], body: &[u8]) -> Vec<u8> {
    let mut bytes = id.to_vec();
    bytes.extend((body.len() as u32).to_be_bytes());
    bytes.extend(body);
    bytes
}

fn file(division: [u8; 2], tracks: &[&[u8]]) -> Vec<u8> {
    let count = tracks.len() as u8;
    let mut bytes = chunk(b"MThd", &[0, 1, 0, count, division[0], division[1]]);
    for track in tracks {
        bytes.extend(chunk(b"MTrk", track));
    }
    bytes
}

const FIRST: [u8; 19] = [
    0x00, 0xff, 0x51, 0x03, 0x07, 0xa1, 0x20, // 500000 microseconds per beat
    0x60, 0x90, 0x3c, 0x40, // note on after 96 ticks
    0x60, 0x80, 0x3c, 0x40, // note off after 96 more
    0x00, 0xff, 0x2f, 0x00,
];
const SECOND: [u8; 8] = [0x30, 0x91, 0x40, 0x50, 0x00, 0xff, 0x2f, 0x00];

fn two_tracks(division: [u8; 2]) -> Vec<u8> {
    file(division, &[&FIRST, &SECOND])
}

struct Recorder {
    messages: Vec<(usize, MidiMessage)>,
}

impl Synth for Recorder {
    fn midi_message(&mut self, channel: usize, message: MidiMessage) {
        self.messages.push((channel, message));
    }

    fn gen_samples(&mut self, _rate: usize, _channels: usize, output: &mut [u32]) -> usize {
        output.len()
    }

    fn reset(&mut self) {
        self.messages.clear();
    }
}

impl rusty_sample_player::midi::Synth for Recorder {
    fn midi_message(&mut self, channel: usize, message: MidiMessage) {
        self.messages.push((channel, message));
    }

    fn gen_samples(
        &mut self,
        _channels: usize,
        output: &mut [rusty_sample_player::Frame],
    ) -> usize {
        output.len()
    }
}

fn note_on(key: u8, vel: u8) -> MidiMessage {
    MidiMessage::NoteOn { key, vel }
}

fn note_off(key: u8, vel: u8) -> MidiMessage {
    MidiMessage::NoteOff { key, vel }
}

#[test]
fn song_is_read_from_bytes() {
    let song = MidiSong::from_bytes(&two_tracks([0, 96]));
    assert_eq!(song.timing, Timing::Metrical(96));
    assert_eq!(song.tracks.len(), 2);
    let deltas: Vec<u32> = song.tracks[0].iter().map(|e| e.delta).collect();
    assert_eq!(deltas, vec![0, 96, 96, 0]);
    assert!(matches!(song.tracks[0][0].kind, EventKind::Tempo(500_000)));
    assert!(matches!(
        song.tracks[1][0].kind,
        EventKind::Midi { channel: 1, message } if message == note_on(0x40, 0x50)
    ));
    assert!(matches!(song.tracks[1][1].kind, EventKind::Meta));
}

#[test]
fn system_messages_are_told_apart() {
    let track = [0x00, 0xf0, 0x02, 0x01, 0xf7, 0x00, 0xf7, 0x01, 0xf3, 0x00, 0xff, 0x2f, 0x00];
    let song = MidiSong::from_bytes(&file([0, 96], &[&track]));
    assert!(matches!(song.tracks[0][0].kind, EventKind::SysEx));
    assert!(matches!(song.tracks[0][1].kind, EventKind::Escape));
    assert!(matches!(song.tracks[0][2].kind, EventKind::Meta));
}

#[test]
fn events_of_all_tracks_come_in_time_order() {
    let song = MidiSong::from_bytes(&two_tracks([0, 96]));
    assert!(song.ticks_fit());
    let events = song.iter();
    let order: Vec<(u64, usize)> = events.iter().map(|e| (e.0, e.1)).collect();
    assert_eq!(order, vec![(0, 0), (48, 1), (48, 1), (96, 0), (192, 0), (192, 0)]);
    assert!(matches!(
        events[3].2,
        EventKind::Midi { channel: 0, message } if message == note_on(0x3c, 0x40)
    ));
}

#[test]
fn each_track_keeps_its_order_at_one_tick() {
    let tempo = |t: u32| TrackEvent { delta: 0, kind: EventKind::Tempo(t) };
    let song = MidiSong {
        timing: Timing::Metrical(1),
        tracks: vec![vec![tempo(1), tempo(2), tempo(3)], vec![tempo(4), tempo(5)], vec![]],
    };
    let events = song.iter();
    let of = |track: usize| -> Vec<u32> {
        events
            .iter()
            .filter(|e| e.1 == track)
            .map(|e| match e.2 {
                EventKind::Tempo(t) => t,
                _ => 0,
            })
            .collect()
    };
    assert_eq!(events.len(), 5);
    assert_eq!(of(0), vec![1, 2, 3]);
    assert_eq!(of(1), vec![4, 5]);
    assert!(of(2).is_empty());
}

#[test]
fn earlier_tick_happens_before() {
    let event = |tick: u64| (tick, 0, EventKind::Meta);
    assert!(happens_before(&event(1), &event(2)));
    assert!(!happens_before(&event(2), &event(2)));
    assert!(!happens_before(&event(3), &event(2)));
}

#[test]
fn song_without_tracks_has_no_events() {
    let song = MidiSong { timing: Timing::Metrical(96), tracks: Vec::new() };
    assert!(song.ticks_fit());
    assert!(song.iter().is_empty());
}

#[test]
fn time_codes_are_read() {
    let song = MidiSong::try_from_bytes(&two_tracks([0xe7, 40])).unwrap();
    assert_eq!(song.timing, Timing::Timecode(25, 40));
}

#[test]
fn what_is_no_song_is_refused() {
    assert!(MidiSong::try_from_bytes(&Vec::new()).is_none());
    assert!(MidiSong::try_from_bytes(&b"no song at all".to_vec()).is_none());
    assert!(MidiSong::try_from_bytes(&two_tracks([0, 96])).is_some());
}

#[test]
fn time_code_that_cannot_be_negated_is_refused() {
    let bytes = two_tracks([0x80, 40]);
    assert!(!timecodes_negate(&bytes));
    assert!(MidiSong::try_from_bytes(&bytes).is_none());
    assert!(timecodes_negate(&two_tracks([0xe7, 40])));
    assert!(timecodes_negate(&two_tracks([0, 0x80])));
}

fn riff(inner: &[u8], odd: bool) -> Vec<u8> {
    let mut body = b"RMID".to_vec();
    if odd {
        body.extend(b"note\x03\x00\x00\x00abc\x00");
    }
    body.extend(b"data");
    body.extend((inner.len() as u32).to_le_bytes());
    body.extend(inner);
    let mut bytes = b"RIFF".to_vec();
    bytes.extend((body.len() as u32).to_le_bytes());
    bytes.extend(body);
    bytes
}

#[test]
fn wrapped_songs_are_read() {
    for odd in [false, true] {
        let song = MidiSong::try_from_bytes(&riff(&two_tracks([0, 96]), odd)).unwrap();
        assert_eq!(song.timing, Timing::Metrical(96));
        assert_eq!(song.tracks.len(), 2);
        assert!(!timecodes_negate(&riff(&two_tracks([0x80, 40]), odd)));
    }
}

#[test]
fn events_fire_in_turn() {
    let song = MidiSong::from_bytes(&two_tracks([0, 96]));
    let mut playback = Playback::open(&song);
    let mut synth = Recorder { messages: Vec::new() };
    assert_eq!(playback.fetched, 0);

    assert_eq!(playback.fire(&mut synth), Fired { tempo: None, wait: Some(0) });
    assert_eq!(playback.fire(&mut synth), Fired { tempo: Some((500_000, 96)), wait: Some(48) });
    assert!(synth.messages.is_empty());
    assert_eq!(playback.fire(&mut synth), Fired { tempo: None, wait: Some(0) });
    assert_eq!(synth.messages, vec![(1, note_on(0x40, 0x50))]);
    assert_eq!(playback.fire(&mut synth), Fired { tempo: None, wait: Some(48) });
    assert_eq!(playback.fire(&mut synth), Fired { tempo: None, wait: Some(96) });
    assert_eq!(synth.messages.last(), Some(&(0, note_on(0x3c, 0x40))));
    assert_eq!(playback.fire(&mut synth), Fired { tempo: None, wait: Some(0) });
    assert_eq!(synth.messages.last(), Some(&(0, note_off(0x3c, 0x40))));
    assert_eq!(playback.fire(&mut synth), Fired { tempo: None, wait: None });
    assert_eq!(synth.messages.len(), 3);
    assert_eq!(playback.fetched, 6);
}

#[test]
fn waits_add_up_to_the_last_tick() {
    let song = MidiSong::from_bytes(&two_tracks([0, 96]));
    let mut playback = Playback::open(&song);
    let mut synth = Recorder { messages: Vec::new() };
    let mut total = 0;
    let mut steps = 0;
    while let Some(ticks) = playback.fire(&mut synth).wait {
        total += ticks;
        steps += 1;
    }
    assert_eq!((total, steps), (192, 6));
}

#[test]
fn tempo_means_nothing_under_a_time_code() {
    let song = MidiSong::from_bytes(&two_tracks([0xe7, 40]));
    let mut playback = Playback::open(&song);
    let mut synth = Recorder { messages: Vec::new() };
    playback.fire(&mut synth);
    assert_eq!(playback.fire(&mut synth), Fired { tempo: None, wait: Some(48) });
}

#[test]
fn empty_song_ends_at_once() {
    let song = MidiSong { timing: Timing::Metrical(96), tracks: Vec::new() };
    let mut playback = Playback::open(&song);
    let mut synth = Recorder { messages: Vec::new() };
    assert_eq!(playback.fire(&mut synth), Fired { tempo: None, wait: None });
}

#[test]
fn cursor_takes_each_event_once() {
    let song = MidiSong::from_bytes(&two_tracks([0, 96]));
    let mut cursor = SongCursor::open(&song);
    let mut synth = Recorder { messages: Vec::new() };
    let first = cursor.take(&mut synth).unwrap();
    assert_eq!((first.tempo, first.offset, first.wait), (Some((500_000, 96)), 0, Some(48)));
    let second = cursor.take(&mut synth).unwrap();
    assert_eq!((second.tempo, second.offset, second.wait), (None, 48, Some(0)));
    assert_eq!(synth.messages, vec![(1, note_on(0x40, 0x50))]);
    let mut offsets = Vec::new();
    let mut waits = Vec::new();
    while let Some(taken) = cursor.take(&mut synth) {
        offsets.push(taken.offset);
        waits.push(taken.wait);
    }
    assert_eq!(offsets, vec![48, 96, 192, 192]);
    assert_eq!(waits, vec![Some(48), Some(96), Some(0), None]);
    assert_eq!(synth.messages.len(), 3);
    assert!(cursor.take(&mut synth).is_none());
}

#[test]
fn song_that_starts_resets_the_synthesizer() {
    let mut synth = Recorder { messages: vec![(0, note_on(1, 1))] };
    assert!(Playback::start(&b"no song".to_vec(), &mut synth).is_none());
    assert_eq!(synth.messages.len(), 1);
    let playback = Playback::start(&two_tracks([0, 96]), &mut synth).unwrap();
    assert!(synth.messages.is_empty());
    assert_eq!(playback.timing, Timing::Metrical(96));
    assert_eq!(playback.events.len(), 6);
}

#[test]
fn cursor_starts_where_there_is_a_song() {
    assert!(SongCursor::start(&Vec::new()).is_none());
    let cursor = SongCursor::start(&two_tracks([0xe7, 40])).unwrap();
    assert_eq!(cursor.timing, Timing::Timecode(25, 40));
    assert_eq!((cursor.events.len(), cursor.taken), (6, 0));
}

#[test]
fn messages_of_every_kind_are_read() {
    let track = [
        0x00, 0x80, 1, 2, 0x00, 0x91, 3, 4, 0x00, 0xa2, 5, 6, 0x00, 0xb3, 7, 8, 0x00, 0xc4, 9, 0x00,
        0xd5, 10, 0x00, 0xef, 0x01, 0x40, 0x00, 0xff, 0x2f, 0x00,
    ];
    let song = MidiSong::from_bytes(&file([0, 96], &[&track]));
    let kinds: Vec<EventKind> = song.tracks[0].iter().map(|e| e.kind).collect();
    let midi = |channel: u8, message: MidiMessage| EventKind::Midi { channel, message };
    assert_eq!(
        kinds,
        vec![
            midi(0, MidiMessage::NoteOff { key: 1, vel: 2 }),
            midi(1, MidiMessage::NoteOn { key: 3, vel: 4 }),
            midi(2, MidiMessage::Aftertouch { key: 5, vel: 6 }),
            midi(3, MidiMessage::Controller { controller: 7, value: 8 }),
            midi(4, MidiMessage::ProgramChange { program: 9 }),
            midi(5, MidiMessage::ChannelAftertouch { vel: 10 }),
            midi(15, MidiMessage::PitchBend { bend: 0x2001 }),
            EventKind::Meta,
        ]
    );
}

fn with_second_header(format: u8, first: u8) -> Vec<u8> {
    let mut bytes = two_tracks([0, 96]);
    bytes.extend(chunk(b"MThd", &[0, format, 0, 1, first, 40]));
    bytes.extend(chunk(b"MTrk", &SECOND));
    bytes
}

#[test]
fn songs_with_a_second_header_are_read() {
    let song = MidiSong::try_from_bytes(&with_second_header(1, 0)).unwrap();
    assert_eq!(song.tracks.len(), 3);
    let song = MidiSong::try_from_bytes(&with_second_header(3, 0x80)).unwrap();
    assert_eq!((song.timing, song.tracks.len()), (Timing::Metrical(96), 2));
    assert!(!timecodes_negate(&with_second_header(2, 0x80)));
}

#[test]
fn headers_behind_one_that_is_not_understood_are_not_read() {
    let mut bytes = with_second_header(1, 0x81);
    bytes.extend(chunk(b"MThd", &[0, 1, 0, 1, 0x80, 40]));
    assert!(timecodes_negate(&bytes));
    let song = MidiSong::try_from_bytes(&bytes).unwrap();
    assert_eq!(song.tracks.len(), 2);
    let mut short = two_tracks([0, 96]);
    short.extend(chunk(b"MThd", &[0, 1, 0, 1]));
    short.extend(chunk(b"MThd", &[0, 1, 0, 1, 0x80, 40]));
    assert!(MidiSong::try_from_bytes(&short).is_some());
}

#[test]
fn wrapped_track_without_header_is_refused() {
    let mut inner = chunk(b"MTrk", &SECOND);
    inner.extend(two_tracks([0x80, 40]));
    let bytes = riff(&inner, false);
    assert!(timecodes_negate(&bytes));
    assert!(MidiSong::try_from_bytes(&bytes).is_none());
}
