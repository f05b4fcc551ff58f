//! Standard MIDI files, as the `midly` crate reads them.
//!
//! The rest of the library works on [`Timing`], [`TrackEvent`], [`EventKind`] and [`MidiMessage`], which
//! keep of a file what playing it takes. Everything that is believed of `midly` stands in this module.
use vstd::prelude::*;

verus! {

/// What one tick of a song is worth.
#[derive(Clone, Copy, Debug, PartialEq, Eq, Structural)]
pub enum Timing {
    /// Ticks per beat; how long a beat lasts is up to the tempo events.
    Metrical(u16),
    /// Frames per second (24, 25, 29 or 30, where 29 stands for 30 / 1.001) and ticks per frame.
    Timecode(u8, u8),
}

/// A message for one channel of a synthesizer.
#[derive(Clone, Copy, Debug, PartialEq, Eq, Structural)]
pub enum MidiMessage {
    /// Stop playing a note.
    NoteOff { key: u8, vel: u8 },
    /// Start playing a note.
    NoteOn { key: u8, vel: u8 },
    /// Change the velocity of a note that is being played.
    Aftertouch { key: u8, vel: u8 },
    /// Set a controller.
    Controller { controller: u8, value: u8 },
    /// Change the instrument.
    ProgramChange { program: u8 },
    /// Change the velocity of all notes that are being played.
    ChannelAftertouch { vel: u8 },
    /// Bend the pitch: `0x2000` is no bend, less is down and more is up.
    PitchBend { bend: u16 },
}

/// What happens at an event of a track.
#[derive(Clone, Copy, Debug, PartialEq, Eq, Structural)]
pub enum EventKind {
    /// From here on, a beat lasts this many microseconds.
    Tempo(u32),
    /// Any other meta message.
    Meta,
    /// A message for the synthesizer, on one of the sixteen channels.
    Midi { channel: u8, message: MidiMessage },
    /// A system exclusive message.
    SysEx,
    /// An escape sequence.
    Escape,
}

/// An event of a track, `delta` ticks after the event before it.
#[derive(Clone, Copy, Debug, PartialEq, Eq, Structural)]
pub struct TrackEvent {
    pub delta: u32,
    pub kind: EventKind,
}

/// `midly::Smf`, a parsed file.
#[verifier::external_type_specification]
#[verifier::external_body]
pub struct ExSmf<'a>(midly::Smf<'a>);

/// `midly::Error`, why a file could not be parsed.
#[verifier::external_type_specification]
#[verifier::external_body]
pub struct ExSmfError(midly::Error);

/// The timing that the header of a parsed file gives.
pub uninterp spec fn smf_timing(smf: midly::Smf) -> Timing;

/// The tracks of a parsed file.
pub uninterp spec fn smf_tracks(smf: midly::Smf) -> Seq<Seq<TrackEvent>>;

/// What `midly::Smf::parse` makes of the bytes of a file: the timing and the tracks, or nothing
/// where it reports an error.
pub uninterp spec fn parsed_smf(bytes: Seq<u8>) -> Option<(Timing, Seq<Seq<TrackEvent>>)>;

/// Calls `midly::Smf::parse`. The outcome depends on the bytes alone.
///
/// `midly` negates the first byte of a time code as an `i8`, which a build with overflow checks
/// does not survive for the byte `0x80`; such files are left out.
#[verifier::external_body]
pub(crate) fn parse<'a>(bytes: &'a [u8]) -> (r: Result<midly::Smf<'a>, midly::Error>)
    requires
        timecodes_negate_spec(bytes@),
    ensures
        r is Ok <==> parsed_smf(bytes@) is Some,
        r matches Ok(smf) ==> parsed_smf(bytes@) == Some((smf_timing(smf), smf_tracks(smf))),
{
    midly::Smf::parse(bytes)
}

/// Reads the `timing` field of a parsed file's header.
#[verifier::external_body]
pub(crate) fn timing(smf: &midly::Smf) -> (r: Timing)
    ensures
        r == smf_timing(*smf),
{
    match smf.header.timing {
        midly::Timing::Metrical(ticks) => Timing::Metrical(ticks.as_int()),
        midly::Timing::Timecode(fps, subframe) => Timing::Timecode(fps.as_int(), subframe),
    }
}

/// Counts the tracks of a parsed file, with `Vec::len` on its `tracks` field.
#[verifier::external_body]
pub(crate) fn track_count(smf: &midly::Smf) -> (r: usize)
    ensures
        r == smf_tracks(*smf).len(),
{
    smf.tracks.len()
}

/// Counts the events of one track of a parsed file.
#[verifier::external_body]
pub(crate) fn track_len(smf: &midly::Smf, track: usize) -> (r: usize)
    requires
        track < smf_tracks(*smf).len(),
    ensures
        r == smf_tracks(*smf)[track as int].len(),
{
    smf.tracks[track].len()
}

/// The event at `index` of a track of a parsed file.
pub open spec fn smf_event(smf: midly::Smf, track: usize, index: usize) -> TrackEvent {
    smf_tracks(smf)[track as int][index as int]
}

/// There is an event at `index` of a track of a parsed file.
pub open spec fn has_event(smf: midly::Smf, track: usize, index: usize) -> bool {
    track < smf_tracks(smf).len() && index < smf_tracks(smf)[track as int].len()
}

/// Reads the `delta` field of an event.
#[verifier::external_body]
fn delta(smf: &midly::Smf, track: usize, index: usize) -> (r: u32)
    requires
        has_event(*smf, track, index),
    ensures
        r == smf_event(*smf, track, index).delta,
{
    smf.tracks[track][index].delta.as_int()
}

/// Reads the `kind` field of an event that is not for a channel. Of the meta messages only the tempo
/// is told apart.
#[verifier::external_body]
fn system_kind(smf: &midly::Smf, track: usize, index: usize) -> (r: Option<EventKind>)
    requires
        has_event(*smf, track, index),
    ensures
        r == match smf_event(*smf, track, index).kind {
            EventKind::Midi { .. } => None::<EventKind>,
            kind => Some(kind),
        },
{
    match smf.tracks[track][index].kind {
        midly::TrackEventKind::Midi { .. } => None,
        midly::TrackEventKind::Meta(midly::MetaMessage::Tempo(t)) => Some(EventKind::Tempo(t.as_int())),
        midly::TrackEventKind::Meta(_) => Some(EventKind::Meta),
        midly::TrackEventKind::SysEx(_) => Some(EventKind::SysEx),
        midly::TrackEventKind::Escape(_) => Some(EventKind::Escape),
    }
}

/// Reads the `channel` of an event that is for one.
#[verifier::external_body]
fn channel(smf: &midly::Smf, track: usize, index: usize) -> (r: Option<u8>)
    requires
        has_event(*smf, track, index),
    ensures
        r == match smf_event(*smf, track, index).kind {
            EventKind::Midi { channel, .. } => Some(channel),
            _ => None::<u8>,
        },
{
    match smf.tracks[track][index].kind {
        midly::TrackEventKind::Midi { channel, .. } => Some(channel.as_int()),
        _ => None,
    }
}

/// Reads the `message` of an event for a channel, where it is about a key or a controller.
#[verifier::external_body]
fn key_message(smf: &midly::Smf, track: usize, index: usize) -> (r: Option<MidiMessage>)
    requires
        has_event(*smf, track, index),
    ensures
        r == match smf_event(*smf, track, index).kind {
            EventKind::Midi { message, .. } => match message {
                MidiMessage::NoteOff { .. } | MidiMessage::NoteOn { .. }
                | MidiMessage::Aftertouch { .. } | MidiMessage::Controller { .. } => Some(message),
                _ => None::<MidiMessage>,
            },
            _ => None,
        },
{
    let midly::TrackEventKind::Midi { message, .. } = smf.tracks[track][index].kind else {
        return None;
    };
    match message {
        midly::MidiMessage::NoteOff { key, vel } =>
            Some(MidiMessage::NoteOff { key: key.as_int(), vel: vel.as_int() }),
        midly::MidiMessage::NoteOn { key, vel } =>
            Some(MidiMessage::NoteOn { key: key.as_int(), vel: vel.as_int() }),
        midly::MidiMessage::Aftertouch { key, vel } =>
            Some(MidiMessage::Aftertouch { key: key.as_int(), vel: vel.as_int() }),
        midly::MidiMessage::Controller { controller, value } =>
            Some(MidiMessage::Controller { controller: controller.as_int(), value: value.as_int() }),
        _ => None,
    }
}

/// Reads the `message` of an event for a channel, where it is about the whole channel.
#[verifier::external_body]
fn channel_message(smf: &midly::Smf, track: usize, index: usize) -> (r: Option<MidiMessage>)
    requires
        has_event(*smf, track, index),
    ensures
        r == match smf_event(*smf, track, index).kind {
            EventKind::Midi { message, .. } => match message {
                MidiMessage::ProgramChange { .. } | MidiMessage::ChannelAftertouch { .. }
                | MidiMessage::PitchBend { .. } => Some(message),
                _ => None::<MidiMessage>,
            },
            _ => None,
        },
{
    let midly::TrackEventKind::Midi { message, .. } = smf.tracks[track][index].kind else {
        return None;
    };
    match message {
        midly::MidiMessage::ProgramChange { program } =>
            Some(MidiMessage::ProgramChange { program: program.as_int() }),
        midly::MidiMessage::ChannelAftertouch { vel } =>
            Some(MidiMessage::ChannelAftertouch { vel: vel.as_int() }),
        midly::MidiMessage::PitchBend { bend } =>
            Some(MidiMessage::PitchBend { bend: bend.0.as_int() }),
        _ => None,
    }
}

/// Reads one event of a parsed file.
pub(crate) fn event(smf: &midly::Smf, track: usize, index: usize) -> (r: TrackEvent)
    requires
        has_event(*smf, track, index),
    ensures
        r == smf_event(*smf, track, index),
{
    let delta: u32 = delta(smf, track, index);
    if let Some(kind) = system_kind(smf, track, index) {
        return TrackEvent { delta, kind };
    }
    let message = match key_message(smf, track, index) {
        Some(message) => Some(message),
        None => channel_message(smf, track, index),
    };
    match (channel(smf, track, index), message) {
        (Some(channel), Some(message)) => {
            TrackEvent { delta, kind: EventKind::Midi { channel, message } }
        },
        _ => vstd::pervasive::unreached(),
    }
}

/// The four bytes at `p` spell `id`.
pub open spec fn id_at(bytes: Seq<u8>, p: int, id: Seq<u8>) -> bool {
    bytes.subrange(p, p + 4) == id
}

/// `MThd`, which marks a header chunk.
pub open spec fn header_id() -> Seq<u8> {
    seq![77u8, 84u8, 104u8, 100u8]
}

/// `MTrk`, which marks the chunk of a track.
pub open spec fn track_id() -> Seq<u8> {
    seq![77u8, 84u8, 114u8, 107u8]
}

/// `RIFF`, which marks a file that wraps a MIDI file.
pub open spec fn riff_id() -> Seq<u8> {
    seq![82u8, 73u8, 70u8, 70u8]
}

/// `RMID`, the form of a `RIFF` file that wraps a MIDI file.
pub open spec fn rmid_id() -> Seq<u8> {
    seq![82u8, 77u8, 73u8, 68u8]
}

/// `data`, the part of such a file that holds the MIDI file.
pub open spec fn data_id() -> Seq<u8> {
    seq![100u8, 97u8, 116u8, 97u8]
}

/// The four bytes at `p` as a number, most significant first.
pub open spec fn big_endian(bytes: Seq<u8>, p: int) -> int {
    ((bytes[p] * 256 + bytes[p + 1]) * 256 + bytes[p + 2]) * 256 + bytes[p + 3]
}

/// The four bytes at `p` as a number, least significant first.
pub open spec fn little_endian(bytes: Seq<u8>, p: int) -> int {
    ((bytes[p + 3] * 256 + bytes[p + 2]) * 256 + bytes[p + 1]) * 256 + bytes[p]
}

/// Where the body of a chunk that starts at `p` ends: `size` bytes on, or at `stop`.
pub open spec fn body_end(p: int, size: int, stop: int) -> int {
    if p + 8 + size <= stop {
        p + 8 + size
    } else {
        stop
    }
}

/// The header chunk from `p` to `end` is long enough and gives a format that is known.
pub open spec fn format_known(bytes: Seq<u8>, p: int, end: int) -> bool {
    end - p >= 14 && bytes[p + 8] == 0 && bytes[p + 9] <= 2
}

/// The header chunk at `p` gives ticks per beat, or a number of frames per second that is known: 24, 25,
/// 29 or 30, as a negative byte.
pub open spec fn timing_known(bytes: Seq<u8>, p: int) -> bool {
    let first = bytes[p + 12];
    first < 0x80 || first == 0xe8 || first == 0xe7 || first == 0xe3 || first == 0xe2
}

/// Of the header chunks from `p` to `stop` that are read, none gives a time code whose first byte is
/// `0x80`. Reading ends at a header that is not understood, and, unless it has `started` with a header,
/// at a track.
pub open spec fn headers_negate(bytes: Seq<u8>, p: int, stop: int, started: bool) -> bool
    decreases stop - p,
{
    if stop - p < 8 {
        true
    } else {
        let end = body_end(p, big_endian(bytes, p + 4), stop);
        if id_at(bytes, p, header_id()) {
            format_known(bytes, p, end) ==> {
                &&& bytes[p + 12] != 0x80
                &&& timing_known(bytes, p) ==> headers_negate(bytes, end, stop, true)
            }
        } else if id_at(bytes, p, track_id()) {
            started ==> headers_negate(bytes, end, stop, started)
        } else {
            headers_negate(bytes, end, stop, started)
        }
    }
}

/// The body of the first `data` chunk from `p` to `stop`, as a range of positions.
pub open spec fn data_chunk(bytes: Seq<u8>, p: int, stop: int) -> Option<(int, int)>
    decreases stop - p,
{
    if stop - p < 8 {
        None
    } else {
        let size = little_endian(bytes, p + 4);
        let end = body_end(p, size, stop);
        if id_at(bytes, p, data_id()) {
            Some((p + 8, end))
        } else if size % 2 == 1 && end < stop {
            data_chunk(bytes, end + 1, stop)
        } else {
            data_chunk(bytes, end, stop)
        }
    }
}

/// The positions that the chunks of the MIDI file take up: the whole file, or the body of the
/// `data` chunk of a `RIFF` file of the form `RMID`.
pub open spec fn chunk_range(bytes: Seq<u8>) -> Option<(int, int)> {
    let len = bytes.len() as int;
    if len >= 4 && id_at(bytes, 0, header_id()) {
        Some((0, len))
    } else if len >= 8 && id_at(bytes, 0, riff_id()) {
        let stop = body_end(0, little_endian(bytes, 4), len);
        if stop >= 12 && id_at(bytes, 8, rmid_id()) {
            data_chunk(bytes, 12, stop)
        } else {
            None
        }
    } else {
        None
    }
}

/// No header that is read gives a time code whose first byte is `0x80`.
pub open spec fn timecodes_negate_spec(bytes: Seq<u8>) -> bool {
    match chunk_range(bytes) {
        Some((start, stop)) => headers_negate(bytes, start, stop, false),
        None => true,
    }
}

/// Whether the four bytes at `p` are `a`, `b`, `c` and `d`.
pub(crate) fn is_id(bytes: &[u8], p: usize, a: u8, b: u8, c: u8, d: u8) -> (r: bool)
    requires
        p + 4 <= bytes@.len(),
    ensures
        r == id_at(bytes@, p as int, seq![a, b, c, d]),
{
    let r = bytes[p] == a && bytes[p + 1] == b && bytes[p + 2] == c && bytes[p + 3] == d;
    proof {
        let s = bytes@.subrange(p as int, p + 4);
        assert(s[0] == bytes@[p as int] && s[1] == bytes@[p + 1] && s[2] == bytes@[p + 2]
            && s[3] == bytes@[p + 3]);
        if r {
            assert(s =~= seq![a, b, c, d]);
        } else {
            assert(seq![a, b, c, d][0] == a && seq![a, b, c, d][1] == b && seq![a, b, c, d][2] == c
                && seq![a, b, c, d][3] == d);
        }
    }
    r
}

/// Where the body of the chunk at `p` ends, given the four bytes of its size.
fn end_of_body(p: usize, high: u8, upper: u8, lower: u8, low: u8, stop: usize) -> (end: usize)
    requires
        p + 8 <= stop,
    ensures
        end == body_end(p as int, ((high * 256 + upper) * 256 + lower) * 256 + low, stop as int),
{
    let size: u64 = ((high as u64 * 256 + upper as u64) * 256 + lower as u64) * 256 + low as u64;
    let room: usize = stop - p - 8;
    if size <= room as u64 {
        p + 8 + size as usize
    } else {
        stop
    }
}

/// Looks for a header chunk from `start` to `stop` that is read and whose time code starts with `0x80`.
fn headers_negate_exec(bytes: &[u8], start: usize, stop: usize) -> (r: bool)
    requires
        start <= stop <= bytes@.len(),
    ensures
        r == headers_negate(bytes@, start as int, stop as int, false),
{
    let mut p: usize = start;
    let mut started = false;
    while stop - p >= 8
        invariant
            start <= p <= stop <= bytes@.len(),
            headers_negate(bytes@, start as int, stop as int, false) == headers_negate(
                bytes@,
                p as int,
                stop as int,
                started,
            ),
        decreases stop - p,
    {
        let end: usize = end_of_body(p, bytes[p + 4], bytes[p + 5], bytes[p + 6], bytes[p + 7], stop);
        let is_header = is_id(bytes, p, 77, 84, 104, 100);
        let is_track = is_id(bytes, p, 77, 84, 114, 107);
        if is_header {
            if end - p < 14 || bytes[p + 8] != 0 || bytes[p + 9] > 2 {
                return true;
            }
            let first: u8 = bytes[p + 12];
            if first == 0x80 {
                return false;
            }
            if first > 0x80 && first != 0xe8 && first != 0xe7 && first != 0xe3 && first != 0xe2 {
                return true;
            }
            started = true;
        } else if is_track && !started {
            return true;
        }
        p = end;
    }
    true
}

/// Looks for the body of the first `data` chunk from `start` to `stop`.
fn data_chunk_exec(bytes: &[u8], start: usize, stop: usize) -> (r: Option<(usize, usize)>)
    requires
        start <= stop <= bytes@.len(),
    ensures
        r is Some <==> data_chunk(bytes@, start as int, stop as int) is Some,
        r matches Some((from, to)) ==> {
            &&& data_chunk(bytes@, start as int, stop as int) == Some((from as int, to as int))
            &&& from <= to <= stop
        },
{
    let mut p: usize = start;
    while stop - p >= 8
        invariant
            start <= p <= stop <= bytes@.len(),
            data_chunk(bytes@, start as int, stop as int) == data_chunk(
                bytes@,
                p as int,
                stop as int,
            ),
        decreases stop - p,
    {
        let end: usize = end_of_body(p, bytes[p + 7], bytes[p + 6], bytes[p + 5], bytes[p + 4], stop);
        if is_id(bytes, p, 100, 97, 116, 97) {
            return Some((p + 8, end));
        }
        proof {
            let low = bytes@[p + 4] as int;
            let rest = (bytes@[p + 7] * 256 + bytes@[p + 6]) * 256 + bytes@[p + 5];
            assert(little_endian(bytes@, p + 4) == rest * 256 + low);
            assert((rest * 256 + low) % 2 == low % 2) by (nonlinear_arith);
        }
        if bytes[p + 4] % 2 == 1 && end < stop {
            p = end + 1;
        } else {
            p = end;
        }
    }
    None
}

/// Whether no header that is read gives a time code whose first byte is `0x80`.
pub fn timecodes_negate(bytes: &[u8]) -> (r: bool)
    ensures
        r == timecodes_negate_spec(bytes@),
{
    let len: usize = bytes.len();
    if len >= 4 && is_id(bytes, 0, 77, 84, 104, 100) {
        headers_negate_exec(bytes, 0, len)
    } else if len >= 8 && is_id(bytes, 0, 82, 73, 70, 70) {
        let stop: usize = end_of_body(0, bytes[7], bytes[6], bytes[5], bytes[4], len);
        if stop >= 12 && is_id(bytes, 8, 82, 77, 73, 68) {
            match data_chunk_exec(bytes, 12, stop) {
                Some((from, to)) => headers_negate_exec(bytes, from, to),
                None => true,
            }
        } else {
            true
        }
    } else {
        true
    }
}

/// A file is held back from the parser only where it gives a time code whose first byte is `0x80`: where
/// nothing that looks like a header has that byte there, the file is not held back, whatever its format, its
/// tracks and its events.
pub proof fn law_only_such_time_codes_are_held_back(bytes: Seq<u8>)
    requires
        forall|p: int|
            0 <= p && p + 14 <= bytes.len() && #[trigger] bytes.subrange(p, p + 4) == seq![
                0x4du8,
                0x54u8,
                0x68u8,
                0x64u8,
            ] ==> bytes[p + 12] != 0x80,
    ensures
        timecodes_negate_spec(bytes),
{
    if let Some((start, stop)) = chunk_range(bytes) {
        if bytes.len() >= 4 && id_at(bytes, 0, header_id()) {
        } else {
            lemma_data_chunk_inside(bytes, 12, body_end(0, little_endian(bytes, 4), bytes.len() as int));
        }
        lemma_headers_negate(bytes, start, stop, false);
    }
}

/// The data of a wrapped file lies within the file.
proof fn lemma_data_chunk_inside(bytes: Seq<u8>, p: int, stop: int)
    requires
        0 <= p,
        stop <= bytes.len(),
    ensures
        data_chunk(bytes, p, stop) matches Some((from, to)) ==> 0 <= from <= to <= stop,
    decreases stop - p,
{
    if stop - p >= 8 {
        let size = little_endian(bytes, p + 4);
        let end = body_end(p, size, stop);
        if size % 2 == 1 && end < stop {
            lemma_data_chunk_inside(bytes, end + 1, stop);
        } else {
            lemma_data_chunk_inside(bytes, end, stop);
        }
    }
}

/// Without a header that has the byte, none is found.
proof fn lemma_headers_negate(bytes: Seq<u8>, p: int, stop: int, started: bool)
    requires
        0 <= p,
        stop <= bytes.len(),
        forall|q: int|
            0 <= q && q + 14 <= bytes.len() && #[trigger] bytes.subrange(q, q + 4) == seq![
                0x4du8,
                0x54u8,
                0x68u8,
                0x64u8,
            ] ==> bytes[q + 12] != 0x80,
    ensures
        headers_negate(bytes, p, stop, started),
    decreases stop - p,
{
    if stop - p >= 8 {
        let end = body_end(p, big_endian(bytes, p + 4), stop);
        lemma_headers_negate(bytes, end, stop, true);
        lemma_headers_negate(bytes, end, stop, started);
    }
}

/// A file is held back whose header is whole, has one of the three formats and gives a time code whose first
/// byte is `0x80`.
pub proof fn law_such_time_codes_are_held_back(bytes: Seq<u8>)
    requires
        bytes.len() >= 14,
        bytes.subrange(0, 4) == seq![0x4du8, 0x54u8, 0x68u8, 0x64u8],
        bytes[4] > 0 || bytes[5] > 0 || bytes[6] > 0 || bytes[7] >= 6,
        bytes[8] == 0,
        bytes[9] <= 2,
        bytes[12] == 0x80,
    ensures
        !timecodes_negate_spec(bytes),
{
    assert(big_endian(bytes, 4) >= 6);
    assert(body_end(0, big_endian(bytes, 4), bytes.len() as int) >= 14);
}

/// Where the `n`-th chunk of a file begins, counted from `start`: each one where the body of the one before it
/// ends.
pub open spec fn nth_chunk(bytes: Seq<u8>, start: int, stop: int, n: nat) -> int
    decreases n,
{
    if n == 0 {
        start
    } else {
        let p = nth_chunk(bytes, start, stop, (n - 1) as nat);
        let size = ((bytes[p + 4] * 256 + bytes[p + 5]) * 256 + bytes[p + 6]) * 256 + bytes[p + 7];
        if p + 8 + size <= stop {
            p + 8 + size
        } else {
            stop
        }
    }
}

/// A file that begins with a header is held back only where one of its header chunks gives a time code whose
/// first byte is `0x80`. Ticks per beat never hold it back, nor does the format, a track, or what is in one.
pub proof fn law_ticks_per_beat_are_not_held_back(bytes: Seq<u8>)
    requires
        bytes.len() >= 4,
        bytes.subrange(0, 4) == seq![0x4du8, 0x54u8, 0x68u8, 0x64u8],
        forall|n: nat|
            {
                let p = #[trigger] nth_chunk(bytes, 0, bytes.len() as int, n);
                p + 14 <= bytes.len() && bytes.subrange(p, p + 4) == seq![
                    0x4du8,
                    0x54u8,
                    0x68u8,
                    0x64u8,
                ] ==> bytes[p + 12] != 0x80
            },
    ensures
        timecodes_negate_spec(bytes),
{
    lemma_chunks_negate(bytes, 0, bytes.len() as int, 0, false);
}

/// The same of the chunks of a file that is wrapped.
pub proof fn law_wrapped_ticks_per_beat_are_not_held_back(bytes: Seq<u8>, start: int, stop: int)
    requires
        chunk_range(bytes) == Some((start, stop)),
        forall|n: nat|
            {
                let p = #[trigger] nth_chunk(bytes, start, stop, n);
                p + 14 <= stop && bytes.subrange(p, p + 4) == seq![
                    0x4du8,
                    0x54u8,
                    0x68u8,
                    0x64u8,
                ] ==> bytes[p + 12] != 0x80
            },
    ensures
        timecodes_negate_spec(bytes),
{
    lemma_chunks_negate(bytes, start, stop, 0, false);
}

/// From the `n`-th chunk on, no header is found that has the byte.
proof fn lemma_chunks_negate(bytes: Seq<u8>, start: int, stop: int, n: nat, started: bool)
    requires
        forall|m: nat|
            {
                let p = #[trigger] nth_chunk(bytes, start, stop, m);
                p + 14 <= stop && bytes.subrange(p, p + 4) == seq![
                    0x4du8,
                    0x54u8,
                    0x68u8,
                    0x64u8,
                ] ==> bytes[p + 12] != 0x80
            },
    ensures
        headers_negate(bytes, nth_chunk(bytes, start, stop, n), stop, started),
    decreases stop - nth_chunk(bytes, start, stop, n),
{
    let p = nth_chunk(bytes, start, stop, n);
    if stop - p >= 8 {
        let end = body_end(p, big_endian(bytes, p + 4), stop);
        assert(nth_chunk(bytes, start, stop, n + 1) == end);
        lemma_chunks_negate(bytes, start, stop, n + 1, true);
        lemma_chunks_negate(bytes, start, stop, n + 1, started);
    }
}

/// The bytes of a wrapped file are those of its first `data` chunk: where that stands first behind the form, it
/// begins at byte 20 and is as long as it says, as far as the file goes.
pub proof fn law_wrapped_songs_begin_at_their_data(bytes: Seq<u8>)
    requires
        bytes.len() >= 20,
        bytes.subrange(0, 4) == seq![0x52u8, 0x49u8, 0x46u8, 0x46u8],
        bytes.subrange(8, 12) == seq![0x52u8, 0x4du8, 0x49u8, 0x44u8],
        bytes.subrange(12, 16) == seq![0x64u8, 0x61u8, 0x74u8, 0x61u8],
        8 + little_endian(bytes, 4) == bytes.len(),
    ensures
        chunk_range(bytes) == Some(
            (
                20int,
                if 20 + little_endian(bytes, 16) <= bytes.len() {
                    20 + little_endian(bytes, 16)
                } else {
                    bytes.len() as int
                },
            ),
        ),
{
    assert(seq![0x52u8, 0x49u8, 0x46u8, 0x46u8][0] == 0x52u8);
    assert(header_id()[0] == 77u8);
}

} // verus!
