//! Wave files, as the `wav` crate reads them.
use vstd::prelude::*;
use vstd::utf8::valid_utf8;

use crate::sampler::wav::WavDataError;
use crate::smf::{data_id, id_at, is_id, little_endian};

verus! {

/// The samples of a wave file, interleaved by channel, in the form that the file holds them in.
#[derive(Debug)]
pub enum Pcm {
    /// The bit patterns of 32-bit floats.
    ThirtyTwoFloat(Vec<u32>),
    /// 24 bits, in the upper bytes of 32.
    TwentyFour(Vec<i32>),
    Sixteen(Vec<i16>),
    Eight(Vec<u8>),
    Empty,
}

/// A wave file.
#[derive(Debug)]
pub struct WavFile {
    pub sampling_rate: u32,
    pub channel_count: u16,
    pub samples: Pcm,
}

/// The samples of a wave file.
pub enum PcmModel {
    ThirtyTwoFloat(Seq<u32>),
    TwentyFour(Seq<i32>),
    Sixteen(Seq<i16>),
    Eight(Seq<u8>),
    Empty,
}

/// What a wave file consists of.
pub struct WavFileModel {
    pub sampling_rate: u32,
    pub channel_count: u16,
    pub samples: PcmModel,
}

impl View for WavFile {
    type V = WavFileModel;

    open spec fn view(&self) -> WavFileModel {
        WavFileModel {
            sampling_rate: self.sampling_rate,
            channel_count: self.channel_count,
            samples: match self.samples {
                Pcm::ThirtyTwoFloat(s) => PcmModel::ThirtyTwoFloat(s@),
                Pcm::TwentyFour(s) => PcmModel::TwentyFour(s@),
                Pcm::Sixteen(s) => PcmModel::Sixteen(s@),
                Pcm::Eight(s) => PcmModel::Eight(s@),
                Pcm::Empty => PcmModel::Empty,
            },
        }
    }
}

/// What `wav::read` makes of the bytes of a file, or nothing where it reports an error.
pub uninterp spec fn parsed_wav(bytes: Seq<u8>) -> Option<WavFileModel>;

/// Calls `wav::read` on bytes in memory. The outcome depends on the bytes alone; which error it is
/// that comes back is not said.
///
/// Chunk by chunk `wav` looks for the header and then for the samples. It does not survive a chunk
/// that is cut off within its first eight bytes, or one whose name is not UTF-8; such files are left
/// out.
#[verifier::external_body]
fn read(bytes: &Vec<u8>) -> (r: Result<WavFile, std::io::Error>)
    requires
        chunks_readable(bytes@),
    ensures
        r is Ok <==> parsed_wav(bytes@) is Some,
        r matches Ok(file) ==> parsed_wav(bytes@) == Some(file@),
{
    let (header, data) = wav::read(&mut std::io::Cursor::new(bytes))?;
    let samples = match data {
        wav::BitDepth::ThirtyTwoFloat(s) =>
            Pcm::ThirtyTwoFloat(s.iter().map(|x| x.to_bits()).collect()),
        wav::BitDepth::TwentyFour(s) => Pcm::TwentyFour(s),
        wav::BitDepth::Sixteen(s) => Pcm::Sixteen(s),
        wav::BitDepth::Eight(s) => Pcm::Eight(s),
        wav::BitDepth::Empty => Pcm::Empty,
    };
    let (sampling_rate, channel_count) = (header.sampling_rate, header.channel_count);
    Ok(WavFile { sampling_rate, channel_count, samples })
}

/// Calls `std::str::from_utf8`, which accepts the bytes that are UTF-8 and no others.
#[verifier::external_body]
fn is_utf8(bytes: &[u8]) -> (r: bool)
    ensures
        r == valid_utf8(bytes@),
{
    std::str::from_utf8(bytes).is_ok()
}

/// Where a search for a chunk ended.
pub enum Search {
    /// The chunk begins there.
    At(int),
    /// There is no such chunk.
    Missing,
    /// A chunk on the way is cut off or has no proper name, or the chunk itself is larger than memory.
    Unreadable,
}

/// `fmt `, which marks the header of a wave file.
pub open spec fn format_id() -> Seq<u8> {
    seq![102u8, 109u8, 116u8, 32u8]
}

/// `WAVE`, the form of a wave file.
pub open spec fn wave_id() -> Seq<u8> {
    seq![87u8, 65u8, 86u8, 69u8]
}

/// Looks for a chunk from `p` to `end`. A chunk of odd size is followed by one byte more.
pub open spec fn search(bytes: Seq<u8>, p: int, end: int, id: Seq<u8>) -> Search
    decreases
            if p < end {
                end - p
            } else {
                0
            },
{
    if p >= end {
        Search::Missing
    } else if p + 8 > bytes.len() || !valid_utf8(bytes.subrange(p, p + 4)) {
        Search::Unreadable
    } else {
        let size = little_endian(bytes, p + 4);
        if !id_at(bytes, p, id) {
            search(bytes, p + 8 + size + size % 2, end, id)
        } else if size <= isize::MAX {
            Search::At(p)
        } else {
            Search::Unreadable
        }
    }
}

/// Where the chunks of a wave file end.
pub open spec fn chunks_end(bytes: Seq<u8>) -> int {
    4 + little_endian(bytes, 4)
}

/// The chunk at `p` is a header of samples that are not compressed: integers or floats.
pub open spec fn is_header(bytes: Seq<u8>, p: int) -> bool {
    let size = little_endian(bytes, p + 4);
    &&& size >= 16
    &&& p + 8 + size <= bytes.len()
    &&& bytes[p + 8] == 1 || bytes[p + 8] == 3
    &&& bytes[p + 9] == 0
}

/// The chunks can be gone through as far as it takes to find the header and, where there is one, the
/// samples.
pub open spec fn chunks_readable(bytes: Seq<u8>) -> bool {
    if bytes.len() < 12 {
        true
    } else if !valid_utf8(bytes.subrange(8, 12)) {
        false
    } else if !id_at(bytes, 8, wave_id()) {
        true
    } else {
        match search(bytes, 12, chunks_end(bytes), format_id()) {
            Search::At(p) => is_header(bytes, p) ==> search(
                bytes,
                12,
                chunks_end(bytes),
                data_id(),
            ) !is Unreadable,
            Search::Missing => true,
            Search::Unreadable => false,
        }
    }
}

/// Where a search for a chunk ended.
enum Found {
    At(usize),
    Missing,
    Unreadable,
}

/// Whether the four bytes at `p` are UTF-8.
fn is_name(bytes: &[u8], p: usize) -> (r: bool)
    requires
        p + 4 <= bytes@.len(),
    ensures
        r == valid_utf8(bytes@.subrange(p as int, p + 4)),
{
    assert(bytes@.len() == bytes.len());
    is_utf8(vstd::slice::slice_subrange(bytes, p, p + 4))
}

/// The size of the chunk at `p`.
fn chunk_size(bytes: &[u8], p: usize) -> (size: u64)
    requires
        p + 8 <= bytes@.len(),
    ensures
        size == little_endian(bytes@, p + 4),
        size <= u32::MAX,
{
    assert(bytes@.len() == bytes.len());
    ((bytes[p + 7] as u64 * 256 + bytes[p + 6] as u64) * 256 + bytes[p + 5] as u64) * 256
        + bytes[p + 4] as u64
}

/// Looks for the chunk whose name is `a`, `b`, `c` and `d`, up to `end`.
fn find_chunk(bytes: &[u8], end: u64, a: u8, b: u8, c: u8, d: u8) -> (r: Found)
    requires
        end <= 4 + u32::MAX,
    ensures
        match r {
            Found::At(p) => {
                &&& search(bytes@, 12, end as int, seq![a, b, c, d]) == Search::At(p as int)
                &&& p + 8 <= bytes@.len()
            },
            Found::Missing => search(bytes@, 12, end as int, seq![a, b, c, d]) is Missing,
            Found::Unreadable => search(bytes@, 12, end as int, seq![a, b, c, d]) is Unreadable,
        },
{
    let mut p: u64 = 12;
    while p < end
        invariant
            end <= 4 + u32::MAX,
            search(bytes@, 12, end as int, seq![a, b, c, d]) == search(
                bytes@,
                p as int,
                end as int,
                seq![a, b, c, d],
            ),
        decreases
                if p < end {
                    end - p
                } else {
                    0
                },
    {
        if p + 8 > bytes.len() as u64 || !is_name(bytes, p as usize) {
            return Found::Unreadable;
        }
        let at: usize = p as usize;
        let size: u64 = chunk_size(bytes, at);
        if is_id(bytes, at, a, b, c, d) {
            return if size <= isize::MAX as u64 {
                Found::At(at)
            } else {
                Found::Unreadable
            };
        }
        p = p + 8 + size + size % 2;
    }
    Found::Missing
}

impl WavFile {
    /// Whether the chunks of a file can be gone through as far as it takes to read it.
    pub fn is_readable(bytes: &Vec<u8>) -> (r: bool)
        ensures
            r == chunks_readable(bytes@),
    {
        let bytes: &[u8] = bytes.as_slice();
        if bytes.len() < 12 {
            return true;
        }
        if !is_name(bytes, 8) {
            return false;
        }
        if !is_id(bytes, 8, 87, 65, 86, 69) {
            return true;
        }
        let end: u64 = 4 + chunk_size(bytes, 0);
        match find_chunk(bytes, end, 102, 109, 116, 32) {
            Found::At(p) => {
                let size: u64 = chunk_size(bytes, p);
                if size >= 16 && size <= (bytes.len() - p - 8) as u64 && (bytes[p + 8] == 1
                    || bytes[p + 8] == 3) && bytes[p + 9] == 0 {
                    match find_chunk(bytes, end, 100, 97, 116, 97) {
                        Found::Unreadable => false,
                        _ => true,
                    }
                } else {
                    true
                }
            },
            Found::Missing => true,
            Found::Unreadable => false,
        }
    }

    /// Reads a wave file.
    pub fn from_bytes(bytes: &Vec<u8>) -> (r: Result<Self, WavDataError>)
        requires
            chunks_readable(bytes@),
        ensures
            match parsed_wav(bytes@) {
                Some(file) => r is Ok && r->Ok_0@ == file,
                None => r is Err && r->Err_0 is IoError,
            },
    {
        match read(bytes) {
            Ok(file) => Ok(file),
            Err(e) => Err(WavDataError::from(e)),
        }
    }
}

/// At `p` there is no chunk that can be read: it is cut off within its first eight bytes, its name is not
/// UTF-8, or it is larger than memory.
pub open spec fn broken_at(bytes: Seq<u8>, p: int) -> bool {
    ||| p + 8 > bytes.len()
    ||| !valid_utf8(bytes.subrange(p, p + 4))
    ||| little_endian(bytes, p + 4) > isize::MAX
}

/// A file is held back from the reader only for a reason: in what it says its chunks take up, there is one
/// that is cut off within its first eight bytes, has a name that is not UTF-8, or is larger than memory.
pub proof fn law_held_back_for_a_reason(bytes: Seq<u8>)
    requires
        !chunks_readable(bytes),
    ensures
        bytes.len() >= 12,
        !valid_utf8(bytes.subrange(8, 12)) || exists|p: int|
            12 <= p < 4 + little_endian(bytes, 4) && #[trigger] broken_at(bytes, p),
{
    if valid_utf8(bytes.subrange(8, 12)) {
        let end = chunks_end(bytes);
        if search(bytes, 12, end, format_id()) is Unreadable {
            lemma_unreadable_for_a_reason(bytes, 12, end, format_id());
        } else {
            lemma_unreadable_for_a_reason(bytes, 12, end, data_id());
        }
    }
}

/// A search that ended at a chunk that cannot be read met such a chunk.
proof fn lemma_unreadable_for_a_reason(bytes: Seq<u8>, from: int, end: int, id: Seq<u8>)
    requires
        12 <= from,
        search(bytes, from, end, id) is Unreadable,
    ensures
        exists|p: int|
            from <= p < end && #[trigger] broken_at(bytes, p),
    decreases
            if from < end {
                end - from
            } else {
                0
            },
{
    if from < end && !broken_at(bytes, from) {
        let size = little_endian(bytes, from + 4);
        let next = from + 8 + size + size % 2;
        lemma_unreadable_for_a_reason(bytes, next, end, id);
        let p = choose|p: int| next <= p < end && #[trigger] broken_at(bytes, p);
        assert(from <= p < end && broken_at(bytes, p));
    }
}

/// A file is held back where the first chunk behind its form is cut off or has no proper name.
pub proof fn law_broken_first_chunks_are_held_back(bytes: Seq<u8>)
    requires
        bytes.len() >= 12,
        bytes.subrange(8, 12) == seq![0x57u8, 0x41u8, 0x56u8, 0x45u8],
        valid_utf8(bytes.subrange(8, 12)),
        4 + little_endian(bytes, 4) > 12,
        bytes.len() < 20 || !valid_utf8(bytes.subrange(12, 16)),
    ensures
        !chunks_readable(bytes),
{
}

/// Where the `n`-th chunk behind the form of a file begins: each one behind the one before it, and behind one
/// byte more where that is of odd size.
pub open spec fn nth_chunk(bytes: Seq<u8>, n: nat) -> int
    decreases n,
{
    if n == 0 {
        12
    } else {
        let p = nth_chunk(bytes, (n - 1) as nat);
        let size = ((bytes[p + 7] * 256 + bytes[p + 6]) * 256 + bytes[p + 5]) * 256 + bytes[p + 4];
        p + 8 + size + size % 2
    }
}

/// A file all of whose chunks can be read is not held back, whatever they are and whatever is in them.
pub proof fn law_files_with_whole_chunks_are_read(bytes: Seq<u8>)
    requires
        bytes.len() >= 12 ==> valid_utf8(bytes.subrange(8, 12)),
        forall|n: nat|
            nth_chunk(bytes, n) < 4 + little_endian(bytes, 4) ==> !broken_at(
                bytes,
                #[trigger] nth_chunk(bytes, n),
            ),
    ensures
        chunks_readable(bytes),
{
    if bytes.len() >= 12 {
        lemma_whole_chunks_are_searched(bytes, 0, chunks_end(bytes), format_id());
        lemma_whole_chunks_are_searched(bytes, 0, chunks_end(bytes), data_id());
    }
}

/// A search from the `n`-th chunk on meets nothing that cannot be read.
proof fn lemma_whole_chunks_are_searched(bytes: Seq<u8>, n: nat, end: int, id: Seq<u8>)
    requires
        forall|m: nat|
            nth_chunk(bytes, m) < end ==> !broken_at(bytes, #[trigger] nth_chunk(bytes, m)),
    ensures
        !(search(bytes, nth_chunk(bytes, n), end, id) is Unreadable),
    decreases
            if nth_chunk(bytes, n) < end {
                end - nth_chunk(bytes, n)
            } else {
                0
            },
{
    let p = nth_chunk(bytes, n);
    if p < end {
        assert(!broken_at(bytes, p));
        let size = little_endian(bytes, p + 4);
        assert(nth_chunk(bytes, n + 1) == p + 8 + size + size % 2);
        lemma_whole_chunks_are_searched(bytes, n + 1, end, id);
    }
}

/// A file says what it holds: the view of its samples is of their form and has exactly them.
pub proof fn law_files_show_what_they_hold(file: WavFile)
    ensures
        file@.sampling_rate == file.sampling_rate,
        file@.channel_count == file.channel_count,
        file.samples matches Pcm::ThirtyTwoFloat(s) ==> file@.samples == PcmModel::ThirtyTwoFloat(s@),
        file.samples matches Pcm::TwentyFour(s) ==> file@.samples == PcmModel::TwentyFour(s@),
        file.samples matches Pcm::Sixteen(s) ==> file@.samples == PcmModel::Sixteen(s@),
        file.samples matches Pcm::Eight(s) ==> file@.samples == PcmModel::Eight(s@),
        file.samples is Empty ==> file@.samples is Empty,
{
}

} // verus!
