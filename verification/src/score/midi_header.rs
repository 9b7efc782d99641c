//! Where a Standard MIDI File keeps its header chunks, and whether every
//! time code among them can be read. A header that gives its timing as a
//! time code holds the frames per second as a negative byte; the byte for
//! -128 has no positive counterpart, and a reader that negates it fails.

use vstd::prelude::*;

verus! {

/// The identifier `MThd` of a header chunk, as a big-endian word.
pub const ID_HEADER: u64 = 0x4d54_6864;

/// The identifier `MTrk` of a track chunk.
pub const ID_TRACK: u64 = 0x4d54_726b;

/// The identifier `RIFF` of the outer chunk of a RIFF file.
pub const ID_RIFF: u64 = 0x5249_4646;

/// The form type `RMID` of a RIFF file that holds a MIDI file.
pub const ID_RMID: u64 = 0x524d_4944;

/// The identifier `data` of the chunk of a RIFF file that holds the MIDI
/// file.
pub const ID_DATA: u64 = 0x6461_7461;

/// The four bytes from `at` on as a word, the first byte the highest.
pub open spec fn word_be(data: Seq<u8>, at: int) -> int {
    data[at] * 0x100_0000 + data[at + 1] * 0x1_0000 + data[at + 2] * 0x100 + data[at + 3]
}

/// The four bytes from `at` on as a word, the first byte the lowest.
pub open spec fn word_le(data: Seq<u8>, at: int) -> int {
    data[at] + data[at + 1] * 0x100 + data[at + 2] * 0x1_0000 + data[at + 3] * 0x100_0000
}

/// Where the content of a chunk ends whose content starts at `start` and
/// is said to have `len` bytes, within a file that ends at `hi`: a chunk
/// that would reach beyond the file takes what is left of it.
pub open spec fn chunk_end(start: int, len: int, hi: int) -> int {
    if len <= hi - start {
        start + len
    } else {
        hi
    }
}

/// The byte of the frames per second is one of -24, -25, -29 and -30.
pub open spec fn is_frame_rate(byte: u8) -> bool {
    byte == 0xe8 || byte == 0xe7 || byte == 0xe3 || byte == 0xe2
}

/// The content of the `data` chunk among the chunks of a RIFF form that
/// lie between `lo` and `hi`, as the places where it starts and ends: the
/// first chunk of that name. A chunk of odd length is followed by a byte
/// of padding.
pub open spec fn riff_data(data: Seq<u8>, lo: int, hi: int) -> Option<(int, int)>
    decreases hi - lo,
{
    if lo < 0 || hi - lo < 8 {
        None
    } else {
        let len = word_le(data, lo + 4);
        let start = lo + 8;
        let stop = chunk_end(start, len, hi);
        let next = if len % 2 == 1 && stop < hi {
            stop + 1
        } else {
            stop
        };
        if word_be(data, lo) == ID_DATA {
            Some((start, stop))
        } else {
            riff_data(data, next, hi)
        }
    }
}

/// The part of a file that holds the chunks of the MIDI file, as the
/// places where it starts and ends: the whole of a file that begins with
/// `MThd`; of a RIFF file of the form `RMID`, the content of its `data`
/// chunk; nothing of any other file.
pub open spec fn smf_body(data: Seq<u8>) -> Option<(int, int)> {
    if data.len() < 4 {
        None
    } else if word_be(data, 0) == ID_HEADER {
        Some((0, data.len() as int))
    } else if word_be(data, 0) == ID_RIFF {
        if data.len() < 8 {
            None
        } else {
            let stop = chunk_end(8, word_le(data, 4), data.len() as int);
            if stop - 8 < 4 || word_be(data, 8) != ID_RMID {
                None
            } else {
                riff_data(data, 12, stop)
            }
        }
    } else {
        None
    }
}

/// What reading the header chunk whose content lies between `start` and
/// `stop` comes to.
pub enum HeaderRead {
    /// The header is read.
    Read,
    /// The header is refused: it is too short, or its format or its frames
    /// per second are none that exist.
    Refused,
    /// The header gives -128 frames per second.
    Overflow,
}

/// What reading a header comes to: format, number of tracks and timing
/// are words of two bytes each, read in this order.
pub open spec fn header_read(data: Seq<u8>, start: int, stop: int) -> HeaderRead {
    if stop - start < 2 {
        HeaderRead::Refused
    } else if data[start] != 0 || data[start + 1] > 2 {
        HeaderRead::Refused
    } else if stop - start < 6 {
        HeaderRead::Refused
    } else if data[start + 4] < 0x80 {
        HeaderRead::Read
    } else if data[start + 4] == 0x80 {
        HeaderRead::Overflow
    } else if is_frame_rate(data[start + 4]) {
        HeaderRead::Read
    } else {
        HeaderRead::Refused
    }
}

/// Reading the chunks between `lo` and `hi` one after the other comes upon
/// a header that gives -128 frames per second. `seen` says that a header
/// was read before. Reading ends where a chunk cannot be read, where a
/// header is refused, and at a track that no header comes before; chunks
/// of other names are passed over.
pub open spec fn timecode_overflows_from(data: Seq<u8>, lo: int, hi: int, seen: bool) -> bool
    decreases hi - lo,
{
    if lo < 0 || hi - lo < 8 {
        false
    } else {
        let id = word_be(data, lo);
        let start = lo + 8;
        let stop = chunk_end(start, word_be(data, lo + 4), hi);
        if id == ID_HEADER {
            match header_read(data, start, stop) {
                HeaderRead::Read => timecode_overflows_from(data, stop, hi, true),
                HeaderRead::Refused => false,
                HeaderRead::Overflow => true,
            }
        } else if id == ID_TRACK && !seen {
            false
        } else {
            timecode_overflows_from(data, stop, hi, seen)
        }
    }
}

/// Reading the file comes upon a header that gives -128 frames per
/// second.
pub open spec fn timecode_overflows(data: Seq<u8>) -> bool {
    match smf_body(data) {
        Some((lo, hi)) => timecode_overflows_from(data, lo, hi, false),
        None => false,
    }
}

fn read_be(data: &[u8], at: usize) -> (word: u64)
    requires
        at + 4 <= data@.len(),
    ensures
        word == word_be(data@, at as int),
        word <= 0xffff_ffff,
{
    let a: u64 = data[at] as u64;
    let b: u64 = data[at + 1] as u64;
    let c: u64 = data[at + 2] as u64;
    let d: u64 = data[at + 3] as u64;
    a * 0x100_0000 + b * 0x1_0000 + c * 0x100 + d
}

fn read_le(data: &[u8], at: usize) -> (word: u64)
    requires
        at + 4 <= data@.len(),
    ensures
        word == word_le(data@, at as int),
        word <= 0xffff_ffff,
{
    let a: u64 = data[at] as u64;
    let b: u64 = data[at + 1] as u64;
    let c: u64 = data[at + 2] as u64;
    let d: u64 = data[at + 3] as u64;
    a + b * 0x100 + c * 0x1_0000 + d * 0x100_0000
}

fn end_of_chunk(start: usize, len: u64, hi: usize) -> (stop: usize)
    requires
        start <= hi,
    ensures
        stop == chunk_end(start as int, len as int, hi as int),
        start <= stop <= hi,
{
    if len <= (hi - start) as u64 {
        start + len as usize
    } else {
        hi
    }
}

fn find_riff_data(data: &[u8], lo: usize, hi: usize) -> (found: Option<(usize, usize)>)
    requires
        lo <= hi <= data@.len(),
    ensures
        match found {
            Some((start, stop)) => riff_data(data@, lo as int, hi as int) == Some(
                (start as int, stop as int),
            ) && start <= stop <= hi,
            None => riff_data(data@, lo as int, hi as int) is None,
        },
{
    let mut at: usize = lo;
    while hi - at >= 8
        invariant
            lo <= at <= hi <= data@.len(),
            riff_data(data@, lo as int, hi as int) == riff_data(data@, at as int, hi as int),
        decreases hi - at,
    {
        let len = read_le(data, at + 4);
        let start = at + 8;
        let stop = end_of_chunk(start, len, hi);
        if read_be(data, at) == ID_DATA {
            return Some((start, stop));
        }
        at = if len % 2 == 1 && stop < hi {
            stop + 1
        } else {
            stop
        };
    }
    None
}

fn find_body(data: &[u8]) -> (body: Option<(usize, usize)>)
    ensures
        match body {
            Some((lo, hi)) => smf_body(data@) == Some((lo as int, hi as int)) && lo <= hi
                <= data@.len(),
            None => smf_body(data@) is None,
        },
{
    let n = data.len();
    if n < 4 {
        return None;
    }
    let id = read_be(data, 0);
    if id == ID_HEADER {
        Some((0, n))
    } else if id == ID_RIFF {
        if n < 8 {
            return None;
        }
        let stop = end_of_chunk(8, read_le(data, 4), n);
        if stop - 8 < 4 || read_be(data, 8) != ID_RMID {
            None
        } else {
            find_riff_data(data, 12, stop)
        }
    } else {
        None
    }
}

fn read_header(data: &[u8], start: usize, stop: usize) -> (read: HeaderRead)
    requires
        start <= stop <= data@.len(),
    ensures
        read == header_read(data@, start as int, stop as int),
{
    if stop - start < 2 {
        HeaderRead::Refused
    } else if data[start] != 0 || data[start + 1] > 2 {
        HeaderRead::Refused
    } else if stop - start < 6 {
        HeaderRead::Refused
    } else {
        let rate = data[start + 4];
        if rate < 0x80 {
            HeaderRead::Read
        } else if rate == 0x80 {
            HeaderRead::Overflow
        } else if rate == 0xe8 || rate == 0xe7 || rate == 0xe3 || rate == 0xe2 {
            HeaderRead::Read
        } else {
            HeaderRead::Refused
        }
    }
}

/// What is left to do after one chunk is read.
enum Walk {
    /// Reading goes on at the place given, with or without a header seen.
    On(usize, bool),
    /// Reading has ended, with the answer given.
    Ended(bool),
}

fn read_chunk(data: &[u8], at: usize, hi: usize, seen: bool) -> (walk: Walk)
    requires
        at <= hi <= data@.len(),
        hi - at >= 8,
    ensures
        match walk {
            Walk::On(next, seen_now) => at < next <= hi && timecode_overflows_from(
                data@,
                at as int,
                hi as int,
                seen,
            ) == timecode_overflows_from(data@, next as int, hi as int, seen_now),
            Walk::Ended(found) => found == timecode_overflows_from(
                data@,
                at as int,
                hi as int,
                seen,
            ),
        },
{
    let id = read_be(data, at);
    let start = at + 8;
    let stop = end_of_chunk(start, read_be(data, at + 4), hi);
    if id == ID_HEADER {
        match read_header(data, start, stop) {
            HeaderRead::Read => Walk::On(stop, true),
            HeaderRead::Refused => Walk::Ended(false),
            HeaderRead::Overflow => Walk::Ended(true),
        }
    } else if id == ID_TRACK && !seen {
        Walk::Ended(false)
    } else {
        Walk::On(stop, seen)
    }
}

/// Says whether reading the file comes upon a header that gives -128
/// frames per second.
pub fn has_timecode_overflow(data: &[u8]) -> (found: bool)
    ensures
        found == timecode_overflows(data@),
{
    let (lo, hi) = match find_body(data) {
        Some(body) => body,
        None => {
            return false;
        },
    };
    let mut at: usize = lo;
    let mut seen = false;
    while hi - at >= 8
        invariant
            lo <= at <= hi <= data@.len(),
            smf_body(data@) == Some((lo as int, hi as int)),
            timecode_overflows_from(data@, lo as int, hi as int, false) == timecode_overflows_from(
                data@,
                at as int,
                hi as int,
                seen,
            ),
        decreases hi - at,
    {
        match read_chunk(data, at, hi, seen) {
            Walk::On(next, seen_now) => {
                at = next;
                seen = seen_now;
            },
            Walk::Ended(found) => {
                return found;
            },
        }
    }
    false
}

} // verus!
