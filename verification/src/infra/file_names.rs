//! Names of the files that the application writes.

use crate::text::{bytes_eq, lowered, to_lower};
use vstd::prelude::*;
use vstd::string::StringSliceAdditionalSpecFns;

verus! {

/// A control character: one of the code points below U+0020, or from
/// U+007F to U+009F.
pub open spec fn is_control(c: char) -> bool {
    c as u32 <= 0x1f || 0x7f <= c as u32 <= 0x9f
}

/// A character that a file name must not hold on one of the common file
/// systems.
pub open spec fn is_reserved(c: char) -> bool {
    c == '/' || c == '\\' || c == ':' || c == '*' || c == '?' || c == '"' || c == '<' || c == '>'
        || c == '|'
}

/// A character with the Unicode property of white space.
pub open spec fn is_white_space(c: char) -> bool {
    let code = c as u32;
    ||| 0x09 <= code <= 0x0d
    ||| code == 0x20
    ||| code == 0x85
    ||| code == 0xa0
    ||| code == 0x1680
    ||| 0x2000 <= code <= 0x200a
    ||| code == 0x2028
    ||| code == 0x2029
    ||| code == 0x202f
    ||| code == 0x205f
    ||| code == 0x3000
}

/// What is taken from the ends of a name: full stops where `stops` holds,
/// white space else.
pub open spec fn is_dropped(stops: bool) -> spec_fn(char) -> bool {
    |c: char|
        if stops {
            c == '.'
        } else {
            is_white_space(c)
        }
}

/// The character itself, or a low line in place of one that a file name
/// must not hold.
pub open spec fn replaced(c: char) -> char {
    if is_control(c) || is_reserved(c) {
        '_'
    } else {
        c
    }
}

/// The first place from `i` on whose character is not one of `drop`.
pub open spec fn skip_front(s: Seq<char>, drop: spec_fn(char) -> bool, i: int) -> int
    decreases s.len() - i,
{
    if 0 <= i < s.len() && drop(s[i]) {
        skip_front(s, drop, i + 1)
    } else {
        i
    }
}

/// The place behind the last character before `j` that is not one of
/// `drop`, not before `from`.
pub open spec fn skip_back(s: Seq<char>, drop: spec_fn(char) -> bool, from: int, j: int) -> int
    decreases j - from,
{
    if from < j <= s.len() && drop(s[j - 1]) {
        skip_back(s, drop, from, j - 1)
    } else {
        j
    }
}

/// The text without the characters of `drop` at its two ends.
pub open spec fn stripped(s: Seq<char>, drop: spec_fn(char) -> bool) -> Seq<char> {
    let from = skip_front(s, drop, 0);
    if from >= s.len() {
        Seq::empty()
    } else {
        s.subrange(from, skip_back(s, drop, from, s.len() as int))
    }
}

/// The stem of a file name made of `stem`: each character that a file
/// name must not hold becomes a low line; then the white space at the two
/// ends is taken away, and then the full stops at the two ends.
pub open spec fn sanitized(stem: Seq<char>) -> Seq<char> {
    stripped(stripped(stem.map_values(|c: char| replaced(c)), is_dropped(false)), is_dropped(true))
}

fn white_space(c: char) -> (r: bool)
    ensures
        r == is_white_space(c),
{
    let code: u32 = c as u32;
    (0x09 <= code && code <= 0x0d) || code == 0x20 || code == 0x85 || code == 0xa0 || code
        == 0x1680 || (0x2000 <= code && code <= 0x200a) || code == 0x2028 || code == 0x2029
        || code == 0x202f || code == 0x205f || code == 0x3000
}

fn dropped(c: char, stops: bool) -> (r: bool)
    ensures
        r == is_dropped(stops)(c),
{
    if stops {
        c == '.'
    } else {
        white_space(c)
    }
}

/// The bounds of the part `from..to` of `s` without white space at its
/// ends, or without full stops where `stops` holds.
fn strip_bounds(s: &Vec<char>, from: usize, to: usize, stops: bool) -> (bounds: (usize, usize))
    requires
        from <= to <= s@.len(),
    ensures
        from <= bounds.0 <= bounds.1 <= to,
        stripped(s@.subrange(from as int, to as int), is_dropped(stops)) == s@.subrange(
            bounds.0 as int,
            bounds.1 as int,
        ),
{
    let ghost drop = is_dropped(stops);
    let ghost part = s@.subrange(from as int, to as int);
    let mut a: usize = from;
    while a < to && dropped(s[a], stops)
        invariant
            from <= a <= to <= s@.len(),
            part == s@.subrange(from as int, to as int),
            drop == is_dropped(stops),
            skip_front(part, drop, 0) == skip_front(part, drop, a - from),
        decreases to - a,
    {
        assert(part[a - from] == s@[a as int]);
        a = a + 1;
    }
    assert(a < to ==> part[a - from] == s@[a as int]);
    assert(skip_front(part, drop, 0) == a - from);
    if a >= to {
        assert(s@.subrange(to as int, to as int) =~= Seq::<char>::empty());
        return (to, to);
    }
    let mut b: usize = to;
    while b > a && dropped(s[b - 1], stops)
        invariant
            from <= a <= b <= to <= s@.len(),
            part == s@.subrange(from as int, to as int),
            drop == is_dropped(stops),
            skip_back(part, drop, a - from, part.len() as int) == skip_back(
                part,
                drop,
                a - from,
                b - from,
            ),
        decreases b,
    {
        assert(part[b - 1 - from] == s@[b - 1]);
        b = b - 1;
    }
    assert(b > a ==> part[b - 1 - from] == s@[b - 1]);
    assert(skip_back(part, drop, a - from, part.len() as int) == b - from);
    assert(part.subrange(a - from, b - from) =~= s@.subrange(a as int, b as int));
    (a, b)
}

/// Makes the stem of a file name out of a text.
pub fn sanitize_file_stem(stem: &Vec<char>) -> (out: Vec<char>)
    ensures
        out@ == sanitized(stem@),
{
    let mut clean: Vec<char> = Vec::new();
    let mut i: usize = 0;
    while i < stem.len()
        invariant
            i <= stem@.len(),
            clean@ == stem@.subrange(0, i as int).map_values(|c: char| replaced(c)),
        decreases stem@.len() - i,
    {
        let c = stem[i];
        let code: u32 = c as u32;
        let bad = code <= 0x1f || (0x7f <= code && code <= 0x9f) || c == '/' || c == '\\' || c
            == ':' || c == '*' || c == '?' || c == '"' || c == '<' || c == '>' || c == '|';
        clean.push(if bad {
            '_'
        } else {
            c
        });
        assert(clean@ =~= stem@.subrange(0, i + 1).map_values(|c: char| replaced(c)));
        i = i + 1;
    }
    assert(stem@.subrange(0, stem@.len() as int) =~= stem@);
    assert(clean@.subrange(0, clean@.len() as int) =~= clean@);
    let (a, b) = strip_bounds(&clean, 0, clean.len(), false);
    let (c, d) = strip_bounds(&clean, a, b, true);
    let mut out: Vec<char> = Vec::new();
    let mut k: usize = c;
    while k < d
        invariant
            c <= k <= d <= clean@.len(),
            out@ == clean@.subrange(c as int, k as int),
        decreases d - k,
    {
        out.push(clean[k]);
        assert(out@ =~= clean@.subrange(c as int, k + 1));
        k = k + 1;
    }
    out
}

/// The stem that an exported file gets by default: that of the file it
/// is made from, sanitized, or `score` where that leaves nothing.
pub open spec fn export_stem_of(stem: Option<Seq<char>>) -> Seq<char> {
    match stem {
        Some(s) => if sanitized(s).len() > 0 {
            sanitized(s)
        } else {
            "score"@
        },
        None => "score"@,
    }
}

pub fn export_stem(stem: Option<&Vec<char>>) -> (out: Vec<char>)
    ensures
        out@ == export_stem_of(
            match stem {
                Some(s) => Some(s@),
                None => None,
            },
        ),
{
    match stem {
        Some(s) => {
            let clean = sanitize_file_stem(s);
            if clean.len() > 0 {
                return clean;
            }
        },
        None => {},
    }
    proof {
        reveal_strlit("score");
    }
    let mut out: Vec<char> = Vec::new();
    out.push('s');
    out.push('c');
    out.push('o');
    out.push('r');
    out.push('e');
    assert(out@ =~= "score"@);
    out
}

/// The extension is that of a MIDI file: `mid` or `midi`, in capitals or
/// not.
pub open spec fn is_midi_extension_of(ext: Seq<u8>) -> bool {
    lowered(ext) == "mid".spec_bytes() || lowered(ext) == "midi".spec_bytes()
}

pub fn is_midi_extension(ext: &[u8]) -> (r: bool)
    ensures
        r == is_midi_extension_of(ext@),
{
    let lower = to_lower(ext);
    bytes_eq(lower.as_slice(), "mid".as_bytes()) || bytes_eq(lower.as_slice(), "midi".as_bytes())
}

/// The extension is that of a MusicXML file, compressed or not: `mxl` or
/// `xml`, in capitals or not.
pub open spec fn is_musicxml_extension_of(ext: Seq<u8>) -> bool {
    lowered(ext) == "mxl".spec_bytes() || lowered(ext) == "xml".spec_bytes()
}

pub fn is_musicxml_extension(ext: &[u8]) -> (r: bool)
    ensures
        r == is_musicxml_extension_of(ext@),
{
    let lower = to_lower(ext);
    bytes_eq(lower.as_slice(), "mxl".as_bytes()) || bytes_eq(lower.as_slice(), "xml".as_bytes())
}

} // verus!
