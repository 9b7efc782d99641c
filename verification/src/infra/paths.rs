//! Paths as a user or a browser hands them over.

use crate::text::{has_prefix, starts_with};
use vstd::prelude::*;

verus! {

/// The value of a hexadecimal digit.
pub open spec fn hex_value(byte: u8) -> Option<u8> {
    if 0x30 <= byte <= 0x39 {
        Some((byte - 0x30) as u8)
    } else if 0x61 <= byte <= 0x66 {
        Some((byte - 0x61 + 10) as u8)
    } else if 0x41 <= byte <= 0x46 {
        Some((byte - 0x41 + 10) as u8)
    } else {
        None
    }
}

/// An escape stands at `i`: a percent sign with two hexadecimal digits
/// behind it.
pub open spec fn escape_at(bytes: Seq<u8>, i: int) -> bool {
    &&& 0 <= i
    &&& i + 2 < bytes.len()
    &&& bytes[i] == 0x25
    &&& hex_value(bytes[i + 1]) is Some
    &&& hex_value(bytes[i + 2]) is Some
}

/// The bytes from `i` on with every escape replaced by the byte that it
/// names; what is not an escape stands for itself.
pub open spec fn percent_decoded_from(bytes: Seq<u8>, i: int) -> Seq<u8>
    decreases bytes.len() - i,
{
    if i < 0 || i >= bytes.len() {
        Seq::empty()
    } else if escape_at(bytes, i) {
        seq![(hex_value(bytes[i + 1]).unwrap() * 16 + hex_value(bytes[i + 2]).unwrap()) as u8]
            + percent_decoded_from(bytes, i + 3)
    } else {
        seq![bytes[i]] + percent_decoded_from(bytes, i + 1)
    }
}

fn hex(byte: u8) -> (value: Option<u8>)
    ensures
        value == hex_value(byte),
        value matches Some(v) ==> v < 16,
{
    if 0x30 <= byte && byte <= 0x39 {
        Some(byte - 0x30)
    } else if 0x61 <= byte && byte <= 0x66 {
        Some(byte - 0x61 + 10)
    } else if 0x41 <= byte && byte <= 0x46 {
        Some(byte - 0x41 + 10)
    } else {
        None
    }
}

/// Replaces every escape of a percent sign and two hexadecimal digits by
/// the byte that it names.
pub fn percent_decode(bytes: &[u8]) -> (out: Vec<u8>)
    ensures
        out@ == percent_decoded_from(bytes@, 0),
{
    let mut out: Vec<u8> = Vec::new();
    let mut i: usize = 0;
    assert(out@ + percent_decoded_from(bytes@, 0) =~= percent_decoded_from(bytes@, 0));
    while i < bytes.len()
        invariant
            i <= bytes@.len(),
            out@ + percent_decoded_from(bytes@, i as int) == percent_decoded_from(bytes@, 0),
        decreases bytes@.len() - i,
    {
        let ghost before = out@;
        if bytes[i] == 0x25 && bytes.len() - i > 2 {
            match (hex(bytes[i + 1]), hex(bytes[i + 2])) {
                (Some(hi), Some(lo)) => {
                    out.push(hi * 16 + lo);
                    proof {
                        assert(before + (seq![(hi * 16 + lo) as u8] + percent_decoded_from(
                            bytes@,
                            i + 3,
                        )) =~= out@ + percent_decoded_from(bytes@, i + 3));
                    }
                    i = i + 3;
                    continue ;
                },
                _ => {},
            }
        }
        out.push(bytes[i]);
        proof {
            assert(before + (seq![bytes@[i as int]] + percent_decoded_from(bytes@, i + 1))
                =~= out@ + percent_decoded_from(bytes@, i + 1));
        }
        i = i + 1;
    }
    assert(out@ + Seq::<u8>::empty() =~= out@);
    out
}

/// The bytes `file://`.
pub open spec fn file_scheme() -> Seq<u8> {
    seq![0x66u8, 0x69, 0x6c, 0x65, 0x3a, 0x2f, 0x2f]
}

/// The bytes `localhost`.
pub open spec fn localhost() -> Seq<u8> {
    seq![0x6cu8, 0x6f, 0x63, 0x61, 0x6c, 0x68, 0x6f, 0x73, 0x74]
}

/// Where the path of a file address begins, if `bytes` is one: behind
/// `file://` and a host `localhost`, at a slash.
pub open spec fn file_url_path_start(bytes: Seq<u8>) -> Option<int> {
    if !starts_with(bytes, file_scheme()) {
        None
    } else {
        let behind = bytes.subrange(7, bytes.len() as int);
        let start: int = if starts_with(behind, localhost()) {
            16
        } else {
            7
        };
        if start < bytes.len() && bytes[start] == 0x2f {
            Some(start)
        } else {
            None
        }
    }
}

/// The path that a file address names, with its escapes replaced; nothing
/// for what is not a file address.
pub fn decode_file_url(bytes: &[u8]) -> (path: Option<Vec<u8>>)
    ensures
        match file_url_path_start(bytes@) {
            Some(start) => path matches Some(decoded) && decoded@ == percent_decoded_from(
                bytes@.subrange(start, bytes@.len() as int),
                0,
            ),
            None => path is None,
        },
{
    let scheme: [u8; 7] = [0x66, 0x69, 0x6c, 0x65, 0x3a, 0x2f, 0x2f];
    let host: [u8; 9] = [0x6c, 0x6f, 0x63, 0x61, 0x6c, 0x68, 0x6f, 0x73, 0x74];
    assert(scheme@ =~= file_scheme());
    assert(host@ =~= localhost());
    if !has_prefix(bytes, scheme.as_slice()) {
        return None;
    }
    let start: usize = if has_prefix(slice_from(bytes, 7), host.as_slice()) {
        16
    } else {
        7
    };
    if start < bytes.len() && bytes[start] == 0x2f {
        let rest = slice_from(bytes, start);
        Some(percent_decode(rest))
    } else {
        None
    }
}

fn slice_from(bytes: &[u8], start: usize) -> (rest: &[u8])
    requires
        start <= bytes@.len(),
    ensures
        rest@ == bytes@.subrange(start as int, bytes@.len() as int),
{
    vstd::slice::slice_subrange(bytes, start, bytes.len())
}

/// The path stands between a pair of quotation marks, single or double.
pub open spec fn is_quoted(path: Seq<u8>) -> bool {
    &&& path.len() >= 2
    &&& path[0] == path[path.len() - 1]
    &&& (path[0] == 0x22 || path[0] == 0x27)
}

/// The path without the quotation marks around it, if it has them.
pub open spec fn unquoted(path: Seq<u8>) -> Seq<u8> {
    if is_quoted(path) {
        path.subrange(1, path.len() - 1)
    } else {
        path
    }
}

pub fn strip_quotes(path: &[u8]) -> (inner: &[u8])
    ensures
        inner@ == unquoted(path@),
{
    let n = path.len();
    if n >= 2 && path[0] == path[n - 1] && (path[0] == 0x22 || path[0] == 0x27) {
        vstd::slice::slice_subrange(path, 1, n - 1)
    } else {
        path
    }
}

} // verus!
