use crate::engine::timebase::{div_round, round_div};
use vstd::prelude::*;

verus! {

/// The sample rate for which the lengths of the soundboard's delay lines
/// are given.
pub const REFERENCE_RATE_HZ: u32 = 48_000;

/// The shortest delay line, in samples.
pub const MIN_LINE_LEN: usize = 32;

/// The longest delay line, in samples.
pub const MAX_LINE_LEN: usize = 48_000;

/// The length of a delay line that has `base_len` samples at the reference
/// rate, at `sample_rate_hz`, taken as at least one hertz: scaled with the
/// rate, to the nearest sample, and held between the shortest and the
/// longest line.
pub open spec fn scale_len_spec(base_len: usize, sample_rate_hz: u32) -> usize {
    let rate: int = if sample_rate_hz == 0 {
        1
    } else {
        sample_rate_hz as int
    };
    let scaled = round_div(base_len * rate, REFERENCE_RATE_HZ as int);
    if scaled < MIN_LINE_LEN {
        MIN_LINE_LEN
    } else if scaled > MAX_LINE_LEN {
        MAX_LINE_LEN
    } else {
        scaled as usize
    }
}

pub fn scale_len(base_len: usize, sample_rate_hz: u32) -> (len: usize)
    ensures
        len == scale_len_spec(base_len, sample_rate_hz),
        MIN_LINE_LEN <= len <= MAX_LINE_LEN,
{
    let rate: u32 = if sample_rate_hz == 0 {
        1
    } else {
        sample_rate_hz
    };
    assert(0 <= base_len * rate <= 0x1_0000_0000_0000_0000 * 0x1_0000_0000) by (nonlinear_arith)
        requires
            0 <= base_len <= 0x1_0000_0000_0000_0000,
            0 <= rate <= 0x1_0000_0000,
    ;
    let scaled: i128 = div_round((base_len as i128) * (rate as i128), REFERENCE_RATE_HZ as i128);
    if scaled < MIN_LINE_LEN as i128 {
        MIN_LINE_LEN
    } else if scaled > MAX_LINE_LEN as i128 {
        MAX_LINE_LEN
    } else {
        scaled as usize
    }
}

} // verus!
