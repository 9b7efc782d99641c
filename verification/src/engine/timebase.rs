//! Integer arithmetic of the time conversions: division that truncates,
//! division that rounds to nearest, and the unit conversions built on them.
//! Every intermediate value is held in 128 bits, and results that leave
//! the range of their type saturate.

use vstd::prelude::*;

verus! {

pub const MICROS_PER_SECOND: u32 = 1_000_000;

/// A tempo multiplier of one, in parts per million.
pub const UNIT_MULTIPLIER_PPM: u32 = 1_000_000;

/// The smallest tempo multiplier, one tenth, in parts per million.
pub const MIN_MULTIPLIER_PPM: u32 = 100_000;

/// Quotient of `n` by `d > 0`, rounded toward zero.
pub open spec fn trunc_div(n: int, d: int) -> int {
    if n >= 0 {
        n / d
    } else {
        -((-n) / d)
    }
}

/// Quotient of `n` by `d > 0`, rounded to the nearest integer, halves away
/// from zero.
pub open spec fn round_div(n: int, d: int) -> int {
    if n >= 0 {
        (2 * n + d) / (2 * d)
    } else {
        -((2 * (-n) + d) / (2 * d))
    }
}

pub open spec fn clamp_i64(x: int) -> i64 {
    if x > i64::MAX {
        i64::MAX
    } else if x < i64::MIN {
        i64::MIN
    } else {
        x as i64
    }
}

pub open spec fn clamp_u64(x: int) -> u64 {
    if x > u64::MAX {
        u64::MAX
    } else if x < 0 {
        0
    } else {
        x as u64
    }
}

/// Duration of `ticks` pulses in microseconds, at `us_per_quarter`
/// microseconds to the quarter note and `ppq` pulses to the quarter note.
pub open spec fn ticks_to_us(ticks: int, us_per_quarter: int, ppq: int) -> int {
    trunc_div(ticks * us_per_quarter, ppq)
}

/// Pulses that fit into `us` microseconds.
pub open spec fn us_to_ticks(us: int, us_per_quarter: int, ppq: int) -> int {
    trunc_div(us * ppq, us_per_quarter)
}

/// Samples in `micros` microseconds at `sample_rate_hz`, to the nearest
/// sample; nothing for a time that is not positive.
pub open spec fn micros_to_samples(micros: int, sample_rate_hz: int) -> u64 {
    if micros <= 0 {
        0
    } else {
        clamp_u64(round_div(micros * sample_rate_hz, MICROS_PER_SECOND as int))
    }
}

/// Microseconds covered by `sample` samples at `sample_rate_hz`, to the
/// nearest microsecond. At a rate of zero any positive number of samples
/// takes forever.
pub open spec fn samples_to_micros(sample: int, sample_rate_hz: int) -> i64 {
    if sample_rate_hz <= 0 {
        if sample <= 0 {
            0
        } else {
            i64::MAX
        }
    } else {
        clamp_i64(round_div(sample * MICROS_PER_SECOND, sample_rate_hz))
    }
}

/// Score time `micros` as it lasts when played `multiplier_ppm` millionths
/// as fast.
pub open spec fn scale_down(micros: int, multiplier_ppm: int) -> i64 {
    clamp_i64(round_div(micros * UNIT_MULTIPLIER_PPM, multiplier_ppm))
}

/// Played time `micros` as score time, at `multiplier_ppm` millionths of
/// the written tempo.
pub open spec fn scale_up(micros: int, multiplier_ppm: int) -> i64 {
    clamp_i64(round_div(micros * multiplier_ppm, UNIT_MULTIPLIER_PPM as int))
}

pub fn div_trunc(n: i128, d: i128) -> (q: i128)
    requires
        d > 0,
        n > i128::MIN,
    ensures
        q == trunc_div(n as int, d as int),
{
    if n >= 0 {
        n / d
    } else {
        let m: i128 = -n;
        let q: i128 = m / d;
        -q
    }
}

pub fn div_round(n: i128, d: i128) -> (q: i128)
    requires
        0 < d < 0x1_0000_0000_0000_0000,
        -0x1_0000_0000_0000_0000_0000_0000_0000 < n < 0x1_0000_0000_0000_0000_0000_0000_0000,
    ensures
        q == round_div(n as int, d as int),
{
    if n >= 0 {
        (2 * n + d) / (2 * d)
    } else {
        let m: i128 = -n;
        let q: i128 = (2 * m + d) / (2 * d);
        -q
    }
}

pub fn to_i64_saturating(x: i128) -> (r: i64)
    ensures
        r == clamp_i64(x as int),
{
    if x > i64::MAX as i128 {
        i64::MAX
    } else if x < i64::MIN as i128 {
        i64::MIN
    } else {
        x as i64
    }
}

pub fn to_u64_saturating(x: i128) -> (r: u64)
    ensures
        r == clamp_u64(x as int),
{
    if x > u64::MAX as i128 {
        u64::MAX
    } else if x < 0 {
        0
    } else {
        x as u64
    }
}

pub fn ticks_to_micros(ticks: i128, us_per_quarter: u32, ppq: u16) -> (us: i128)
    requires
        ppq > 0,
        -0x1_0000_0000_0000_0000 <= ticks <= 0x1_0000_0000_0000_0000,
    ensures
        us == ticks_to_us(ticks as int, us_per_quarter as int, ppq as int),
{
    assert(-0x1_0000_0000_0000_0000 * 0x1_0000_0000 <= ticks * us_per_quarter
        <= 0x1_0000_0000_0000_0000 * 0x1_0000_0000) by (nonlinear_arith)
        requires
            -0x1_0000_0000_0000_0000 <= ticks <= 0x1_0000_0000_0000_0000,
            0 <= us_per_quarter < 0x1_0000_0000,
    ;
    div_trunc(ticks * (us_per_quarter as i128), ppq as i128)
}

pub fn micros_to_ticks(us: i128, us_per_quarter: u32, ppq: u16) -> (ticks: i128)
    requires
        us_per_quarter > 0,
        -0x1_0000_0000_0000_0000 <= us <= 0x1_0000_0000_0000_0000,
    ensures
        ticks == us_to_ticks(us as int, us_per_quarter as int, ppq as int),
{
    assert(-0x1_0000_0000_0000_0000 * 0x1_0000 <= us * ppq <= 0x1_0000_0000_0000_0000 * 0x1_0000)
        by (nonlinear_arith)
        requires
            -0x1_0000_0000_0000_0000 <= us <= 0x1_0000_0000_0000_0000,
            0 <= ppq < 0x1_0000,
    ;
    div_trunc(us * (ppq as i128), us_per_quarter as i128)
}

pub fn samples_from_micros(micros: i64, sample_rate_hz: u32) -> (samples: u64)
    ensures
        samples == micros_to_samples(micros as int, sample_rate_hz as int),
{
    if micros <= 0 {
        return 0;
    }
    assert(0 <= micros * sample_rate_hz <= 0x8000_0000_0000_0000 * 0x1_0000_0000)
        by (nonlinear_arith)
        requires
            0 <= micros <= 0x8000_0000_0000_0000,
            0 <= sample_rate_hz < 0x1_0000_0000,
    ;
    to_u64_saturating(
        div_round((micros as i128) * (sample_rate_hz as i128), MICROS_PER_SECOND as i128),
    )
}

pub fn micros_from_samples(sample: u64, sample_rate_hz: u32) -> (micros: i64)
    ensures
        micros == samples_to_micros(sample as int, sample_rate_hz as int),
{
    if sample_rate_hz == 0 {
        return if sample == 0 {
            0
        } else {
            i64::MAX
        };
    }
    assert(0 <= sample * MICROS_PER_SECOND <= 0x1_0000_0000_0000_0000 * 1_000_000)
        by (nonlinear_arith)
        requires
            0 <= sample <= 0x1_0000_0000_0000_0000,
            MICROS_PER_SECOND == 1_000_000,
    ;
    to_i64_saturating(
        div_round((sample as i128) * (MICROS_PER_SECOND as i128), sample_rate_hz as i128),
    )
}

pub fn scaled_down(micros: i64, multiplier_ppm: u32) -> (scaled: i64)
    requires
        multiplier_ppm > 0,
    ensures
        scaled == scale_down(micros as int, multiplier_ppm as int),
{
    to_i64_saturating(
        div_round((micros as i128) * (UNIT_MULTIPLIER_PPM as i128), multiplier_ppm as i128),
    )
}

pub fn scaled_up(micros: i64, multiplier_ppm: u32) -> (scaled: i64)
    ensures
        scaled == scale_up(micros as int, multiplier_ppm as int),
{
    assert(-0x8000_0000_0000_0000 * 0x1_0000_0000 <= micros * multiplier_ppm
        <= 0x8000_0000_0000_0000 * 0x1_0000_0000) by (nonlinear_arith)
        requires
            -0x8000_0000_0000_0000 <= micros <= 0x8000_0000_0000_0000,
            0 <= multiplier_ppm < 0x1_0000_0000,
    ;
    to_i64_saturating(
        div_round((micros as i128) * (multiplier_ppm as i128), UNIT_MULTIPLIER_PPM as i128),
    )
}

} // verus!
