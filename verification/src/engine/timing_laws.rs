//! Laws of the transport's conversions between ticks and samples.

use crate::engine::timebase::{
    clamp_i64, clamp_u64, round_div, samples_to_micros, scale_down, scale_up, trunc_div,
};
use crate::engine::transport::{last_at_or_before, TempoMapView, TransportView};
use crate::ports::types::Tick;
use vstd::arithmetic::div_mod::{
    lemma_div_is_ordered, lemma_div_pos_is_pos, lemma_fundamental_div_mod,
    lemma_fundamental_div_mod_converse, lemma_mod_bound,
};
use vstd::prelude::*;

verus! {

/// The quotient of a number that is not negative lies within one divisor
/// below it.
pub proof fn lemma_div_bounds(x: int, d: int)
    requires
        x >= 0,
        d > 0,
    ensures
        x / d >= 0,
        d * (x / d) <= x < d * (x / d) + d,
{
    lemma_fundamental_div_mod(x, d);
    lemma_mod_bound(x, d);
    lemma_div_pos_is_pos(x, d);
}

/// The rounded quotient of a number that is not negative lies within half
/// a divisor of it.
pub proof fn lemma_round_div_bounds(n: int, d: int)
    requires
        n >= 0,
        d > 0,
    ensures
        round_div(n, d) >= 0,
        2 * d * round_div(n, d) <= 2 * n + d < 2 * d * round_div(n, d) + 2 * d,
{
    lemma_div_bounds(2 * n + d, 2 * d);
    assert((2 * d) * round_div(n, d) == 2 * d * round_div(n, d)) by (nonlinear_arith);
}

/// Rounding a multiple of the divisor gives back the factor.
pub proof fn lemma_round_div_multiple(k: int, d: int)
    requires
        k >= 0,
        d > 0,
    ensures
        round_div(k * d, d) == k,
{
    assert(k * d >= 0) by (nonlinear_arith)
        requires
            k >= 0,
            d > 0,
    ;
    assert(2 * (k * d) + d == (2 * d) * k + d && 2 * (k * d) + d == k * (2 * d) + d)
        by (nonlinear_arith);
    lemma_fundamental_div_mod_converse(2 * (k * d) + d, 2 * d, k, d);
}

/// What is not positive rounds to what is not positive.
pub proof fn lemma_round_div_nonpositive(n: int, d: int)
    requires
        n <= 0,
        d > 0,
    ensures
        round_div(n, d) <= 0,
{
    if n < 0 {
        lemma_div_bounds(2 * (-n) + d, 2 * d);
    } else {
        lemma_div_bounds(d, 2 * d);
        assert(d / (2 * d) == 0) by {
            lemma_fundamental_div_mod_converse(d, 2 * d, 0, d);
        }
    }
}

/// Doubling the tempo multiplier halves the distance in samples from the
/// origin to any tick, to within one sample: twice the distance at the
/// double speed differs from the distance at the single speed by no more
/// than two. This holds for a multiplier below four, at sample rates up to
/// one megahertz, as long as the played time fits in 64 bits.
pub proof fn lemma_doubling_multiplier_halves_samples(tr: TransportView, tick: Tick)
    requires
        tr.wf(),
        tr.multiplier_ppm < 4_000_000,
        tr.sample_rate_hz <= 1_000_000,
        round_div(tr.tempo_map.tick_to_micros(tick) * 1_000_000, tr.multiplier_ppm as int)
            <= i64::MAX,
    ensures
        ({
            let fast = TransportView { multiplier_ppm: (2 * tr.multiplier_ppm) as u32, ..tr };
            let single = tr.tick_to_sample_relative(tick);
            let double = fast.tick_to_sample_relative(tick);
            &&& fast.wf()
            &&& -2 <= 2 * double - single <= 2
            &&& tr.tick_to_sample(tick) < u64::MAX ==> tr.tick_to_sample(tick) - tr.origin_sample
                == single
            &&& fast.tick_to_sample(tick) < u64::MAX ==> fast.tick_to_sample(tick)
                - fast.origin_sample == double
        }),
{
    let fast = TransportView { multiplier_ppm: (2 * tr.multiplier_ppm) as u32, ..tr };
    let base = tr.tempo_map.tick_to_micros(tick) as int;
    let m = tr.multiplier_ppm as int;
    let r = tr.sample_rate_hz as int;
    let u = 1_000_000int;
    let x = base * u;
    let a = round_div(x, m);
    let b = round_div(x, 2 * m);
    if base <= 0 {
        lemma_round_div_nonpositive(x, m);
        lemma_round_div_nonpositive(x, 2 * m);
    } else {
        lemma_round_div_bounds(x, m);
        lemma_round_div_bounds(x, 2 * m);
        assert(2 * (2 * m) * b == 4 * (m * b) && 2 * m * a == 2 * (m * a)) by (nonlinear_arith);
        assert(-1 <= 2 * b - a <= 1) by (nonlinear_arith)
            requires
                m > 0,
                2 * (m * a) <= 2 * x + m < 2 * (m * a) + 2 * m,
                4 * (m * b) <= 2 * x + 2 * m < 4 * (m * b) + 4 * m,
        ;
        assert(scale_down(base, m) == a);
        assert(scale_down(base, 2 * m) == b);
        assert(a * r >= 0 && b * r >= 0) by (nonlinear_arith)
            requires
                a >= 0,
                b >= 0,
                r >= 0,
        ;
        lemma_round_div_bounds(a * r, u);
        lemma_round_div_bounds(b * r, u);
        let s1 = round_div(a * r, u);
        let s2 = round_div(b * r, u);
        assert(a * r <= a * u && b * r <= b * u) by (nonlinear_arith)
            requires
                a >= 0,
                b >= 0,
                0 <= r <= u,
        ;
        assert(-r <= 2 * (b * r) - a * r <= r) by (nonlinear_arith)
            requires
                -1 <= 2 * b - a <= 1,
                r >= 0,
        ;
        assert(s1 <= u64::MAX && s2 <= u64::MAX);
        if a == 0 {
            assert(s1 == 0) by {
                assert(a * r == 0) by (nonlinear_arith)
                    requires
                        a == 0,
                ;
            }
        }
        if b == 0 {
            assert(s2 == 0) by {
                assert(b * r == 0) by (nonlinear_arith)
                    requires
                        b == 0,
                ;
            }
        }
        assert(tr.tick_to_sample_relative(tick) == s1);
        assert(fast.tick_to_sample_relative(tick) == s2);
    }
}

/// With the multiplier at one and a single tempo from tick 0 on, going
/// from a tick to its sample and back lands within one tick of where it
/// started. This holds for ticks from 0 to 2^31 where a tick lasts at least
/// a microsecond and a half more than half a sample, and the sample is not
/// beyond the range of sample times.
pub proof fn lemma_tick_sample_round_trip(tr: TransportView, tick: Tick)
    requires
        tr.wf(),
        tr.multiplier_ppm == 1_000_000,
        tr.tempo_map.segments.len() == 1,
        tr.tempo_map.segments[0].start_tick == 0,
        0 <= tick <= 0x8000_0000,
        tr.sample_rate_hz > 0,
        (3 * tr.sample_rate_hz + 1_000_000) * tr.ppq <= 2 * tr.sample_rate_hz
            * tr.tempo_map.segments[0].us_per_quarter,
        tr.tick_to_sample(tick) < u64::MAX,
    ensures
        tick - 1 <= tr.sample_to_tick(tr.tick_to_sample(tick)) <= tick + 1,
{
    let seg = tr.tempo_map.segments[0];
    let q = seg.us_per_quarter as int;
    let p = tr.ppq as int;
    let r = tr.sample_rate_hz as int;
    let u = 1_000_000int;
    let t = tick as int;
    assert(last_at_or_before(tr.tempo_map.start_ticks(), t) == 0);
    assert(tr.tempo_map.segment_for_tick(tick) == seg);
    // Ticks to score time.
    assert(0 <= t * q <= 0x8000_0000 * 0xffff_ffff) by (nonlinear_arith)
        requires
            0 <= t <= 0x8000_0000,
            0 <= q <= 0xffff_ffff,
    ;
    let m = (t * q) / p;
    lemma_div_bounds(t * q, p);
    assert(m <= t * q) by (nonlinear_arith)
        requires
            p >= 1,
            m >= 0,
            p * m <= t * q,
    ;
    assert(tr.tempo_map.tick_to_micros(tick) == m);
    // Score time to played time: the multiplier is one.
    lemma_round_div_multiple(m, u);
    assert(tr.tick_to_micros_scaled(tick) == m);
    // Played time to samples.
    assert(m * r >= 0) by (nonlinear_arith)
        requires
            m >= 0,
            r >= 0,
    ;
    let s = round_div(m * r, u);
    lemma_round_div_bounds(m * r, u);
    if m == 0 {
        assert(m * r == 0) by (nonlinear_arith)
            requires
                m == 0,
        ;
        assert(s == 0);
    }
    assert(tr.tick_to_sample_relative(tick) == clamp_u64(s));
    assert(s <= u64::MAX);
    assert(tr.tick_to_sample(tick) == tr.origin_sample + s);
    // Samples back to played time.
    let back = tr.tick_to_sample(tick);
    assert(crate::engine::transport::sat_sub_u64(back, tr.origin_sample) == s);
    assert(s * u >= 0) by (nonlinear_arith)
        requires
            s >= 0,
            u >= 0,
    ;
    let m2 = round_div(s * u, r);
    lemma_round_div_bounds(s * u, r);
    let m3 = clamp_i64(m2) as int;
    assert(samples_to_micros(s, r) == m3);
    // How far the time has moved.
    assert(2 * u * s == 2 * (s * u)) by (nonlinear_arith);
    assert(2 * r * m2 == 2 * (r * m2)) by (nonlinear_arith);
    assert(2 * (r * m2) <= 2 * (m * r) + u + r);
    assert(2 * (r * m2) > 2 * (m * r) - u - r);
    assert(2 * (r * m3) <= 2 * (m * r) + u + r && 2 * (r * m3) > 2 * (m * r) - u - r && m3 >= 0)
        by {
        if m2 > i64::MAX {
            assert(m3 == i64::MAX);
            assert(r * m3 <= r * m2) by (nonlinear_arith)
                requires
                    m3 <= m2,
                    r >= 0,
            ;
            assert(r * m3 >= m * r) by (nonlinear_arith)
                requires
                    m3 >= m,
                    r >= 0,
            ;
        }
    }
    // Played time back to score time, and to ticks.
    lemma_round_div_multiple(m3, u);
    assert(scale_up(m3, u) == m3);
    assert(last_at_or_before(tr.tempo_map.start_micros(), m3) == 0);
    assert(tr.tempo_map.segment_for_micros(m3 as i64) == seg);
    assert(m3 * p >= 0) by (nonlinear_arith)
        requires
            m3 >= 0,
            p >= 0,
    ;
    let t2 = (m3 * p) / q;
    lemma_div_bounds(m3 * p, q);
    assert(trunc_div(m3 * p, q) == t2);
    // The resolution keeps the result within a tick.
    let bound = (3 * r + u) * p;
    assert(bound <= 2 * r * q);
    assert(2 * r * (q * t2) <= 2 * r * (q * t) + 2 * r * q) by (nonlinear_arith)
        requires
            q * t2 <= m3 * p,
            2 * (r * m3) <= 2 * (m * r) + u + r,
            p * m <= t * q,
            (3 * r + u) * p <= 2 * r * q,
            r > 0,
            p > 0,
            q > 0,
            u > 0,
            m >= 0,
            m3 >= 0,
    ;
    assert(t2 <= t + 1) by (nonlinear_arith)
        requires
            2 * r * (q * t2) <= 2 * r * (q * t) + 2 * r * q,
            r > 0,
            q > 0,
    ;
    assert(2 * r * (q * t2 + q) > 2 * r * (q * t) - 2 * r * q) by (nonlinear_arith)
        requires
            m3 * p < q * t2 + q,
            2 * (r * m3) > 2 * (m * r) - u - r,
            t * q < p * m + p,
            (3 * r + u) * p <= 2 * r * q,
            r > 0,
            p > 0,
            q > 0,
            u > 0,
            m >= 0,
            m3 >= 0,
    ;
    assert(t2 >= t - 1) by (nonlinear_arith)
        requires
            2 * r * (q * t2 + q) > 2 * r * (q * t) - 2 * r * q,
            r > 0,
            q > 0,
    ;
    assert(tr.tempo_map.micros_to_tick(m3 as i64) == clamp_i64(t2));
}


/// Truncating division keeps the order of what is divided.
pub proof fn lemma_trunc_div_monotone(a: int, b: int, d: int)
    requires
        a <= b,
        d > 0,
    ensures
        trunc_div(a, d) <= trunc_div(b, d),
{
    if a >= 0 {
        lemma_div_is_ordered(a, b, d);
    } else if b < 0 {
        lemma_div_is_ordered(-b, -a, d);
    } else {
        lemma_div_pos_is_pos(-a, d);
        lemma_div_pos_is_pos(b, d);
    }
}

/// Rounding division keeps the order of what is divided.
pub proof fn lemma_round_div_monotone(a: int, b: int, d: int)
    requires
        a <= b,
        d > 0,
    ensures
        round_div(a, d) <= round_div(b, d),
{
    if a >= 0 {
        lemma_div_is_ordered(2 * a + d, 2 * b + d, 2 * d);
    } else if b < 0 {
        lemma_div_is_ordered(2 * (-b) + d, 2 * (-a) + d, 2 * d);
    } else {
        lemma_div_pos_is_pos(2 * (-a) + d, 2 * d);
        lemma_div_pos_is_pos(2 * b + d, 2 * d);
    }
}

/// The index found lies in the sequence; what it points to is at or before
/// `x` unless it is the first entry; and everything behind it is behind `x`.
pub proof fn lemma_last_at_or_before(starts: Seq<int>, x: int)
    requires
        starts.len() > 0,
    ensures
        0 <= last_at_or_before(starts, x) < starts.len(),
        last_at_or_before(starts, x) > 0 ==> starts[last_at_or_before(starts, x)] <= x,
        forall|j: int| last_at_or_before(starts, x) < j < starts.len() ==> starts[j] > x,
    decreases starts.len(),
{
    if starts.len() > 1 && starts.last() > x {
        lemma_last_at_or_before(starts.drop_last(), x);
        let i = last_at_or_before(starts.drop_last(), x);
        assert forall|j: int| i < j < starts.len() implies starts[j] > x by {
            if j < starts.len() - 1 {
                assert(starts.drop_last()[j] == starts[j]);
            }
        }
        if i > 0 {
            assert(starts.drop_last()[i] == starts[i]);
        }
    }
}

/// A later position is governed by the same entry or a later one.
pub proof fn lemma_last_at_or_before_monotone(starts: Seq<int>, x: int, y: int)
    requires
        starts.len() > 0,
        x <= y,
    ensures
        last_at_or_before(starts, x) <= last_at_or_before(starts, y),
{
    lemma_last_at_or_before(starts, x);
    lemma_last_at_or_before(starts, y);
}

/// In a well-formed tempo map, later segments start later in time.
pub proof fn lemma_start_micros_ordered(map: TempoMapView, i: int, j: int)
    requires
        map.wf(),
        0 <= i <= j < map.segments.len(),
    ensures
        map.segments[i].start_us <= map.segments[j].start_us,
    decreases j - i,
{
    if i < j {
        lemma_start_micros_ordered(map, i, j - 1);
        let a = map.segments[j - 1];
        let b = map.segments[j];
        assert(map.segments[(j - 1) + 1].start_us == map.next_start_us(j - 1));
        assert(a.start_tick <= b.start_tick);
        let delta = b.start_tick - a.start_tick;
        assert(delta * a.us_per_quarter >= 0) by (nonlinear_arith)
            requires
                delta >= 0,
                a.us_per_quarter >= 0,
        ;
        lemma_div_pos_is_pos(delta * a.us_per_quarter, map.ppq as int);
    }
}

/// Score time never runs backwards: a later tick is reached no earlier.
pub proof fn lemma_tick_to_micros_monotone(map: TempoMapView, t1: Tick, t2: Tick)
    requires
        map.wf(),
        t1 <= t2,
    ensures
        map.tick_to_micros(t1) <= map.tick_to_micros(t2),
{
    let starts = map.start_ticks();
    let i1 = last_at_or_before(starts, t1 as int);
    let i2 = last_at_or_before(starts, t2 as int);
    lemma_last_at_or_before(starts, t1 as int);
    lemma_last_at_or_before(starts, t2 as int);
    lemma_last_at_or_before_monotone(starts, t1 as int, t2 as int);
    let s1 = map.segments[i1];
    let s2 = map.segments[i2];
    let p = map.ppq as int;
    if i1 == i2 {
        assert((t1 - s1.start_tick) * s1.us_per_quarter <= (t2 - s1.start_tick)
            * s1.us_per_quarter) by (nonlinear_arith)
            requires
                t1 <= t2,
                s1.us_per_quarter >= 0,
        ;
        lemma_trunc_div_monotone(
            (t1 - s1.start_tick) * s1.us_per_quarter,
            (t2 - s1.start_tick) * s1.us_per_quarter,
            p,
        );
    } else {
        let next = map.segments[i1 + 1];
        assert(starts[i1 + 1] > t1);
        assert(starts[i2] <= t2);
        // The first tick comes before the end of its segment.
        assert((t1 - s1.start_tick) * s1.us_per_quarter <= (next.start_tick - s1.start_tick)
            * s1.us_per_quarter) by (nonlinear_arith)
            requires
                t1 <= next.start_tick,
                s1.us_per_quarter >= 0,
        ;
        lemma_trunc_div_monotone(
            (t1 - s1.start_tick) * s1.us_per_quarter,
            (next.start_tick - s1.start_tick) * s1.us_per_quarter,
            p,
        );
        assert(next.start_us == map.next_start_us(i1));
        assert(map.tick_to_micros(t1) <= next.start_us);
        lemma_start_micros_ordered(map, i1 + 1, i2);
        // The second tick comes behind the start of its segment.
        assert((t2 - s2.start_tick) * s2.us_per_quarter >= 0) by (nonlinear_arith)
            requires
                t2 >= s2.start_tick,
                s2.us_per_quarter >= 0,
        ;
        lemma_div_pos_is_pos((t2 - s2.start_tick) * s2.us_per_quarter, p);
        assert(map.tick_to_micros(t2) >= s2.start_us);
    }
}

/// A later tick falls on no earlier a sample.
pub proof fn lemma_tick_to_sample_monotone(tr: TransportView, t1: Tick, t2: Tick)
    requires
        tr.wf(),
        t1 <= t2,
    ensures
        tr.tick_to_sample_relative(t1) <= tr.tick_to_sample_relative(t2),
        tr.tick_to_sample(t1) <= tr.tick_to_sample(t2),
{
    lemma_tick_to_micros_monotone(tr.tempo_map, t1, t2);
    let m1 = tr.tempo_map.tick_to_micros(t1) as int;
    let m2 = tr.tempo_map.tick_to_micros(t2) as int;
    let mult = tr.multiplier_ppm as int;
    lemma_round_div_monotone(m1 * 1_000_000, m2 * 1_000_000, mult);
    let first = scale_down(m1, mult) as int;
    let second = scale_down(m2, mult) as int;
    assert(first <= second);
    let r = tr.sample_rate_hz as int;
    if first > 0 {
        assert(first * r <= second * r) by (nonlinear_arith)
            requires
                first <= second,
                r >= 0,
        ;
        lemma_round_div_monotone(first * r, second * r, 1_000_000);
    }
}

/// Under a single tempo from tick 0 on, a tick that is not negative is
/// reached after `tick * us_per_quarter / ppq` microseconds, the quotient
/// cut off; and the tick of that time is the tick itself or the one before
/// it. This holds where a tick lasts a microsecond at least and the time
/// fits in 64 bits.
pub proof fn lemma_constant_tempo_round_trip(map: TempoMapView, tick: Tick)
    requires
        map.wf(),
        map.segments.len() == 1,
        map.segments[0].start_tick == 0,
        0 <= tick,
        map.ppq <= map.segments[0].us_per_quarter,
        tick * map.segments[0].us_per_quarter <= i64::MAX * map.ppq,
    ensures
        map.tick_to_micros(tick) == (tick * map.segments[0].us_per_quarter) / (map.ppq as int),
        tick - 1 <= map.micros_to_tick(map.tick_to_micros(tick)) <= tick,
{
    let seg = map.segments[0];
    let p = map.ppq as int;
    let q = seg.us_per_quarter as int;
    let t = tick as int;
    assert(last_at_or_before(map.start_ticks(), t) == 0);
    assert(map.segment_for_tick(tick) == seg);
    assert(t * q >= 0) by (nonlinear_arith)
        requires
            t >= 0,
            q >= 0,
    ;
    let m = (t * q) / p;
    lemma_div_bounds(t * q, p);
    assert(m <= i64::MAX) by (nonlinear_arith)
        requires
            p * m <= t * q,
            t * q <= i64::MAX * p,
            p >= 1,
    ;
    assert(map.tick_to_micros(tick) == m);
    assert(last_at_or_before(map.start_micros(), m) == 0);
    assert(map.segment_for_micros(m as i64) == seg);
    assert(m * p >= 0) by (nonlinear_arith)
        requires
            m >= 0,
            p >= 0,
    ;
    let back = (m * p) / q;
    lemma_div_bounds(m * p, q);
    assert(back <= t) by (nonlinear_arith)
        requires
            q * back <= m * p,
            p * m <= t * q,
            q >= 1,
    ;
    assert(back >= t - 1) by (nonlinear_arith)
        requires
            m * p < q * back + q,
            t * q < p * m + p,
            p <= q,
            q >= 1,
    ;
    assert(map.micros_to_tick(m as i64) == back);
}

} // verus!
