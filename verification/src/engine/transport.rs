use crate::engine::timebase::{
    clamp_i64, micros_from_samples, micros_to_samples, micros_to_ticks,
    samples_from_micros, samples_to_micros, scale_down, scale_up, scaled_down, scaled_up,
    ticks_to_micros, ticks_to_us, to_i64_saturating, us_to_ticks, MIN_MULTIPLIER_PPM,
    UNIT_MULTIPLIER_PPM,
};
use crate::ports::playback::LoopRange;
use crate::ports::types::{SampleTime, Tick};
use crate::score::model::{TempoPoint, DEFAULT_US_PER_QUARTER};
use crate::sorting::{is_stable_sort_of, sorted_by, stable_sort, Key, KeyOrder};
use vstd::prelude::*;

verus! {

#[derive(Clone, Copy, Debug, PartialEq, Eq, Structural)]
pub enum TransportState {
    Stopped,
    Playing,
    Paused,
}

/// A stretch of constant tempo: from `start_tick`, which is reached
/// `start_us` microseconds into the score, a quarter note lasts
/// `us_per_quarter` microseconds.
#[derive(Clone, Copy, Debug, PartialEq, Eq, Structural)]
pub struct TempoSegment {
    pub start_tick: Tick,
    pub start_us: i64,
    pub us_per_quarter: u32,
}

/// Orders tempo points by their tick.
pub struct TempoPointByTick;

impl KeyOrder<TempoPoint> for TempoPointByTick {
    open spec fn key(t: TempoPoint) -> Key {
        (t.tick as int, 0, 0)
    }

    fn le(a: &TempoPoint, b: &TempoPoint) -> (r: bool) {
        a.tick <= b.tick
    }
}

/// The points a tempo map is built from: `points`, behind a default point
/// at tick 0 unless `points` already starts at tick 0.
pub open spec fn with_origin(points: Seq<TempoPoint>) -> Seq<TempoPoint> {
    if points.len() == 0 || points[0].tick != 0 {
        seq![(TempoPoint { tick: 0, us_per_quarter: DEFAULT_US_PER_QUARTER })] + points
    } else {
        points
    }
}

/// Index of the last entry of `starts` that is at or before `x`; 0 where
/// there is none.
pub open spec fn last_at_or_before(starts: Seq<int>, x: int) -> int
    decreases starts.len(),
{
    if starts.len() <= 1 {
        0
    } else if starts.last() <= x {
        starts.len() - 1
    } else {
        last_at_or_before(starts.drop_last(), x)
    }
}

/// The tempo map as a mathematical value.
pub struct TempoMapView {
    pub ppq: u16,
    pub segments: Seq<TempoSegment>,
}

impl TempoMapView {
    pub open spec fn start_ticks(self) -> Seq<int> {
        Seq::new(self.segments.len(), |i: int| self.segments[i].start_tick as int)
    }

    pub open spec fn start_micros(self) -> Seq<int> {
        Seq::new(self.segments.len(), |i: int| self.segments[i].start_us as int)
    }

    /// The tempo points behind the segments.
    pub open spec fn points(self) -> Seq<TempoPoint> {
        Seq::new(
            self.segments.len(),
            |i: int|
                TempoPoint {
                    tick: self.segments[i].start_tick,
                    us_per_quarter: self.segments[i].us_per_quarter,
                },
        )
    }

    /// Where segment `i + 1` starts in time, given where segment `i` does.
    pub open spec fn next_start_us(self, i: int) -> i64 {
        clamp_i64(
            self.segments[i].start_us + ticks_to_us(
                self.segments[i + 1].start_tick - self.segments[i].start_tick,
                self.segments[i].us_per_quarter as int,
                self.ppq as int,
            ),
        )
    }

    /// There is a segment, segments are ordered by tick, time starts at
    /// zero and runs on from one segment to the next, and no tempo is zero.
    pub open spec fn wf(self) -> bool {
        &&& self.ppq > 0
        &&& self.segments.len() > 0
        &&& self.segments[0].start_us == 0
        &&& forall|i: int|
            0 <= i < self.segments.len() ==> (#[trigger] self.segments[i]).us_per_quarter > 0
        &&& forall|i: int, j: int|
            0 <= i <= j < self.segments.len() ==> (#[trigger] self.segments[i]).start_tick <= (
            #[trigger] self.segments[j]).start_tick
        &&& forall|i: int|
            0 <= i < self.segments.len() - 1 ==> (#[trigger] self.segments[i + 1]).start_us
                == self.next_start_us(i)
    }

    /// The segment that governs `tick`.
    pub open spec fn segment_for_tick(self, tick: Tick) -> TempoSegment {
        self.segments[last_at_or_before(self.start_ticks(), tick as int)]
    }

    /// The segment that governs the time `micros`.
    pub open spec fn segment_for_micros(self, micros: i64) -> TempoSegment {
        self.segments[last_at_or_before(self.start_micros(), micros as int)]
    }

    pub open spec fn tick_to_micros(self, tick: Tick) -> i64 {
        let seg = self.segment_for_tick(tick);
        clamp_i64(
            seg.start_us + ticks_to_us(
                tick - seg.start_tick,
                seg.us_per_quarter as int,
                self.ppq as int,
            ),
        )
    }

    pub open spec fn micros_to_tick(self, micros: i64) -> Tick {
        let seg = self.segment_for_micros(micros);
        clamp_i64(
            seg.start_tick + us_to_ticks(
                micros - seg.start_us,
                seg.us_per_quarter as int,
                self.ppq as int,
            ),
        )
    }
}

/// Piecewise-constant tempo: converts between ticks and microseconds of
/// score time.
#[derive(Clone, Debug)]
pub struct TempoMap {
    ppq: u16,
    segments: Vec<TempoSegment>,
}

impl TempoMap {
    pub closed spec fn view(&self) -> TempoMapView {
        TempoMapView { ppq: self.ppq, segments: self.segments@ }
    }

    pub open spec fn wf(&self) -> bool {
        self@.wf()
    }

    /// Builds the map of `points`: a default point is put in front unless
    /// the first point is at tick 0, the points are sorted by tick, points
    /// of one tick staying in their order, and each segment starts in time
    /// where the one before it ends.
    pub fn new(ppq: u16, points: Vec<TempoPoint>) -> (map: TempoMap)
        requires
            ppq > 0,
            forall|i: int| 0 <= i < points@.len() ==> (#[trigger] points@[i]).us_per_quarter > 0,
        ensures
            map.wf(),
            map@.ppq == ppq,
            is_stable_sort_of::<TempoPoint, TempoPointByTick>(map@.points(), with_origin(points@)),
    {
        let ghost given = points@;
        let mut points = points;
        if points.len() == 0 || points[0].tick != 0 {
            points.insert(0, TempoPoint { tick: 0, us_per_quarter: DEFAULT_US_PER_QUARTER });
        }
        let ghost unsorted = points@;
        assert(unsorted =~= with_origin(given));
        stable_sort::<TempoPoint, TempoPointByTick>(&mut points);
        proof {
            assert forall|i: int| 0 <= i < points@.len() implies (
            #[trigger] points@[i]).us_per_quarter > 0 by {
                points@.to_multiset_ensures();
                unsorted.to_multiset_ensures();
                assert(points@.to_multiset().count(points@[i]) > 0);
                assert(unsorted.contains(points@[i]));
            }
            assert(points@.to_multiset().count(unsorted[0]) > 0) by {
                unsorted.to_multiset_ensures();
            }
        }
        let n = points.len();
        let mut segments: Vec<TempoSegment> = Vec::new();
        let mut current_us: i64 = 0;
        let mut idx: usize = 0;
        while idx < n
            invariant
                ppq > 0,
                n == points@.len(),
                n > 0,
                idx <= n,
                segments@.len() == idx,
                forall|i: int| 0 <= i < n ==> (#[trigger] points@[i]).us_per_quarter > 0,
                sorted_by::<TempoPoint, TempoPointByTick>(points@),
                forall|i: int|
                    0 <= i < idx ==> (#[trigger] segments@[i]).start_tick == points@[i].tick
                        && segments@[i].us_per_quarter == points@[i].us_per_quarter,
                idx > 0 ==> segments@[0].start_us == 0,
                idx > 0 ==> current_us == segments@[idx - 1].start_us,
                idx == 0 ==> current_us == 0,
                forall|i: int|
                    0 <= i < idx - 1 ==> (#[trigger] segments@[i + 1]).start_us == (TempoMapView {
                        ppq,
                        segments: segments@,
                    }).next_start_us(i),
            decreases n - idx,
        {
            let point = points[idx];
            if idx > 0 {
                let prev = points[idx - 1];
                let delta: i128 = point.tick as i128 - prev.tick as i128;
                let span: i128 = ticks_to_micros(delta, prev.us_per_quarter, ppq);
                proof {
                    assert(-0x1_0000_0000_0000_0000 * 0x1_0000_0000 <= delta * prev.us_per_quarter
                        <= 0x1_0000_0000_0000_0000 * 0x1_0000_0000) by (nonlinear_arith)
                        requires
                            -0x1_0000_0000_0000_0000 <= delta <= 0x1_0000_0000_0000_0000,
                            0 <= prev.us_per_quarter < 0x1_0000_0000,
                    ;
                    lemma_trunc_div_bound(delta * prev.us_per_quarter, ppq as int);
                }
                current_us = to_i64_saturating(current_us as i128 + span);
            }
            let ghost before = segments@;
            segments.push(
                TempoSegment {
                    start_tick: point.tick,
                    start_us: current_us,
                    us_per_quarter: point.us_per_quarter,
                },
            );
            proof {
                assert forall|i: int| 0 <= i < idx + 1 - 1 implies (
                #[trigger] segments@[i + 1]).start_us == (TempoMapView {
                    ppq,
                    segments: segments@,
                }).next_start_us(i) by {
                    if i < idx - 1 {
                        assert(before[i + 1].start_us == (TempoMapView {
                            ppq,
                            segments: before,
                        }).next_start_us(i));
                        assert(segments@[i] == before[i]);
                        assert(segments@[i + 1] == before[i + 1]);
                    }
                }
            }
            idx = idx + 1;
        }
        let map = TempoMap { ppq, segments };
        proof {
            assert(map@.points() =~= points@);
            assert forall|i: int, j: int| 0 <= i <= j < map@.segments.len() implies (
            #[trigger] map@.segments[i]).start_tick <= (#[trigger] map@.segments[j]).start_tick by {
                if i < j {
                    assert(crate::sorting::lex_le(
                        TempoPointByTick::key(points@[i]),
                        TempoPointByTick::key(points@[j]),
                    ));
                    assert(TempoPointByTick::key(points@[i]).0 <= TempoPointByTick::key(
                        points@[j],
                    ).0);
                }
            }
        }
        map
    }

    /// Microseconds of score time at which `tick` is reached.
    pub fn tick_to_micros(&self, tick: Tick) -> (micros: i64)
        requires
            self.wf(),
        ensures
            micros == self@.tick_to_micros(tick),
    {
        let seg = self.segment_for_tick(tick);
        let delta: i128 = tick as i128 - seg.start_tick as i128;
        let span: i128 = ticks_to_micros(delta, seg.us_per_quarter, self.ppq);
        proof {
            assert(-0x1_0000_0000_0000_0000 * 0x1_0000_0000 <= delta * seg.us_per_quarter
                <= 0x1_0000_0000_0000_0000 * 0x1_0000_0000) by (nonlinear_arith)
                requires
                    -0x1_0000_0000_0000_0000 <= delta <= 0x1_0000_0000_0000_0000,
                    0 <= seg.us_per_quarter < 0x1_0000_0000,
            ;
            lemma_trunc_div_bound(delta * seg.us_per_quarter, self.ppq as int);
        }
        to_i64_saturating(seg.start_us as i128 + span)
    }

    /// The tick that is reached at `micros` microseconds of score time.
    pub fn micros_to_tick(&self, micros: i64) -> (tick: Tick)
        requires
            self.wf(),
        ensures
            tick == self@.micros_to_tick(micros),
    {
        let seg = self.segment_for_micros(micros);
        let delta: i128 = micros as i128 - seg.start_us as i128;
        let span: i128 = micros_to_ticks(delta, seg.us_per_quarter, self.ppq);
        proof {
            assert(-0x1_0000_0000_0000_0000 * 0x1_0000 <= delta * self.ppq
                <= 0x1_0000_0000_0000_0000 * 0x1_0000) by (nonlinear_arith)
                requires
                    -0x1_0000_0000_0000_0000 <= delta <= 0x1_0000_0000_0000_0000,
                    0 <= self.ppq < 0x1_0000,
            ;
            lemma_trunc_div_bound(delta * self.ppq, seg.us_per_quarter as int);
        }
        to_i64_saturating(seg.start_tick as i128 + span)
    }

    /// Microseconds to the quarter note in force at `tick`.
    pub fn us_per_quarter_at(&self, tick: Tick) -> (us_per_quarter: u32)
        requires
            self.wf(),
        ensures
            us_per_quarter == self@.segment_for_tick(tick).us_per_quarter,
            us_per_quarter > 0,
    {
        self.segment_for_tick(tick).us_per_quarter
    }

    fn segment_for_tick(&self, tick: Tick) -> (seg: TempoSegment)
        requires
            self.wf(),
        ensures
            seg == self@.segment_for_tick(tick),
            seg.us_per_quarter > 0,
    {
        let mut i: usize = self.segments.len() - 1;
        proof {
            let starts = self@.start_ticks();
            assert(starts.subrange(0, i + 1) =~= starts);
        }
        while i > 0 && self.segments[i].start_tick > tick
            invariant
                i < self.segments@.len(),
                last_at_or_before(self@.start_ticks(), tick as int) == last_at_or_before(
                    self@.start_ticks().subrange(0, i + 1),
                    tick as int,
                ),
            decreases i,
        {
            proof {
                let starts = self@.start_ticks().subrange(0, i + 1);
                assert(starts.drop_last() =~= self@.start_ticks().subrange(0, i as int));
            }
            i = i - 1;
        }
        proof {
            let starts = self@.start_ticks().subrange(0, i + 1);
            assert(starts.len() == i + 1);
            assert(starts.last() == self.segments@[i as int].start_tick);
        }
        self.segments[i]
    }

    fn segment_for_micros(&self, micros: i64) -> (seg: TempoSegment)
        requires
            self.wf(),
        ensures
            seg == self@.segment_for_micros(micros),
            seg.us_per_quarter > 0,
    {
        let mut i: usize = self.segments.len() - 1;
        proof {
            let starts = self@.start_micros();
            assert(starts.subrange(0, i + 1) =~= starts);
        }
        while i > 0 && self.segments[i].start_us > micros
            invariant
                i < self.segments@.len(),
                last_at_or_before(self@.start_micros(), micros as int) == last_at_or_before(
                    self@.start_micros().subrange(0, i + 1),
                    micros as int,
                ),
            decreases i,
        {
            proof {
                let starts = self@.start_micros().subrange(0, i + 1);
                assert(starts.drop_last() =~= self@.start_micros().subrange(0, i as int));
            }
            i = i - 1;
        }
        proof {
            let starts = self@.start_micros().subrange(0, i + 1);
            assert(starts.len() == i + 1);
            assert(starts.last() == self.segments@[i as int].start_us);
        }
        self.segments[i]
    }
}

/// Saturating difference of two sample times.
pub open spec fn sat_sub_u64(a: u64, b: u64) -> u64 {
    if a >= b {
        (a - b) as u64
    } else {
        0
    }
}

/// Saturating sum of two sample times.
pub open spec fn sat_add_u64(a: u64, b: u64) -> u64 {
    if a + b > u64::MAX {
        u64::MAX
    } else {
        (a + b) as u64
    }
}

/// The transport as a mathematical value.
pub struct TransportView {
    pub state: TransportState,
    pub ppq: u16,
    pub sample_rate_hz: u32,
    /// The sample at which tick 0 falls.
    pub origin_sample: SampleTime,
    pub tempo_map: TempoMapView,
    /// Playback speed relative to the written tempo, in parts per million.
    pub multiplier_ppm: u32,
    pub position_tick: Tick,
    pub position_sample: SampleTime,
    pub loop_range: Option<LoopRange>,
}

impl TransportView {
    pub open spec fn wf(self) -> bool {
        &&& self.tempo_map.wf()
        &&& self.tempo_map.ppq == self.ppq
        &&& self.multiplier_ppm >= MIN_MULTIPLIER_PPM
    }

    /// Played time, in microseconds, from tick 0 to `tick`.
    pub open spec fn tick_to_micros_scaled(self, tick: Tick) -> i64 {
        scale_down(self.tempo_map.tick_to_micros(tick) as int, self.multiplier_ppm as int)
    }

    /// Samples from tick 0 to `tick`.
    pub open spec fn tick_to_sample_relative(self, tick: Tick) -> SampleTime {
        micros_to_samples(self.tick_to_micros_scaled(tick) as int, self.sample_rate_hz as int)
    }

    pub open spec fn tick_to_sample(self, tick: Tick) -> SampleTime {
        sat_add_u64(self.origin_sample, self.tick_to_sample_relative(tick))
    }

    pub open spec fn sample_to_tick(self, sample: SampleTime) -> Tick {
        let relative = sat_sub_u64(sample, self.origin_sample);
        let micros = samples_to_micros(relative as int, self.sample_rate_hz as int);
        self.tempo_map.micros_to_tick(scale_up(micros as int, self.multiplier_ppm as int))
    }

    pub open spec fn ms_to_ticks(self, ms: i32) -> Tick {
        clamp_i64(
            us_to_ticks(
                ms * 1000,
                self.tempo_map.segment_for_tick(self.position_tick).us_per_quarter as int,
                self.ppq as int,
            ),
        )
    }

    pub open spec fn with_state(self, state: TransportState) -> TransportView {
        TransportView { state, ..self }
    }

    pub open spec fn seek(self, tick: Tick) -> TransportView {
        TransportView { position_tick: tick, position_sample: self.tick_to_sample(tick), ..self }
    }

    /// Where `stop` returns to: the start of the loop, or of the score.
    pub open spec fn rest_tick(self) -> Tick {
        match self.loop_range {
            Some(range) => range.start_tick,
            None => 0,
        }
    }

    pub open spec fn stop(self) -> TransportView {
        self.with_state(TransportState::Stopped).seek(self.rest_tick())
    }

    /// The origin under which the current tick falls on the current sample.
    pub open spec fn recalculate_origin(self) -> TransportView {
        TransportView {
            origin_sample: sat_sub_u64(
                self.position_sample,
                self.tick_to_sample_relative(self.position_tick),
            ),
            ..self
        }
    }

    pub open spec fn align_to_sample_time(self, sample_time: SampleTime) -> TransportView {
        TransportView {
            origin_sample: sat_sub_u64(
                sample_time,
                self.tick_to_sample_relative(self.position_tick),
            ),
            position_sample: sample_time,
            ..self
        }
    }

    pub open spec fn set_origin_sample(self, origin_sample: SampleTime) -> TransportView {
        let moved = TransportView { origin_sample, ..self };
        TransportView { position_sample: moved.tick_to_sample(self.position_tick), ..moved }
    }

    pub open spec fn set_tempo_multiplier(self, multiplier_ppm: u32) -> TransportView {
        (TransportView {
            multiplier_ppm: if multiplier_ppm < MIN_MULTIPLIER_PPM {
                MIN_MULTIPLIER_PPM
            } else {
                multiplier_ppm
            },
            ..self
        }).recalculate_origin()
    }

    pub open spec fn set_sample_rate(self, sample_rate_hz: u32) -> TransportView {
        (TransportView { sample_rate_hz, ..self }).recalculate_origin()
    }

    pub open spec fn with_tempo_map(self, tempo_map: TempoMapView) -> TransportView {
        (TransportView { tempo_map, ..self }).recalculate_origin()
    }

    pub open spec fn sync_to_sample_time(self, sample_time: SampleTime) -> TransportView {
        TransportView {
            position_sample: sample_time,
            position_tick: self.sample_to_tick(sample_time),
            ..self
        }
    }

    pub open spec fn advance_by_samples(self, frames: u32) -> TransportView {
        if self.state != TransportState::Playing {
            self
        } else {
            let moved = self.sync_to_sample_time(sat_add_u64(self.position_sample, frames as u64));
            match self.loop_range {
                Some(range) => if moved.position_tick >= range.end_tick {
                    moved.seek(range.start_tick)
                } else {
                    moved
                },
                None => moved,
            }
        }
    }
}

/// Musical position bound to the audio clock: converts between ticks and
/// sample times under a tempo map, a tempo multiplier and an origin.
#[derive(Clone, Debug)]
pub struct Transport {
    state: TransportState,
    ppq: u16,
    sample_rate_hz: u32,
    origin_sample: SampleTime,
    tempo_map: TempoMap,
    tempo_multiplier_ppm: u32,
    position_tick: Tick,
    position_sample: SampleTime,
    loop_range: Option<LoopRange>,
}

impl Transport {
    pub closed spec fn view(&self) -> TransportView {
        TransportView {
            state: self.state,
            ppq: self.ppq,
            sample_rate_hz: self.sample_rate_hz,
            origin_sample: self.origin_sample,
            tempo_map: self.tempo_map@,
            multiplier_ppm: self.tempo_multiplier_ppm,
            position_tick: self.position_tick,
            position_sample: self.position_sample,
            loop_range: self.loop_range,
        }
    }

    pub open spec fn wf(&self) -> bool {
        self@.wf()
    }

    /// A stopped transport at tick 0 and sample 0, at the written tempo.
    pub fn new(ppq: u16, sample_rate_hz: u32, tempo_points: Vec<TempoPoint>) -> (transport:
        Transport)
        requires
            ppq > 0,
            forall|i: int|
                0 <= i < tempo_points@.len() ==> (#[trigger] tempo_points@[i]).us_per_quarter > 0,
        ensures
            transport.wf(),
            is_stable_sort_of::<TempoPoint, TempoPointByTick>(
                transport@.tempo_map.points(),
                with_origin(tempo_points@),
            ),
            transport@ == (TransportView {
                state: TransportState::Stopped,
                ppq,
                sample_rate_hz,
                origin_sample: 0,
                tempo_map: transport@.tempo_map,
                multiplier_ppm: UNIT_MULTIPLIER_PPM,
                position_tick: 0,
                position_sample: 0,
                loop_range: None,
            }),
    {
        let tempo_map = TempoMap::new(ppq, tempo_points);
        Transport {
            state: TransportState::Stopped,
            ppq,
            sample_rate_hz,
            origin_sample: 0,
            tempo_map,
            tempo_multiplier_ppm: UNIT_MULTIPLIER_PPM,
            position_tick: 0,
            position_sample: 0,
            loop_range: None,
        }
    }

    pub fn state(&self) -> (state: TransportState)
        ensures
            state == self@.state,
    {
        self.state
    }

    pub fn play(&mut self)
        ensures
            old(self).wf() ==> final(self).wf(),
            final(self)@ == old(self)@.with_state(TransportState::Playing),
    {
        self.state = TransportState::Playing;
    }

    pub fn pause(&mut self)
        ensures
            old(self).wf() ==> final(self).wf(),
            final(self)@ == old(self)@.with_state(TransportState::Paused),
    {
        self.state = TransportState::Paused;
    }

    /// Stops and returns to the start of the loop, or to tick 0 without one.
    pub fn stop(&mut self)
        requires
            old(self).wf(),
        ensures
            final(self).wf(),
            final(self)@ == old(self)@.stop(),
    {
        self.state = TransportState::Stopped;
        let target_tick: Tick = match self.loop_range {
            Some(range) => range.start_tick,
            None => 0,
        };
        self.seek(target_tick);
    }

    /// Moves to `tick`, and to the sample on which it falls.
    pub fn seek(&mut self, tick: Tick)
        requires
            old(self).wf(),
        ensures
            final(self).wf(),
            final(self)@ == old(self)@.seek(tick),
    {
        self.position_tick = tick;
        self.position_sample = self.tick_to_sample(tick);
    }

    /// Binds the current tick to `sample_time`.
    pub fn align_to_sample_time(&mut self, sample_time: SampleTime)
        requires
            old(self).wf(),
        ensures
            final(self).wf(),
            final(self)@ == old(self)@.align_to_sample_time(sample_time),
    {
        let relative = self.tick_to_sample_relative(self.position_tick);
        self.origin_sample = sample_time.saturating_sub(relative);
        self.position_sample = sample_time;
    }

    pub fn set_origin_sample(&mut self, origin_sample: SampleTime)
        requires
            old(self).wf(),
        ensures
            final(self).wf(),
            final(self)@ == old(self)@.set_origin_sample(origin_sample),
    {
        self.origin_sample = origin_sample;
        self.position_sample = self.tick_to_sample(self.position_tick);
    }

    pub fn set_loop(&mut self, range: Option<LoopRange>)
        ensures
            old(self).wf() ==> final(self).wf(),
            final(self)@ == (TransportView { loop_range: range, ..old(self)@ }),
    {
        self.loop_range = range;
    }

    /// Sets the playback speed, in parts per million of the written tempo
    /// and no less than a tenth of it, keeping the current sample.
    pub fn set_tempo_multiplier(&mut self, multiplier_ppm: u32)
        requires
            old(self).wf(),
        ensures
            final(self).wf(),
            final(self)@ == old(self)@.set_tempo_multiplier(multiplier_ppm),
    {
        self.tempo_multiplier_ppm = if multiplier_ppm < MIN_MULTIPLIER_PPM {
            MIN_MULTIPLIER_PPM
        } else {
            multiplier_ppm
        };
        self.recalculate_origin();
    }

    /// Sets the sample rate, keeping the current sample.
    pub fn set_sample_rate(&mut self, sample_rate_hz: u32)
        requires
            old(self).wf(),
        ensures
            final(self).wf(),
            final(self)@ == old(self)@.set_sample_rate(sample_rate_hz),
    {
        self.sample_rate_hz = sample_rate_hz;
        self.recalculate_origin();
    }

    pub fn sample_rate_hz(&self) -> (hz: u32)
        ensures
            hz == self@.sample_rate_hz,
    {
        self.sample_rate_hz
    }

    /// Replaces the tempo map by the map of `points`, keeping the current
    /// sample.
    pub fn update_tempo_map(&mut self, points: Vec<TempoPoint>)
        requires
            old(self).wf(),
            forall|i: int| 0 <= i < points@.len() ==> (#[trigger] points@[i]).us_per_quarter > 0,
        ensures
            final(self).wf(),
            final(self)@.tempo_map.wf(),
            final(self)@.tempo_map.ppq == old(self)@.ppq,
            is_stable_sort_of::<TempoPoint, TempoPointByTick>(
                final(self)@.tempo_map.points(),
                with_origin(points@),
            ),
            final(self)@ == old(self)@.with_tempo_map(final(self)@.tempo_map),
    {
        self.tempo_map = TempoMap::new(self.ppq, points);
        self.recalculate_origin();
    }

    /// Moves on by `frames` samples while playing, and back to the start of
    /// the loop once its end is reached.
    pub fn advance_by_samples(&mut self, frames: u32)
        requires
            old(self).wf(),
        ensures
            final(self).wf(),
            final(self)@ == old(self)@.advance_by_samples(frames),
    {
        match self.state {
            TransportState::Playing => {},
            _ => {
                return ;
            },
        }
        self.position_sample = self.position_sample.saturating_add(frames as u64);
        self.position_tick = self.sample_to_tick(self.position_sample);
        match self.loop_range {
            Some(range) => {
                if self.position_tick >= range.end_tick {
                    self.seek(range.start_tick);
                }
            },
            None => {},
        }
    }

    pub fn now_tick(&self) -> (tick: Tick)
        ensures
            tick == self@.position_tick,
    {
        self.position_tick
    }

    pub fn now_sample(&self) -> (sample: SampleTime)
        ensures
            sample == self@.position_sample,
    {
        self.position_sample
    }

    /// The playback speed in parts per million of the written tempo.
    pub fn tempo_multiplier(&self) -> (multiplier_ppm: u32)
        ensures
            multiplier_ppm == self@.multiplier_ppm,
    {
        self.tempo_multiplier_ppm
    }

    /// Takes `sample_time` as the current sample, and its tick as the
    /// current tick.
    pub fn sync_to_sample_time(&mut self, sample_time: SampleTime)
        requires
            old(self).wf(),
        ensures
            final(self).wf(),
            final(self)@ == old(self)@.sync_to_sample_time(sample_time),
    {
        self.position_sample = sample_time;
        self.position_tick = self.sample_to_tick(sample_time);
    }

    /// Ticks that pass in `ms` milliseconds at the tempo of the current
    /// tick.
    pub fn ms_to_ticks(&self, ms: i32) -> (ticks: Tick)
        requires
            self.wf(),
        ensures
            ticks == self@.ms_to_ticks(ms),
    {
        let us: i128 = ms as i128 * 1000;
        let us_per_quarter = self.tempo_map.us_per_quarter_at(self.position_tick);
        to_i64_saturating(micros_to_ticks(us, us_per_quarter, self.ppq))
    }

    pub fn tick_to_sample(&self, tick: Tick) -> (sample: SampleTime)
        requires
            self.wf(),
        ensures
            sample == self@.tick_to_sample(tick),
    {
        let relative = self.tick_to_sample_relative(tick);
        self.origin_sample.saturating_add(relative)
    }

    pub fn sample_to_tick(&self, sample: SampleTime) -> (tick: Tick)
        requires
            self.wf(),
        ensures
            tick == self@.sample_to_tick(sample),
    {
        let relative_sample = sample.saturating_sub(self.origin_sample);
        let micros = micros_from_samples(relative_sample, self.sample_rate_hz);
        let scaled = scaled_up(micros, self.tempo_multiplier_ppm);
        self.tempo_map.micros_to_tick(scaled)
    }

    fn tick_to_micros_scaled(&self, tick: Tick) -> (micros: i64)
        requires
            self.wf(),
        ensures
            micros == self@.tick_to_micros_scaled(tick),
    {
        let base = self.tempo_map.tick_to_micros(tick);
        scaled_down(base, self.tempo_multiplier_ppm)
    }

    fn tick_to_sample_relative(&self, tick: Tick) -> (sample: SampleTime)
        requires
            self.wf(),
        ensures
            sample == self@.tick_to_sample_relative(tick),
    {
        let micros = self.tick_to_micros_scaled(tick);
        samples_from_micros(micros, self.sample_rate_hz)
    }

    fn recalculate_origin(&mut self)
        requires
            old(self).wf(),
        ensures
            final(self).wf(),
            final(self)@ == old(self)@.recalculate_origin(),
    {
        let current_sample = self.position_sample;
        let relative = self.tick_to_sample_relative(self.position_tick);
        self.origin_sample = current_sample.saturating_sub(relative);
    }
}

/// A truncated quotient is no larger in size than what was divided.
pub proof fn lemma_trunc_div_bound(n: int, d: int)
    requires
        d > 0,
    ensures
        n >= 0 ==> 0 <= crate::engine::timebase::trunc_div(n, d) <= n,
        n <= 0 ==> n <= crate::engine::timebase::trunc_div(n, d) <= 0,
{
    if n >= 0 {
        assert(0 <= n / d <= n) by (nonlinear_arith)
            requires
                n >= 0,
                d > 0,
        ;
    } else {
        assert(0 <= (-n) / d <= -n) by (nonlinear_arith)
            requires
                -n >= 0,
                d > 0,
        ;
    }
}

} // verus!
