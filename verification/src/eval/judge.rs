use crate::ports::types::Tick;
use crate::score::model::TargetEvent;
use std::collections::{HashMap, HashSet};
use vstd::prelude::*;

verus! {

broadcast use vstd::std_specs::hash::group_hash_axioms;

#[derive(Clone, Copy, Debug)]
pub struct TimingWindowTicks {
    pub perfect: i64,
    pub good: i64,
}

#[derive(Clone, Copy, Debug)]
pub struct ChordRollTicks(pub i64);

#[derive(Clone, Copy, Debug, PartialEq, Eq, Structural)]
pub enum WrongNotePolicy {
    RecordOnly,
    DegradePerfect,
}

#[derive(Clone, Copy, Debug, PartialEq, Eq, Structural)]
pub enum AdvanceMode {
    OnResolve,
    Aggressive,
}

#[derive(Clone, Copy, Debug)]
pub struct JudgeConfig {
    pub window: TimingWindowTicks,
    pub chord_roll: ChordRollTicks,
    pub wrong_note_policy: WrongNotePolicy,
    pub advance: AdvanceMode,
}

impl JudgeConfig {
    /// The windows are ordered: a perfect hit is also a good one.
    pub open spec fn windows_ordered(self) -> bool {
        0 <= self.window.perfect <= self.window.good
    }
}

#[derive(Clone, Copy, Debug, PartialEq, Eq, Structural)]
pub enum Grade {
    Perfect,
    Good,
    Miss,
}

#[derive(Clone, Copy, Debug, PartialEq, Eq, Structural)]
pub enum MissReason {
    Timeout,
    Skipped,
}

#[derive(Clone, Debug)]
pub enum JudgeEvent {
    FocusChanged { target_id: Option<u64> },
    Hit { target_id: u64, grade: Grade, delta_tick: i64, wrong_notes: u32 },
    Miss { target_id: u64, reason: MissReason, missing_notes: u32, wrong_notes: u32 },
    Stats { combo: u32, score: i64, hit: u32, miss: u32, wrong: u32 },
}

#[derive(Clone, Copy, Debug)]
pub struct PlayerNoteOn {
    pub tick: Tick,
    pub note: u8,
    pub velocity: u8,
}

/// Running totals. Every counter but `combo` only grows; each saturates at
/// the limit of its type.
#[derive(Clone, Copy, Debug)]
pub struct JudgeStats {
    pub combo: u32,
    pub score: i64,
    pub hit: u32,
    pub miss: u32,
    pub wrong: u32,
}

/// What has been played so far against the focused target.
pub struct FocusView {
    /// Expected pitches already played, each with the tick it was played at.
    pub matched: Map<u8, Tick>,
    pub wrong_notes: u32,
    /// Tick of the first recorded match.
    pub first_match_tick: Option<Tick>,
}

/// The judge as a mathematical value.
pub struct JudgeView {
    pub cfg: JudgeConfig,
    pub targets: Seq<TargetEvent>,
    /// Index of the focused target; `targets.len()` once all are resolved.
    pub idx: int,
    /// Present exactly while a target is focused.
    pub focus: Option<FocusView>,
    pub stats: JudgeStats,
}

/// Points awarded for a perfect hit.
pub const SCORE_PERFECT: i64 = 100;

/// Points awarded for a good hit.
pub const SCORE_GOOD: i64 = 70;

pub open spec fn expected_notes(t: TargetEvent) -> Set<u8> {
    t.notes@.to_set()
}

pub open spec fn fresh_focus() -> FocusView {
    FocusView { matched: Map::empty(), wrong_notes: 0, first_match_tick: None }
}

/// The focus state on arriving at index `idx`.
pub open spec fn focus_at(targets: Seq<TargetEvent>, idx: int) -> Option<FocusView> {
    if 0 <= idx < targets.len() {
        Some(fresh_focus())
    } else {
        None
    }
}

/// Identifier of the target at `idx`, if there is one.
pub open spec fn focus_id(targets: Seq<TargetEvent>, idx: int) -> Option<u64> {
    if 0 <= idx < targets.len() {
        Some(targets[idx].id)
    } else {
        None
    }
}

pub open spec fn sat_add_u32(a: u32, b: u32) -> u32 {
    if a + b > u32::MAX {
        u32::MAX
    } else {
        (a + b) as u32
    }
}

pub open spec fn clamp_i64(x: int) -> i64 {
    if x > i64::MAX {
        i64::MAX
    } else if x < i64::MIN {
        i64::MIN
    } else {
        x as i64
    }
}

pub open spec fn abs_int(x: int) -> int {
    if x < 0 {
        -x
    } else {
        x
    }
}

/// The target's good window has closed before `now`.
pub open spec fn timed_out(cfg: JudgeConfig, t: TargetEvent, now: Tick) -> bool {
    now > t.tick + cfg.window.good
}

pub open spec fn grade_points(grade: Grade) -> int {
    match grade {
        Grade::Perfect => SCORE_PERFECT as int,
        Grade::Good => SCORE_GOOD as int,
        Grade::Miss => 0,
    }
}

pub open spec fn stats_after_hit(s: JudgeStats, grade: Grade, wrong_notes: u32) -> JudgeStats {
    JudgeStats {
        combo: sat_add_u32(s.combo, 1),
        score: clamp_i64(s.score + grade_points(grade)),
        hit: sat_add_u32(s.hit, 1),
        miss: s.miss,
        wrong: sat_add_u32(s.wrong, wrong_notes),
    }
}

pub open spec fn stats_after_miss(s: JudgeStats, wrong_notes: u32) -> JudgeStats {
    JudgeStats {
        combo: 0,
        score: s.score,
        hit: s.hit,
        miss: sat_add_u32(s.miss, 1),
        wrong: sat_add_u32(s.wrong, wrong_notes),
    }
}

pub open spec fn stats_event(s: JudgeStats) -> JudgeEvent {
    JudgeEvent::Stats { combo: s.combo, score: s.score, hit: s.hit, miss: s.miss, wrong: s.wrong }
}

/// Expected pitches not yet played, capped at the limit of the counter.
pub open spec fn missing_notes(t: TargetEvent, f: FocusView) -> u32 {
    let missing = expected_notes(t).len() - f.matched.dom().len();
    if missing <= 0 {
        0
    } else if missing > u32::MAX {
        u32::MAX
    } else {
        missing as u32
    }
}

/// The miss reported for the focused target `t` when its window has closed.
pub open spec fn miss_event(t: TargetEvent, f: FocusView) -> JudgeEvent {
    JudgeEvent::Miss {
        target_id: t.id,
        reason: MissReason::Timeout,
        missing_notes: missing_notes(t, f),
        wrong_notes: f.wrong_notes,
    }
}

/// A note at `tick` falls inside the chord-roll tolerance of the first match.
pub open spec fn within_roll(cfg: JudgeConfig, f: FocusView, tick: Tick) -> bool {
    match f.first_match_tick {
        Some(first) => abs_int(tick - first) <= cfg.chord_roll.0,
        None => true,
    }
}

/// The focus state after the player's note `e`, for a note that is not too
/// early for the target `t`.
pub open spec fn note_step(cfg: JudgeConfig, t: TargetEvent, f: FocusView, e: PlayerNoteOn)
    -> FocusView {
    if e.tick > t.tick + cfg.window.good {
        f
    } else if expected_notes(t).contains(e.note) {
        if !f.matched.contains_key(e.note) && within_roll(cfg, f, e.tick) {
            FocusView {
                matched: f.matched.insert(e.note, e.tick),
                wrong_notes: f.wrong_notes,
                first_match_tick: if f.first_match_tick is None {
                    Some(e.tick)
                } else {
                    f.first_match_tick
                },
            }
        } else {
            f
        }
    } else {
        FocusView {
            matched: f.matched,
            wrong_notes: sat_add_u32(f.wrong_notes, 1),
            first_match_tick: f.first_match_tick,
        }
    }
}

/// Every expected pitch has been played, and there was at least one.
pub open spec fn resolved(t: TargetEvent, f: FocusView) -> bool {
    f.matched.dom().len() == expected_notes(t).len() && expected_notes(t).len() > 0
}

/// Signed distance of the first match from the target.
pub open spec fn hit_delta(t: TargetEvent, f: FocusView) -> int {
    match f.first_match_tick {
        Some(first) => first - t.tick,
        None => 0,
    }
}

/// Grade by timing alone.
pub open spec fn timing_grade(cfg: JudgeConfig, delta: int) -> Grade {
    if abs_int(delta) <= cfg.window.perfect {
        Grade::Perfect
    } else {
        Grade::Good
    }
}

/// Grade of a resolved target, after the wrong-note policy.
pub open spec fn hit_grade(cfg: JudgeConfig, delta: int, wrong_notes: u32) -> Grade {
    if cfg.wrong_note_policy == WrongNotePolicy::DegradePerfect && wrong_notes > 0 {
        Grade::Good
    } else {
        timing_grade(cfg, delta)
    }
}

pub open spec fn hit_event(cfg: JudgeConfig, t: TargetEvent, f: FocusView) -> JudgeEvent {
    JudgeEvent::Hit {
        target_id: t.id,
        grade: hit_grade(cfg, hit_delta(t, f), f.wrong_notes),
        delta_tick: clamp_i64(hit_delta(t, f)),
        wrong_notes: f.wrong_notes,
    }
}

impl JudgeView {
    pub open spec fn wf(self) -> bool {
        &&& 0 <= self.idx <= self.targets.len()
        &&& self.focus is Some <==> self.idx < self.targets.len()
        &&& self.focus matches Some(f) ==> f.matched.dom().finite()
    }

    pub open spec fn target(self) -> TargetEvent {
        self.targets[self.idx]
    }

    /// The judge with the focus moved to the next target and `stats` in place.
    pub open spec fn moved_on(self, stats: JudgeStats) -> JudgeView {
        JudgeView {
            cfg: self.cfg,
            targets: self.targets,
            idx: self.idx + 1,
            focus: focus_at(self.targets, self.idx + 1),
            stats,
        }
    }

    /// One timed-out target: the next state and the three events reported.
    pub open spec fn miss_one(self) -> (JudgeView, Seq<JudgeEvent>) {
        let f = self.focus.unwrap();
        let stats = stats_after_miss(self.stats, f.wrong_notes);
        (
            self.moved_on(stats),
            seq![
                miss_event(self.target(), f),
                stats_event(stats),
                (JudgeEvent::FocusChanged { target_id: focus_id(self.targets, self.idx + 1) }),
            ],
        )
    }

    /// Flushes every focused target whose window has closed before `now`.
    pub open spec fn advance_to(self, now: Tick) -> (JudgeView, Seq<JudgeEvent>)
        decreases self.targets.len() - self.idx,
    {
        if self.wf() && self.idx < self.targets.len() && timed_out(self.cfg, self.target(), now) {
            let (next, first) = self.miss_one();
            let (last, rest) = next.advance_to(now);
            (last, first + rest)
        } else {
            (self, Seq::empty())
        }
    }

    /// The state and the events after the player's note `e`.
    pub open spec fn on_note_on(self, e: PlayerNoteOn) -> (JudgeView, Seq<JudgeEvent>) {
        let (mid, flushed) = self.advance_to(e.tick);
        if !(mid.idx < mid.targets.len()) || mid.focus is None {
            (mid, flushed)
        } else if e.tick < mid.target().tick - mid.cfg.window.good {
            (mid, flushed)
        } else {
            let t = mid.target();
            let f = note_step(mid.cfg, t, mid.focus.unwrap(), e);
            if resolved(t, f) {
                let grade = hit_grade(mid.cfg, hit_delta(t, f), f.wrong_notes);
                let stats = stats_after_hit(mid.stats, grade, f.wrong_notes);
                (
                    mid.moved_on(stats),
                    flushed + seq![
                        hit_event(mid.cfg, t, f),
                        stats_event(stats),
                        (JudgeEvent::FocusChanged {
                            target_id: focus_id(mid.targets, mid.idx + 1),
                        }),
                    ],
                )
            } else {
                (
                    JudgeView {
                        cfg: mid.cfg,
                        targets: mid.targets,
                        idx: mid.idx,
                        focus: Some(f),
                        stats: mid.stats,
                    },
                    flushed,
                )
            }
        }
    }
}

/// Focus-based evaluator over an ordered list of targets.
pub struct Judge {
    cfg: JudgeConfig,
    targets: Vec<TargetEvent>,
    idx: usize,
    expected: HashSet<u8>,
    matched: HashMap<u8, Tick>,
    wrong_notes: u32,
    first_match_tick: Option<Tick>,
    stats: JudgeStats,
}

fn clamp_to_i64(x: i128) -> (r: i64)
    ensures
        r == clamp_i64(x as int),
{
    if x > i64::MAX as i128 {
        i64::MAX
    } else if x < i64::MIN as i128 {
        i64::MIN
    } else {
        x as i64
    }
}

fn add_saturating(a: u32, b: u32) -> (r: u32)
    ensures
        r == sat_add_u32(a, b),
{
    if a > u32::MAX - b {
        u32::MAX
    } else {
        a + b
    }
}

impl Judge {
    pub closed spec fn view(&self) -> JudgeView {
        JudgeView {
            cfg: self.cfg,
            targets: self.targets@,
            idx: self.idx as int,
            focus: if self.idx < self.targets.len() {
                Some(
                    FocusView {
                        matched: self.matched@,
                        wrong_notes: self.wrong_notes,
                        first_match_tick: self.first_match_tick,
                    },
                )
            } else {
                None
            },
            stats: self.stats,
        }
    }

    /// The representation agrees with the focused target.
    pub closed spec fn wf(&self) -> bool {
        &&& self.idx <= self.targets.len()
        &&& self.idx < self.targets.len() ==> self.expected@ == expected_notes(
            self.targets[self.idx as int],
        )
    }

    /// A well-formed judge has a well-formed view.
    pub proof fn lemma_view_wf(&self)
        requires
            self.wf(),
        ensures
            self@.wf(),
    {
    }

    pub fn new(cfg: JudgeConfig) -> (judge: Judge)
        ensures
            judge.wf(),
            judge@ == (JudgeView {
                cfg,
                targets: Seq::empty(),
                idx: 0,
                focus: None,
                stats: JudgeStats { combo: 0, score: 0, hit: 0, miss: 0, wrong: 0 },
            }),
    {
        Judge {
            cfg,
            targets: Vec::new(),
            idx: 0,
            expected: HashSet::new(),
            matched: HashMap::new(),
            wrong_notes: 0,
            first_match_tick: None,
            stats: JudgeStats { combo: 0, score: 0, hit: 0, miss: 0, wrong: 0 },
        }
    }

    /// Replaces the target list and focuses its first target.
    pub fn load_targets(&mut self, targets: Vec<TargetEvent>) -> (events: Vec<JudgeEvent>)
        ensures
            final(self).wf(),
            final(self)@ == (JudgeView {
                cfg: old(self)@.cfg,
                targets: targets@,
                idx: 0,
                focus: focus_at(targets@, 0),
                stats: old(self)@.stats,
            }),
            events@ == seq![(JudgeEvent::FocusChanged { target_id: focus_id(targets@, 0) })],
    {
        self.targets = targets;
        self.idx = 0;
        self.build_state();
        let mut events: Vec<JudgeEvent> = Vec::new();
        events.push(JudgeEvent::FocusChanged { target_id: self.current_focus() });
        events
    }

    /// Judges one note of the player, after flushing what has timed out
    /// before it.
    pub fn on_note_on(&mut self, e: PlayerNoteOn) -> (events: Vec<JudgeEvent>)
        requires
            old(self).wf(),
        ensures
            final(self).wf(),
            final(self)@ == old(self)@.on_note_on(e).0,
            events@ == old(self)@.on_note_on(e).1,
    {
        let mut events = self.advance_to(e.tick);
        if self.idx >= self.targets.len() {
            return events;
        }
        let target_id: u64 = self.targets[self.idx].id;
        let target_tick: i128 = self.targets[self.idx].tick as i128;
        let good: i128 = self.cfg.window.good as i128;
        let tick: i128 = e.tick as i128;
        if tick < target_tick - good {
            return events;
        }
        if tick <= target_tick + good {
            if self.expected.contains(&e.note) {
                if !self.matched.contains_key(&e.note) {
                    let within_roll = match self.first_match_tick {
                        Some(first) => {
                            let gap: i128 = tick - first as i128;
                            let gap_abs: i128 = if gap < 0 {
                                -gap
                            } else {
                                gap
                            };
                            gap_abs <= self.cfg.chord_roll.0 as i128
                        },
                        None => true,
                    };
                    if within_roll {
                        self.matched.insert(e.note, e.tick);
                        if self.first_match_tick.is_none() {
                            self.first_match_tick = Some(e.tick);
                        }
                    }
                }
            } else {
                self.wrong_notes = add_saturating(self.wrong_notes, 1);
            }
        }
        if self.matched.len() == self.expected.len() && !self.expected.is_empty() {
            let delta: i128 = match self.first_match_tick {
                Some(first) => first as i128 - target_tick,
                None => 0,
            };
            let delta_abs: i128 = if delta < 0 {
                -delta
            } else {
                delta
            };
            let degrade = match self.cfg.wrong_note_policy {
                WrongNotePolicy::DegradePerfect => self.wrong_notes > 0,
                WrongNotePolicy::RecordOnly => false,
            };
            let grade = if degrade {
                Grade::Good
            } else if delta_abs <= self.cfg.window.perfect as i128 {
                Grade::Perfect
            } else {
                Grade::Good
            };
            let wrong_notes = self.wrong_notes;
            events.push(
                JudgeEvent::Hit { target_id, grade, delta_tick: clamp_to_i64(delta), wrong_notes },
            );
            self.update_stats_on_hit(grade, wrong_notes, &mut events);
            self.advance_focus(&mut events);
        }
        events
    }

    /// Reports a miss for every focused target whose good window has closed
    /// before `now_tick`, and moves the focus past them.
    pub fn advance_to(&mut self, now_tick: Tick) -> (events: Vec<JudgeEvent>)
        requires
            old(self).wf(),
        ensures
            final(self).wf(),
            final(self)@ == old(self)@.advance_to(now_tick).0,
            events@ == old(self)@.advance_to(now_tick).1,
    {
        let mut events: Vec<JudgeEvent> = Vec::new();
        while self.idx < self.targets.len() && now_tick as i128 > self.targets[self.idx].tick as i128
            + self.cfg.window.good as i128
            invariant
                self.wf(),
                old(self)@.advance_to(now_tick).0 == self@.advance_to(now_tick).0,
                old(self)@.advance_to(now_tick).1 == events@ + self@.advance_to(now_tick).1,
            decreases self.targets.len() - self.idx,
        {
            let ghost before = self@;
            let ghost emitted = events@;
            let expected_len = self.expected.len();
            let matched_len = self.matched.len();
            let missing: usize = if matched_len >= expected_len {
                0
            } else {
                expected_len - matched_len
            };
            let missing_notes: u32 = if missing > u32::MAX as usize {
                u32::MAX
            } else {
                missing as u32
            };
            let wrong_notes = self.wrong_notes;
            let target_id = self.targets[self.idx].id;
            events.push(
                JudgeEvent::Miss {
                    target_id,
                    reason: MissReason::Timeout,
                    missing_notes,
                    wrong_notes,
                },
            );
            self.update_stats_on_miss(wrong_notes, &mut events);
            self.advance_focus(&mut events);
            proof {
                assert(self@ == before.miss_one().0);
                assert(events@ =~= emitted + before.miss_one().1);
                assert(emitted + (before.miss_one().1 + self@.advance_to(now_tick).1) =~= events@
                    + self@.advance_to(now_tick).1);
            }
        }
        proof {
            assert(events@ + Seq::<JudgeEvent>::empty() =~= events@);
        }
        events
    }

    /// Identifier of the focused target, if any target is left.
    pub fn current_focus(&self) -> (id: Option<u64>)
        ensures
            id == focus_id(self@.targets, self@.idx),
    {
        if self.idx < self.targets.len() {
            Some(self.targets[self.idx].id)
        } else {
            None
        }
    }

    /// The targets, in their order.
    pub fn targets(&self) -> (targets: &Vec<TargetEvent>)
        ensures
            targets@ == self@.targets,
    {
        &self.targets
    }

    /// Running totals so far.
    pub fn stats(&self) -> (s: JudgeStats)
        ensures
            s == self@.stats,
    {
        self.stats
    }

    fn build_state(&mut self)
        requires
            old(self).idx <= old(self).targets.len(),
        ensures
            final(self).wf(),
            final(self)@ == (JudgeView {
                cfg: old(self).cfg,
                targets: old(self).targets@,
                idx: old(self).idx as int,
                focus: focus_at(old(self).targets@, old(self).idx as int),
                stats: old(self).stats,
            }),
    {
        self.expected.clear();
        self.matched.clear();
        self.wrong_notes = 0;
        self.first_match_tick = None;
        if self.idx < self.targets.len() {
            let n = self.targets[self.idx].notes.len();
            let mut i: usize = 0;
            while i < n
                invariant
                    self.idx < self.targets.len(),
                    n == self.targets[self.idx as int].notes@.len(),
                    i <= n,
                    self.expected@ == self.targets[self.idx as int].notes@.subrange(
                        0,
                        i as int,
                    ).to_set(),
                    self.cfg == old(self).cfg,
                    self.targets == old(self).targets,
                    self.idx == old(self).idx,
                    self.stats == old(self).stats,
                    self.matched@ == Map::<u8, Tick>::empty(),
                    self.wrong_notes == 0,
                    self.first_match_tick is None,
                decreases n - i,
            {
                let note = self.targets[self.idx].notes[i];
                self.expected.insert(note);
                proof {
                    let notes = self.targets[self.idx as int].notes@;
                    assert(notes.subrange(0, i + 1) =~= notes.subrange(0, i as int).push(note));
                    notes.subrange(0, i as int).lemma_push_to_set_commute(note);
                }
                i = i + 1;
            }
            proof {
                let notes = self.targets[self.idx as int].notes@;
                assert(notes.subrange(0, n as int) =~= notes);
            }
        }
    }

    fn advance_focus(&mut self, events: &mut Vec<JudgeEvent>)
        requires
            old(self).idx < old(self).targets.len(),
        ensures
            final(self).wf(),
            final(self)@ == old(self)@.moved_on(old(self).stats),
            final(events)@ == old(events)@.push(
                JudgeEvent::FocusChanged {
                    target_id: focus_id(old(self)@.targets, old(self)@.idx + 1),
                },
            ),
    {
        self.idx = self.idx + 1;
        self.build_state();
        events.push(JudgeEvent::FocusChanged { target_id: self.current_focus() });
    }

    fn update_stats_on_hit(&mut self, grade: Grade, wrong_notes: u32, events: &mut Vec<JudgeEvent>)
        ensures
            final(self).stats == stats_after_hit(old(self).stats, grade, wrong_notes),
            final(self).cfg == old(self).cfg,
            final(self).targets == old(self).targets,
            final(self).idx == old(self).idx,
            final(self).expected == old(self).expected,
            final(self).matched == old(self).matched,
            final(self).wrong_notes == old(self).wrong_notes,
            final(self).first_match_tick == old(self).first_match_tick,
            final(events)@ == old(events)@.push(stats_event(final(self).stats)),
    {
        let points: i64 = match grade {
            Grade::Perfect => SCORE_PERFECT,
            Grade::Good => SCORE_GOOD,
            Grade::Miss => 0,
        };
        self.stats = JudgeStats {
            combo: add_saturating(self.stats.combo, 1),
            score: clamp_to_i64(self.stats.score as i128 + points as i128),
            hit: add_saturating(self.stats.hit, 1),
            miss: self.stats.miss,
            wrong: add_saturating(self.stats.wrong, wrong_notes),
        };
        events.push(self.stats_event());
    }

    fn update_stats_on_miss(&mut self, wrong_notes: u32, events: &mut Vec<JudgeEvent>)
        ensures
            final(self).stats == stats_after_miss(old(self).stats, wrong_notes),
            final(self).cfg == old(self).cfg,
            final(self).targets == old(self).targets,
            final(self).idx == old(self).idx,
            final(self).expected == old(self).expected,
            final(self).matched == old(self).matched,
            final(self).wrong_notes == old(self).wrong_notes,
            final(self).first_match_tick == old(self).first_match_tick,
            final(events)@ == old(events)@.push(stats_event(final(self).stats)),
    {
        self.stats = JudgeStats {
            combo: 0,
            score: self.stats.score,
            hit: self.stats.hit,
            miss: add_saturating(self.stats.miss, 1),
            wrong: add_saturating(self.stats.wrong, wrong_notes),
        };
        events.push(self.stats_event());
    }

    fn stats_event(&self) -> (event: JudgeEvent)
        ensures
            event == stats_event(self.stats),
    {
        JudgeEvent::Stats {
            combo: self.stats.combo,
            score: self.stats.score,
            hit: self.stats.hit,
            miss: self.stats.miss,
            wrong: self.stats.wrong,
        }
    }
}


/// The three events reported for the `i`-th target flushed by one call of
/// `advance_to`, taken out of the events of that call.
pub open spec fn flush_group(events: Seq<JudgeEvent>, i: int) -> Seq<JudgeEvent> {
    events.subrange(3 * i, 3 * i + 3)
}

/// `e` reports that the target `t` was missed because its window closed.
pub open spec fn is_timeout_miss_of(e: JudgeEvent, t: TargetEvent) -> bool {
    e matches JudgeEvent::Miss { target_id, reason, .. } && target_id == t.id && reason
        == MissReason::Timeout
}

/// A note played exactly on the tick of a target that expects that single
/// pitch, before any match was recorded for it, resolves the target as a hit
/// with no deviation. The hit is perfect unless wrong notes were counted
/// and the policy degrades for them.
pub proof fn lemma_single_note_on_time_is_perfect(v: JudgeView, e: PlayerNoteOn)
    requires
        v.wf(),
        v.cfg.windows_ordered(),
        v.idx < v.targets.len(),
        expected_notes(v.target()) == set![e.note],
        e.tick == v.target().tick,
        v.focus.unwrap().matched == Map::<u8, Tick>::empty(),
        v.focus.unwrap().first_match_tick is None,
        v.focus.unwrap().wrong_notes == 0 || v.cfg.wrong_note_policy == WrongNotePolicy::RecordOnly,
    ensures
        ({
            let wrong = v.focus.unwrap().wrong_notes;
            let stats = stats_after_hit(v.stats, Grade::Perfect, wrong);
            &&& v.on_note_on(e).0 == v.moved_on(stats)
            &&& v.on_note_on(e).1 == seq![
                (JudgeEvent::Hit {
                    target_id: v.target().id,
                    grade: Grade::Perfect,
                    delta_tick: 0,
                    wrong_notes: wrong,
                }),
                stats_event(stats),
                (JudgeEvent::FocusChanged { target_id: focus_id(v.targets, v.idx + 1) }),
            ]
        }),
{
    let t = v.target();
    let f = v.focus.unwrap();
    assert(!timed_out(v.cfg, t, e.tick));
    assert(v.advance_to(e.tick) == (v, Seq::<JudgeEvent>::empty()));
    let g = note_step(v.cfg, t, f, e);
    assert(expected_notes(t).contains(e.note));
    assert(g.matched == f.matched.insert(e.note, e.tick));
    assert(g.matched.dom() =~= set![e.note]);
    assert(set![e.note].len() == 1) by {
        assert(set![e.note] =~= Set::<u8>::empty().insert(e.note));
    }
    assert(resolved(t, g));
    assert(hit_delta(t, g) == 0);
    assert(Seq::<JudgeEvent>::empty() + seq![
        hit_event(v.cfg, t, g),
        stats_event(stats_after_hit(v.stats, Grade::Perfect, g.wrong_notes)),
        (JudgeEvent::FocusChanged { target_id: focus_id(v.targets, v.idx + 1) }),
    ] =~= seq![
        hit_event(v.cfg, t, g),
        stats_event(stats_after_hit(v.stats, Grade::Perfect, g.wrong_notes)),
        (JudgeEvent::FocusChanged { target_id: focus_id(v.targets, v.idx + 1) }),
    ]);
}

/// A note within the perfect window of a target that expects that single
/// pitch, before any match was recorded for it, resolves the target as a
/// hit whose deviation is the distance of the note from the target. Where
/// the policy degrades for wrong notes and at least one was counted against
/// the target, the hit is good and scores 70; otherwise it is perfect and
/// scores 100. The totals reported after it hold one hit more, a combo one
/// longer and the wrong notes counted against the target, each as far as
/// its counter reaches.
pub proof fn lemma_single_note_in_time(v: JudgeView, e: PlayerNoteOn)
    requires
        v.wf(),
        v.cfg.windows_ordered(),
        v.idx < v.targets.len(),
        expected_notes(v.target()) == set![e.note],
        abs_int(e.tick - v.target().tick) <= v.cfg.window.perfect,
        v.focus.unwrap().matched == Map::<u8, Tick>::empty(),
        v.focus.unwrap().first_match_tick is None,
    ensures
        ({
            let wrong = v.focus.unwrap().wrong_notes;
            let degraded = v.cfg.wrong_note_policy == WrongNotePolicy::DegradePerfect && wrong > 0;
            let grade = if degraded {
                Grade::Good
            } else {
                Grade::Perfect
            };
            let points: int = if degraded {
                70
            } else {
                100
            };
            let stats = stats_after_hit(v.stats, grade, wrong);
            &&& v.on_note_on(e).0 == v.moved_on(stats)
            &&& v.on_note_on(e).1 == seq![
                (JudgeEvent::Hit {
                    target_id: v.target().id,
                    grade,
                    delta_tick: (e.tick - v.target().tick) as i64,
                    wrong_notes: wrong,
                }),
                stats_event(stats),
                (JudgeEvent::FocusChanged { target_id: focus_id(v.targets, v.idx + 1) }),
            ]
            &&& stats.miss == v.stats.miss
            &&& v.stats.score + points <= i64::MAX ==> stats.score == v.stats.score + points
            &&& v.stats.hit < u32::MAX ==> stats.hit == v.stats.hit + 1
            &&& v.stats.combo < u32::MAX ==> stats.combo == v.stats.combo + 1
            &&& v.stats.wrong + wrong <= u32::MAX ==> stats.wrong == v.stats.wrong + wrong
        }),
{
    let t = v.target();
    let f = v.focus.unwrap();
    assert(!timed_out(v.cfg, t, e.tick));
    assert(v.advance_to(e.tick) == (v, Seq::<JudgeEvent>::empty()));
    let g = note_step(v.cfg, t, f, e);
    assert(expected_notes(t).contains(e.note));
    assert(g.matched == f.matched.insert(e.note, e.tick));
    assert(g.matched.dom() =~= set![e.note]);
    assert(set![e.note].len() == 1) by {
        assert(set![e.note] =~= Set::<u8>::empty().insert(e.note));
    }
    assert(resolved(t, g));
    assert(hit_delta(t, g) == e.tick - t.tick);
    let grade = hit_grade(v.cfg, hit_delta(t, g), g.wrong_notes);
    assert(Seq::<JudgeEvent>::empty() + seq![
        hit_event(v.cfg, t, g),
        stats_event(stats_after_hit(v.stats, grade, g.wrong_notes)),
        (JudgeEvent::FocusChanged { target_id: focus_id(v.targets, v.idx + 1) }),
    ] =~= seq![
        hit_event(v.cfg, t, g),
        stats_event(stats_after_hit(v.stats, grade, g.wrong_notes)),
        (JudgeEvent::FocusChanged { target_id: focus_id(v.targets, v.idx + 1) }),
    ]);
}

/// A hit whose timing is perfect is graded good when the policy degrades
/// for wrong notes and at least one was counted; it stays perfect under the
/// recording policy, and when no wrong note was counted.
pub proof fn lemma_wrong_notes_degrade_perfect(cfg: JudgeConfig, delta: int, wrong_notes: u32)
    requires
        abs_int(delta) <= cfg.window.perfect,
    ensures
        timing_grade(cfg, delta) == Grade::Perfect,
        cfg.wrong_note_policy == WrongNotePolicy::DegradePerfect && wrong_notes > 0 ==> hit_grade(
            cfg,
            delta,
            wrong_notes,
        ) == Grade::Good,
        cfg.wrong_note_policy == WrongNotePolicy::RecordOnly ==> hit_grade(cfg, delta, wrong_notes)
            == Grade::Perfect,
        wrong_notes == 0 ==> hit_grade(cfg, delta, wrong_notes) == Grade::Perfect,
{
}

/// `advance_to` passes over exactly the run of targets, from the focused
/// one on, whose good window has closed before `now`: it stops at the first
/// target that is still open, reports three events for each target passed
/// (its miss by timeout, the totals, the new focus), in order, and counts
/// one miss for each.
pub proof fn lemma_advance_to_misses(v: JudgeView, now: Tick)
    requires
        v.wf(),
    ensures
        ({
            let (w, events) = v.advance_to(now);
            let k = w.idx - v.idx;
            &&& w.wf()
            &&& w.cfg == v.cfg
            &&& w.targets == v.targets
            &&& 0 <= k
            &&& k == 0 ==> w == v
            &&& forall|j: int| v.idx <= j < w.idx ==> timed_out(v.cfg, #[trigger] v.targets[j], now)
            &&& w.idx < w.targets.len() ==> !timed_out(v.cfg, w.target(), now)
            &&& events.len() == 3 * k
            &&& forall|i: int|
                0 <= i < k ==> {
                    let group = #[trigger] flush_group(events, i);
                    &&& is_timeout_miss_of(group[0], v.targets[v.idx + i])
                    &&& group[1] is Stats
                    &&& group[2] == (JudgeEvent::FocusChanged {
                        target_id: focus_id(v.targets, v.idx + i + 1),
                    })
                }
            &&& w.stats.hit == v.stats.hit
            &&& w.stats.score == v.stats.score
            &&& w.stats.miss == if v.stats.miss + k > u32::MAX {
                u32::MAX
            } else {
                (v.stats.miss + k) as u32
            }
            &&& k > 0 ==> w.stats.combo == 0
        }),
    decreases v.targets.len() - v.idx,
{
    if v.idx < v.targets.len() && timed_out(v.cfg, v.target(), now) {
        let (next, first) = v.miss_one();
        let (last, rest) = next.advance_to(now);
        lemma_advance_to_misses(next, now);
        let events = first + rest;
        let k = last.idx - v.idx;
        assert forall|i: int| 0 <= i < k implies {
            let group = #[trigger] flush_group(events, i);
            &&& is_timeout_miss_of(group[0], v.targets[v.idx + i])
            &&& group[1] is Stats
            &&& group[2] == (JudgeEvent::FocusChanged {
                target_id: focus_id(v.targets, v.idx + i + 1),
            })
        } by {
            if i == 0 {
                assert(flush_group(events, 0) =~= first);
            } else {
                assert(flush_group(events, i) =~= flush_group(rest, i - 1));
            }
        }
        assert forall|j: int| v.idx <= j < last.idx implies timed_out(
            v.cfg,
            #[trigger] v.targets[j],
            now,
        ) by {
            if j > v.idx {
                assert(next.idx <= j);
            }
        }
    }
}

} // verus!
