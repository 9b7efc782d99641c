use crate::engine::timebase::{clamp_u64, div_round, round_div, to_u64_saturating};
use crate::engine::transport::{sat_add_u64, Transport, TransportView};
use crate::ports::playback::{LoopRange, PlaybackMode, ScheduledEvent};
use crate::ports::types::{Bus, Tick};
use crate::score::model::{Hand, PlaybackMidiEvent};
use crate::sorting::{is_stable_sort_of, sorted_by, stable_sort, Key, KeyOrder};
use vstd::prelude::*;

verus! {

#[derive(Clone, Copy, Debug)]
pub struct SchedulerConfig {
    pub lookahead_ms: u64,
}

#[derive(Clone, Copy, Debug)]
pub struct AccompanimentRoute {
    pub play_left: bool,
    pub play_right: bool,
}

#[derive(Clone, Copy, Debug)]
pub struct PlaybackSettings {
    pub mode: PlaybackMode,
    pub accompaniment: AccompanimentRoute,
}

/// Orders playback events by their tick.
pub struct PlaybackEventByTick;

impl KeyOrder<PlaybackMidiEvent> for PlaybackEventByTick {
    open spec fn key(t: PlaybackMidiEvent) -> Key {
        (t.tick as int, 0, 0)
    }

    fn le(a: &PlaybackMidiEvent, b: &PlaybackMidiEvent) -> (r: bool) {
        a.tick <= b.tick
    }
}

/// The bus an event of `hand` is played on, if it is played at all: in demo
/// mode everything is played; in accompaniment mode an event written for a
/// muted hand is dropped.
pub open spec fn route_bus(settings: PlaybackSettings, hand: Option<Hand>) -> Option<Bus> {
    match settings.mode {
        PlaybackMode::Demo => Some(Bus::Autopilot),
        PlaybackMode::Accompaniment => match hand {
            Some(Hand::Left) => if settings.accompaniment.play_left {
                Some(Bus::Autopilot)
            } else {
                None
            },
            Some(Hand::Right) => if settings.accompaniment.play_right {
                Some(Bus::Autopilot)
            } else {
                None
            },
            None => Some(Bus::Autopilot),
        },
    }
}

/// The test for "the routing policy accepts this event".
pub open spec fn is_routed(settings: PlaybackSettings) -> spec_fn(PlaybackMidiEvent) -> bool {
    |e: PlaybackMidiEvent| route_bus(settings, e.hand) is Some
}

/// An accepted event, bound to the sample on which its tick falls.
pub open spec fn bind(settings: PlaybackSettings, tr: TransportView) -> spec_fn(
    PlaybackMidiEvent,
) -> ScheduledEvent {
    |e: PlaybackMidiEvent|
        ScheduledEvent {
            sample_time: tr.tick_to_sample(e.tick),
            bus: route_bus(settings, e.hand).unwrap(),
            event: e.event,
        }
}

/// What the scheduler emits for `events`: those the routing policy
/// accepts, in order, each at the sample on which its tick falls.
pub open spec fn scheduled(
    events: Seq<PlaybackMidiEvent>,
    settings: PlaybackSettings,
    tr: TransportView,
) -> Seq<ScheduledEvent> {
    events.filter(is_routed(settings)).map_values(bind(settings, tr))
}

/// The look-ahead in samples: `lookahead_ms` at `sample_rate_hz`, to the
/// nearest sample.
pub open spec fn lookahead_samples(config: SchedulerConfig, sample_rate_hz: u32) -> u64 {
    clamp_u64(round_div(config.lookahead_ms * sample_rate_hz, 1000))
}

/// The event at `tick` lies at or behind the end of the loop.
pub open spec fn past_loop_end(loop_range: Option<LoopRange>, tick: Tick) -> bool {
    loop_range matches Some(range) && tick >= range.end_tick
}

/// Index at which one pass over `events` from `from` ends: that of the
/// first event that lies behind `limit` or at the end of the loop, or the
/// length where there is none.
pub open spec fn scan_stop(
    events: Seq<PlaybackMidiEvent>,
    from: int,
    limit: Tick,
    loop_range: Option<LoopRange>,
) -> int
    decreases events.len() - from,
{
    if 0 <= from < events.len() && events[from].tick <= limit && !past_loop_end(
        loop_range,
        events[from].tick,
    ) {
        scan_stop(events, from + 1, limit, loop_range)
    } else {
        from
    }
}

/// Index of the first event from `from` on that is at or behind `tick`, or
/// the length where there is none.
pub open spec fn first_at_or_after(events: Seq<PlaybackMidiEvent>, from: int, tick: Tick) -> int
    decreases events.len() - from,
{
    if 0 <= from < events.len() && events[from].tick < tick {
        first_at_or_after(events, from + 1, tick)
    } else {
        from
    }
}

/// The scheduler as a mathematical value.
pub struct SchedulerView {
    pub config: SchedulerConfig,
    pub events: Seq<PlaybackMidiEvent>,
    pub cursor: int,
    pub loop_range: Option<LoopRange>,
    pub settings: PlaybackSettings,
    pub sample_rate_hz: u32,
}

impl SchedulerView {
    /// The cursor is within the score, and the score is ordered by tick.
    pub open spec fn wf(self) -> bool {
        &&& 0 <= self.cursor <= self.events.len()
        &&& sorted_by::<PlaybackMidiEvent, PlaybackEventByTick>(self.events)
    }

    /// The last tick of the look-ahead window of a pass that starts with the
    /// transport at `tr`.
    pub open spec fn window_end_tick(self, tr: TransportView) -> Tick {
        tr.sample_to_tick(
            sat_add_u64(tr.position_sample, lookahead_samples(self.config, self.sample_rate_hz)),
        )
    }

    /// Index at which a pass that starts with the transport at `tr` ends.
    pub open spec fn pass_stop(self, tr: TransportView) -> int {
        scan_stop(self.events, self.cursor, self.window_end_tick(tr), self.loop_range)
    }

    /// A pass that starts with the transport at `tr` ends on an event that is
    /// within the window but at or behind the end of the loop.
    pub open spec fn pass_wraps(self, tr: TransportView) -> bool {
        let stop = self.pass_stop(tr);
        stop < self.events.len() && self.events[stop].tick <= self.window_end_tick(tr)
            && past_loop_end(self.loop_range, self.events[stop].tick)
    }

    pub open spec fn seek(self, tick: Tick) -> SchedulerView {
        SchedulerView { cursor: first_at_or_after(self.events, 0, tick), ..self }
    }

    /// The scheduler after a pass that starts with the transport at `tr`.
    pub open spec fn after_pass(self, tr: TransportView) -> SchedulerView {
        if self.pass_wraps(tr) {
            self.seek(self.loop_range.unwrap().start_tick)
        } else {
            SchedulerView { cursor: self.pass_stop(tr), ..self }
        }
    }

    /// The transport after a pass that starts with it at `tr`.
    pub open spec fn transport_after_pass(self, tr: TransportView) -> TransportView {
        if self.pass_wraps(tr) {
            tr.seek(self.loop_range.unwrap().start_tick)
        } else {
            tr
        }
    }

    /// What a pass that starts with the transport at `tr` emits.
    pub open spec fn pass_output(self, tr: TransportView) -> Seq<ScheduledEvent> {
        scheduled(self.events.subrange(self.cursor, self.pass_stop(tr)), self.settings, tr)
    }
}

/// Look-ahead dequeue of the score's events into scheduled events.
pub struct Scheduler {
    config: SchedulerConfig,
    events: Vec<PlaybackMidiEvent>,
    cursor: usize,
    loop_range: Option<LoopRange>,
    settings: PlaybackSettings,
    sample_rate_hz: u32,
}

impl Scheduler {
    pub closed spec fn view(&self) -> SchedulerView {
        SchedulerView {
            config: self.config,
            events: self.events@,
            cursor: self.cursor as int,
            loop_range: self.loop_range,
            settings: self.settings,
            sample_rate_hz: self.sample_rate_hz,
        }
    }

    pub open spec fn wf(&self) -> bool {
        self@.wf()
    }

    /// A scheduler without a score or a loop, in demo mode, with both hands
    /// played.
    pub fn new(sample_rate_hz: u32, config: SchedulerConfig) -> (scheduler: Scheduler)
        ensures
            scheduler.wf(),
            scheduler@ == (SchedulerView {
                config,
                events: Seq::empty(),
                cursor: 0,
                loop_range: None,
                settings: PlaybackSettings {
                    mode: PlaybackMode::Demo,
                    accompaniment: AccompanimentRoute { play_left: true, play_right: true },
                },
                sample_rate_hz,
            }),
    {
        Scheduler {
            config,
            events: Vec::new(),
            cursor: 0,
            loop_range: None,
            settings: PlaybackSettings {
                mode: PlaybackMode::Demo,
                accompaniment: AccompanimentRoute { play_left: true, play_right: true },
            },
            sample_rate_hz,
        }
    }

    /// Takes `events` as the score, sorted by tick with events of one tick
    /// in their given order, and starts over.
    pub fn set_score(&mut self, events: Vec<PlaybackMidiEvent>)
        ensures
            final(self).wf(),
            is_stable_sort_of::<PlaybackMidiEvent, PlaybackEventByTick>(
                final(self)@.events,
                events@,
            ),
            final(self)@ == (SchedulerView {
                events: final(self)@.events,
                cursor: 0,
                ..old(self)@
            }),
    {
        let mut events = events;
        stable_sort::<PlaybackMidiEvent, PlaybackEventByTick>(&mut events);
        self.events = events;
        self.cursor = 0;
    }

    pub fn set_loop(&mut self, range: Option<LoopRange>)
        ensures
            old(self).wf() ==> final(self).wf(),
            final(self)@ == (SchedulerView { loop_range: range, ..old(self)@ }),
    {
        self.loop_range = range;
    }

    pub fn loop_range(&self) -> (range: Option<LoopRange>)
        ensures
            range == self@.loop_range,
    {
        self.loop_range
    }

    pub fn set_mode(&mut self, mode: PlaybackMode)
        ensures
            old(self).wf() ==> final(self).wf(),
            final(self)@ == (SchedulerView {
                settings: PlaybackSettings {
                    mode,
                    accompaniment: old(self)@.settings.accompaniment,
                },
                ..old(self)@
            }),
    {
        self.settings.mode = mode;
    }

    pub fn set_accompaniment_route(&mut self, play_left: bool, play_right: bool)
        ensures
            old(self).wf() ==> final(self).wf(),
            final(self)@ == (SchedulerView {
                settings: PlaybackSettings {
                    mode: old(self)@.settings.mode,
                    accompaniment: AccompanimentRoute { play_left, play_right },
                },
                ..old(self)@
            }),
    {
        self.settings.accompaniment = AccompanimentRoute { play_left, play_right };
    }

    /// Puts the cursor on the first event at or behind `tick`.
    pub fn seek(&mut self, tick: Tick)
        ensures
            old(self).wf() ==> final(self).wf(),
            final(self)@ == old(self)@.seek(tick),
            forall|i: int| 0 <= i < final(self)@.cursor ==> (#[trigger] old(self)@.events[i]).tick < tick,
            final(self)@.cursor == old(self)@.events.len() || old(self)@.events[final(self)@.cursor].tick
                >= tick,
    {
        let n = self.events.len();
        let mut i: usize = 0;
        while i < n && self.events[i].tick < tick
            invariant
                i <= n,
                n == self.events@.len(),
                first_at_or_after(self.events@, 0, tick) == first_at_or_after(
                    self.events@,
                    i as int,
                    tick,
                ),
                forall|j: int| 0 <= j < i ==> (#[trigger] self.events@[j]).tick < tick,
                self.events == old(self).events,
            decreases n - i,
        {
            i = i + 1;
        }
        self.cursor = i;
    }

    /// One pass: emits, for every event from the cursor on that starts
    /// within the look-ahead window and before the end of the loop, its
    /// scheduled event if the routing policy accepts it. A pass that meets
    /// the end of the loop within the window moves transport and cursor
    /// back to the start of the loop and emits nothing more.
    pub fn schedule(&mut self, transport: &mut Transport) -> (emitted: Vec<ScheduledEvent>)
        requires
            old(self).wf(),
            old(transport).wf(),
        ensures
            final(self).wf(),
            final(transport).wf(),
            emitted@ == old(self)@.pass_output(old(transport)@),
            final(self)@ == old(self)@.after_pass(old(transport)@),
            final(transport)@ == old(self)@.transport_after_pass(old(transport)@),
    {
        let lookahead = self.lookahead();
        let window_end_sample = transport.now_sample().saturating_add(lookahead);
        let window_end_tick = transport.sample_to_tick(window_end_sample);
        let ghost tr = transport@;
        let ghost start = self.cursor as int;
        let mut emitted: Vec<ScheduledEvent> = Vec::new();
        let mut wrap: Option<Tick> = None;
        let n = self.events.len();
        while self.cursor < n
            invariant_except_break
                wrap is None,
            invariant
                n == self.events@.len(),
                0 <= start <= self.cursor <= n,
                self.wf(),
                transport.wf(),
                transport@ == tr,
                self@ == (SchedulerView { cursor: self.cursor as int, ..old(self)@ }),
                scan_stop(self.events@, start, window_end_tick, self.loop_range) == scan_stop(
                    self.events@,
                    self.cursor as int,
                    window_end_tick,
                    self.loop_range,
                ),
                emitted@ == scheduled(
                    self.events@.subrange(start, self.cursor as int),
                    self.settings,
                    tr,
                ),
            ensures
                start <= self.cursor <= n,
                self.wf(),
                transport.wf(),
                transport@ == tr,
                self@ == (SchedulerView { cursor: self.cursor as int, ..old(self)@ }),
                self.cursor == scan_stop(self.events@, start, window_end_tick, self.loop_range),
                emitted@ == scheduled(
                    self.events@.subrange(start, self.cursor as int),
                    self.settings,
                    tr,
                ),
                wrap matches Some(tick) ==> self.loop_range matches Some(range) && tick
                    == range.start_tick && self.cursor < n && self.events@[self.cursor as int].tick
                    <= window_end_tick && self.events@[self.cursor as int].tick >= range.end_tick,
                wrap is None ==> !(self.cursor < n && self.events@[self.cursor as int].tick
                    <= window_end_tick && past_loop_end(
                    self.loop_range,
                    self.events@[self.cursor as int].tick,
                )),
            decreases n - self.cursor,
        {
            let event = self.events[self.cursor];
            if event.tick > window_end_tick {
                break ;
            }
            match self.loop_range {
                Some(range) => {
                    if event.tick >= range.end_tick {
                        wrap = Some(range.start_tick);
                        break ;
                    }
                },
                None => {},
            }
            let ghost before = self.events@.subrange(start, self.cursor as int);
            match self.route_bus(event.hand) {
                Some(bus) => {
                    let sample_time = transport.tick_to_sample(event.tick);
                    emitted.push(ScheduledEvent { sample_time, bus, event: event.event });
                },
                None => {},
            }
            proof {
                let after = self.events@.subrange(start, self.cursor + 1);
                assert(after.drop_last() =~= before);
                assert(after.last() == event);
                reveal(Seq::filter);
                let kept = before.filter(is_routed(self.settings));
                if route_bus(self.settings, event.hand) is Some {
                    assert(after.filter(is_routed(self.settings)) == kept.push(event));
                    assert(kept.push(event).map_values(bind(self.settings, tr))
                        =~= kept.map_values(bind(self.settings, tr)).push(
                        bind(self.settings, tr)(event),
                    ));
                } else {
                    assert(after.filter(is_routed(self.settings)) == kept);
                }
            }
            self.cursor = self.cursor + 1;
        }
        match wrap {
            Some(tick) => {
                transport.seek(tick);
                self.seek(tick);
            },
            None => {},
        }
        emitted
    }

    fn lookahead(&self) -> (samples: u64)
        ensures
            samples == lookahead_samples(self.config, self.sample_rate_hz),
    {
        assert(0 <= self.config.lookahead_ms * self.sample_rate_hz <= 0x1_0000_0000_0000_0000
            * 0x1_0000_0000) by (nonlinear_arith)
            requires
                0 <= self.config.lookahead_ms <= 0x1_0000_0000_0000_0000,
                0 <= self.sample_rate_hz <= 0x1_0000_0000,
        ;
        to_u64_saturating(
            div_round((self.config.lookahead_ms as i128) * (self.sample_rate_hz as i128), 1000),
        )
    }

    fn route_bus(&self, hand: Option<Hand>) -> (bus: Option<Bus>)
        ensures
            bus == route_bus(self.settings, hand),
    {
        match self.settings.mode {
            PlaybackMode::Demo => Some(Bus::Autopilot),
            PlaybackMode::Accompaniment => match hand {
                Some(Hand::Left) => if self.settings.accompaniment.play_left {
                    Some(Bus::Autopilot)
                } else {
                    None
                },
                Some(Hand::Right) => if self.settings.accompaniment.play_right {
                    Some(Bus::Autopilot)
                } else {
                    None
                },
                None => Some(Bus::Autopilot),
            },
        }
    }
}

} // verus!
