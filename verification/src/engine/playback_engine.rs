//! Playback of a score on its own: a transport and a scheduler behind the
//! operations of a player.

use crate::engine::scheduler::{PlaybackEventByTick, Scheduler, SchedulerConfig, SchedulerView};
use crate::engine::transport::{
    with_origin, TempoPointByTick, Transport, TransportState, TransportView,
};
use crate::ports::playback::{
    LoopRange, PlaybackError, PlaybackEvent, PlaybackMode, PlaybackPort, PlaybackRouteHint,
    PlaybackScore, ScheduledEvent,
};
use crate::ports::types::Tick;
use crate::score::model::{Hand, PlaybackMidiEvent, TempoPoint};
use crate::sorting::is_stable_sort_of;
use vstd::prelude::*;

verus! {

/// Pulses per quarter note of the engine's transport.
pub const ENGINE_PPQ: u16 = 480;

/// Look-ahead of the engine's scheduler in milliseconds.
pub const ENGINE_LOOKAHEAD_MS: u64 = 30;

/// The hand that a route hint names.
pub open spec fn hinted_hand(hint: PlaybackRouteHint) -> Option<Hand> {
    match hint {
        PlaybackRouteHint::Left => Some(Hand::Left),
        PlaybackRouteHint::Right => Some(Hand::Right),
        PlaybackRouteHint::Neither => None,
    }
}

/// A playback event of a score as the scheduler takes it.
pub open spec fn routed_event(e: PlaybackEvent) -> PlaybackMidiEvent {
    PlaybackMidiEvent { tick: e.tick, event: e.event, hand: hinted_hand(e.route_hint) }
}

/// The tempo points of a score as the transport takes them.
pub open spec fn score_tempo(points: Seq<crate::ports::playback::TempoPoint>) -> Seq<TempoPoint> {
    points.map_values(
        |p: crate::ports::playback::TempoPoint|
            TempoPoint { tick: p.tick, us_per_quarter: p.us_per_quarter },
    )
}

/// The events of a score as the scheduler takes them.
pub open spec fn score_events(events: Seq<PlaybackEvent>) -> Seq<PlaybackMidiEvent> {
    events.map_values(|e: PlaybackEvent| routed_event(e))
}

/// The engine as a mathematical value.
pub struct PlaybackEngineView {
    pub transport: TransportView,
    pub scheduler: SchedulerView,
    pub loop_range: Option<LoopRange>,
}

/// A transport and a scheduler that play a score.
pub struct PlaybackEngine {
    transport: Transport,
    scheduler: Scheduler,
    loop_range: Option<LoopRange>,
}

impl PlaybackEngine {
    pub closed spec fn view(&self) -> PlaybackEngineView {
        PlaybackEngineView {
            transport: self.transport@,
            scheduler: self.scheduler@,
            loop_range: self.loop_range,
        }
    }

    pub closed spec fn wf(&self) -> bool {
        self.transport.wf() && self.scheduler.wf()
    }

    /// An engine without a score, stopped at tick 0.
    pub fn new(sample_rate_hz: u32) -> (engine: PlaybackEngine)
        ensures
            engine.wf(),
            engine@.loop_range is None,
            engine@.transport.state == TransportState::Stopped,
            engine@.transport.ppq == ENGINE_PPQ,
            engine@.transport.sample_rate_hz == sample_rate_hz,
            engine@.transport.position_tick == 0,
            engine@.scheduler.events.len() == 0,
            engine@.scheduler.sample_rate_hz == sample_rate_hz,
            engine@.scheduler.config.lookahead_ms == ENGINE_LOOKAHEAD_MS,
    {
        PlaybackEngine {
            transport: Transport::new(ENGINE_PPQ, sample_rate_hz, Vec::new()),
            scheduler: Scheduler::new(
                sample_rate_hz,
                SchedulerConfig { lookahead_ms: ENGINE_LOOKAHEAD_MS },
            ),
            loop_range: None,
        }
    }
}

impl PlaybackPort for PlaybackEngine {
    open spec fn usable(&self) -> bool {
        self.wf()
    }

    /// Takes `score` to play from tick 0. A score with a tempo of zero
    /// is turned down as invalid and changes nothing.
    fn load_score(&mut self, score: PlaybackScore) -> (loaded: Result<(), PlaybackError>)
        ensures
            loaded is Ok == (forall|i: int|
                0 <= i < score.tempo_map@.len() ==> (#[trigger] score.tempo_map@[i]).us_per_quarter
                    > 0),
            loaded matches Err(e) ==> e is InvalidScore && final(self)@ == old(self)@,
            loaded is Ok ==> ({
                let before = old(self)@;
                let after = final(self)@;
                &&& after.loop_range == before.loop_range
                &&& after.transport.tempo_map.wf()
                &&& is_stable_sort_of::<TempoPoint, TempoPointByTick>(
                    after.transport.tempo_map.points(),
                    with_origin(score_tempo(score.tempo_map@)),
                )
                &&& after.transport == before.transport.with_tempo_map(
                    after.transport.tempo_map,
                ).seek(0)
                &&& is_stable_sort_of::<PlaybackMidiEvent, PlaybackEventByTick>(
                    after.scheduler.events,
                    score_events(score.events@),
                )
                &&& after.scheduler == (SchedulerView {
                    events: after.scheduler.events,
                    cursor: 0,
                    loop_range: before.loop_range,
                    ..before.scheduler
                })
            }),
    {
        let mut tempo_map: Vec<TempoPoint> = Vec::new();
        let mut i: usize = 0;
        while i < score.tempo_map.len()
            invariant
                i <= score.tempo_map@.len(),
                tempo_map@ == score_tempo(score.tempo_map@.subrange(0, i as int)),
                self.wf(),
                self@ == old(self)@,
                forall|j: int| 0 <= j < i ==> (#[trigger] score.tempo_map@[j]).us_per_quarter > 0,
            decreases score.tempo_map@.len() - i,
        {
            let point = score.tempo_map[i];
            if point.us_per_quarter == 0 {
                return Err(PlaybackError::InvalidScore("tempo of zero".to_string()));
            }
            tempo_map.push(TempoPoint { tick: point.tick, us_per_quarter: point.us_per_quarter });
            assert(tempo_map@ =~= score_tempo(score.tempo_map@.subrange(0, i + 1)));
            i = i + 1;
        }
        assert(score.tempo_map@.subrange(0, score.tempo_map@.len() as int) =~= score.tempo_map@);
        let mut events: Vec<PlaybackMidiEvent> = Vec::new();
        let mut k: usize = 0;
        while k < score.events.len()
            invariant
                k <= score.events@.len(),
                events@ == score_events(score.events@.subrange(0, k as int)),
            decreases score.events@.len() - k,
        {
            let event = &score.events[k];
            let hand = match event.route_hint {
                PlaybackRouteHint::Left => Some(Hand::Left),
                PlaybackRouteHint::Right => Some(Hand::Right),
                PlaybackRouteHint::Neither => None,
            };
            events.push(PlaybackMidiEvent { tick: event.tick, event: event.event, hand });
            assert(events@ =~= score_events(score.events@.subrange(0, k + 1)));
            k = k + 1;
        }
        assert(score.events@.subrange(0, score.events@.len() as int) =~= score.events@);
        self.transport.update_tempo_map(tempo_map);
        self.transport.seek(0);
        self.scheduler.set_score(events);
        self.scheduler.set_loop(self.loop_range);
        Ok(())
    }

    fn play(&mut self) -> (done: Result<(), PlaybackError>)
        ensures
            done is Ok,
            final(self)@ == (PlaybackEngineView {
                transport: old(self)@.transport.with_state(TransportState::Playing),
                ..old(self)@
            }),
    {
        self.transport.play();
        Ok(())
    }

    fn pause(&mut self) -> (done: Result<(), PlaybackError>)
        ensures
            done is Ok,
            final(self)@ == (PlaybackEngineView {
                transport: old(self)@.transport.with_state(TransportState::Paused),
                ..old(self)@
            }),
    {
        self.transport.pause();
        Ok(())
    }

    fn stop(&mut self) -> (done: Result<(), PlaybackError>)
        ensures
            done is Ok,
            final(self)@ == (PlaybackEngineView {
                transport: old(self)@.transport.stop(),
                ..old(self)@
            }),
    {
        self.transport.stop();
        Ok(())
    }

    fn seek(&mut self, tick: Tick) -> (done: Result<(), PlaybackError>)
        ensures
            done is Ok,
            final(self)@ == (PlaybackEngineView {
                transport: old(self)@.transport.seek(tick),
                scheduler: old(self)@.scheduler.seek(tick),
                ..old(self)@
            }),
    {
        self.transport.seek(tick);
        self.scheduler.seek(tick);
        Ok(())
    }

    fn set_loop(&mut self, range: Option<LoopRange>) -> (done: Result<(), PlaybackError>)
        ensures
            done is Ok,
            final(self)@ == (PlaybackEngineView {
                transport: TransportView { loop_range: range, ..old(self)@.transport },
                scheduler: SchedulerView { loop_range: range, ..old(self)@.scheduler },
                loop_range: range,
            }),
    {
        self.loop_range = range;
        self.scheduler.set_loop(range);
        self.transport.set_loop(range);
        Ok(())
    }

    /// Sets the playback speed in parts per million of the written tempo.
    fn set_tempo_multiplier(&mut self, multiplier_ppm: u32) -> (done: Result<(), PlaybackError>)
        ensures
            done is Ok,
            final(self)@ == (PlaybackEngineView {
                transport: old(self)@.transport.set_tempo_multiplier(multiplier_ppm),
                ..old(self)@
            }),
    {
        self.transport.set_tempo_multiplier(multiplier_ppm);
        Ok(())
    }

    fn set_mode(&mut self, mode: PlaybackMode) -> (done: Result<(), PlaybackError>)
        ensures
            done is Ok,
            final(self)@ == (PlaybackEngineView {
                scheduler: SchedulerView {
                    settings: crate::engine::scheduler::PlaybackSettings {
                        mode,
                        accompaniment: old(self)@.scheduler.settings.accompaniment,
                    },
                    ..old(self)@.scheduler
                },
                ..old(self)@
            }),
    {
        self.scheduler.set_mode(mode);
        Ok(())
    }

    /// One pass of the scheduler over the look-ahead window.
    fn poll_scheduled_events(&mut self, window_samples: u64) -> (polled: Result<
        Vec<ScheduledEvent>,
        PlaybackError,
    >)
        ensures
            polled matches Ok(emitted) && emitted@ == old(self)@.scheduler.pass_output(
                old(self)@.transport,
            ),
            final(self)@ == (PlaybackEngineView {
                transport: old(self)@.scheduler.transport_after_pass(old(self)@.transport),
                scheduler: old(self)@.scheduler.after_pass(old(self)@.transport),
                ..old(self)@
            }),
    {
        Ok(self.scheduler.schedule(&mut self.transport))
    }
}

} // verus!
