use crate::ports::midi::MidiLikeEvent;
use crate::ports::types::{Bus, SampleTime, Tick};
use vstd::prelude::*;

verus! {

#[derive(Clone, Copy, Debug, PartialEq, Eq, Structural)]
pub enum PlaybackMode {
    Demo,
    Accompaniment,
}

/// Half-open tick interval `[start_tick, end_tick)` that playback repeats.
#[derive(Clone, Copy, Debug, PartialEq, Eq, Structural)]
pub struct LoopRange {
    pub start_tick: Tick,
    pub end_tick: Tick,
}

#[derive(Clone, Copy, Debug, PartialEq, Eq, Structural)]
pub enum Hand {
    Left,
    Right,
}

/// Which hand, if any, a playback event was written for.
#[derive(Clone, Copy, Debug, PartialEq, Eq, Structural)]
pub enum PlaybackRouteHint {
    Neither,
    Left,
    Right,
}

#[derive(Clone, Copy, Debug, PartialEq, Eq, Structural)]
pub struct TempoPoint {
    pub tick: Tick,
    pub us_per_quarter: u32,
}

#[derive(Clone, Debug)]
pub struct PlaybackEvent {
    pub tick: Tick,
    pub event: MidiLikeEvent,
    pub route_hint: PlaybackRouteHint,
}

#[derive(Clone, Debug)]
pub struct PlaybackScore {
    pub ppq: u16,
    pub tempo_map: Vec<TempoPoint>,
    pub events: Vec<PlaybackEvent>,
}

/// An event bound to the audio sample at which a bus must receive it.
#[derive(Clone, Copy, Debug, PartialEq, Eq, Structural)]
pub struct ScheduledEvent {
    pub sample_time: SampleTime,
    pub bus: Bus,
    pub event: MidiLikeEvent,
}

#[derive(Clone, Debug)]
pub enum PlaybackError {
    InvalidScore(String),
    Backend(String),
}

/// A player of scores: it takes a score, follows the transport commands,
/// and hands out the events that fall due.
pub trait PlaybackPort {
    /// The player is in a state that every operation keeps.
    spec fn usable(&self) -> bool;

    fn load_score(&mut self, score: PlaybackScore) -> (loaded: Result<(), PlaybackError>)
        requires
            old(self).usable(),
        ensures
            final(self).usable(),
    ;

    fn play(&mut self) -> (done: Result<(), PlaybackError>)
        requires
            old(self).usable(),
        ensures
            final(self).usable(),
    ;

    fn pause(&mut self) -> (done: Result<(), PlaybackError>)
        requires
            old(self).usable(),
        ensures
            final(self).usable(),
    ;

    fn stop(&mut self) -> (done: Result<(), PlaybackError>)
        requires
            old(self).usable(),
        ensures
            final(self).usable(),
    ;

    fn seek(&mut self, tick: Tick) -> (done: Result<(), PlaybackError>)
        requires
            old(self).usable(),
        ensures
            final(self).usable(),
    ;

    fn set_loop(&mut self, range: Option<LoopRange>) -> (done: Result<(), PlaybackError>)
        requires
            old(self).usable(),
        ensures
            final(self).usable(),
    ;

    /// Sets the playback speed in parts per million of the written tempo.
    fn set_tempo_multiplier(&mut self, multiplier_ppm: u32) -> (done: Result<(), PlaybackError>)
        requires
            old(self).usable(),
        ensures
            final(self).usable(),
    ;

    fn set_mode(&mut self, mode: PlaybackMode) -> (done: Result<(), PlaybackError>)
        requires
            old(self).usable(),
        ensures
            final(self).usable(),
    ;

    /// The events that fall due within the look-ahead window.
    fn poll_scheduled_events(&mut self, window_samples: u64) -> (polled: Result<
        Vec<ScheduledEvent>,
        PlaybackError,
    >)
        requires
            old(self).usable(),
        ensures
            final(self).usable(),
    ;
}

} // verus!
