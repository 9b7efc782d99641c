use crate::ports::midi::MidiLikeEvent;
use crate::ports::types::Tick;
use vstd::prelude::*;

verus! {

#[derive(Clone, Copy, Debug, PartialEq, Eq, Hash, Structural)]
pub enum Hand {
    Left,
    Right,
}

#[derive(Clone, Debug)]
pub struct ScoreMeta {
    pub title: Option<String>,
    pub source: ScoreSource,
}

#[derive(Clone, Copy, Debug, PartialEq, Eq, Structural)]
pub enum ScoreSource {
    Midi,
    MusicXml,
    PdfOmr,
    Internal,
}

/// From `tick` on, one quarter note lasts `us_per_quarter` microseconds.
#[derive(Clone, Copy, Debug, PartialEq, Eq, Structural)]
pub struct TempoPoint {
    pub tick: Tick,
    pub us_per_quarter: u32,
}

#[derive(Clone, Debug)]
pub struct Score {
    pub meta: ScoreMeta,
    pub ppq: u16,
    pub tempo_map: Vec<TempoPoint>,
    pub tracks: Vec<Track>,
}

#[derive(Clone, Debug)]
pub struct Track {
    pub id: u32,
    pub name: String,
    pub hand: Option<Hand>,
    pub targets: Vec<TargetEvent>,
    pub playback_events: Vec<PlaybackMidiEvent>,
}

/// The set of pitches expected at one tick: the unit the judge resolves.
#[derive(Clone, Debug)]
pub struct TargetEvent {
    pub id: u64,
    pub tick: Tick,
    pub notes: Vec<u8>,
    pub hand: Option<Hand>,
    pub measure_index: Option<u32>,
}

/// One entry of the score's note and pedal list.
#[derive(Clone, Copy, Debug, PartialEq, Eq, Structural)]
pub struct PlaybackMidiEvent {
    pub tick: Tick,
    pub event: MidiLikeEvent,
    pub hand: Option<Hand>,
}

#[derive(Clone, Debug)]
pub struct ScoreFile {
    pub schema_version: String,
    pub score: Score,
    pub edit_log: Vec<String>,
}

/// Tempo assumed where a score states none: 120 quarter notes per minute.
pub const DEFAULT_US_PER_QUARTER: u32 = 500_000;

impl Score {
    /// An empty score at the default tempo.
    pub fn new(meta: ScoreMeta, ppq: u16) -> (score: Score)
        ensures
            score.meta == meta,
            score.ppq == ppq,
            score.tempo_map@ == seq![
                (TempoPoint { tick: 0, us_per_quarter: DEFAULT_US_PER_QUARTER }),
            ],
            score.tracks@.len() == 0,
    {
        let mut tempo_map: Vec<TempoPoint> = Vec::new();
        tempo_map.push(TempoPoint { tick: 0, us_per_quarter: DEFAULT_US_PER_QUARTER });
        Score { meta, ppq, tempo_map, tracks: Vec::new() }
    }
}

} // verus!
