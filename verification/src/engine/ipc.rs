//! Commands that the coordinator takes, and events that it publishes.

use crate::eval::judge::Grade;
use crate::ports::midi::MidiLikeEvent;
use crate::ports::playback::{LoopRange, PlaybackMode};
use crate::ports::storage::SettingsDto;
use crate::ports::types::{
    AudioConfig, AudioOutputDevice, Bus, DeviceId, MidiInputDevice, SampleTime, Tick, Volume01,
};
use crate::score::model::Hand;
use vstd::prelude::*;

verus! {

#[derive(Clone, Copy, Debug, PartialEq, Eq, Structural)]
pub struct PianoRollNoteDto {
    pub note: u8,
    pub start_tick: Tick,
    pub end_tick: Tick,
    pub velocity: u8,
    pub hand: Option<Hand>,
}

#[derive(Clone, Copy, Debug, PartialEq, Eq, Structural)]
pub struct PianoRollPedalDto {
    pub start_tick: Tick,
    pub end_tick: Tick,
}

#[derive(Clone, Debug)]
pub struct PianoRollTargetDto {
    pub id: u64,
    pub tick: Tick,
    pub notes: Vec<u8>,
}

/// Where a score comes from: a file, by its path, or a built-in demo, by
/// its name.
#[derive(Clone, Debug)]
pub enum ScoreSource {
    MidiFile(String),
    MusicXmlFile(String),
    InternalDemo(String),
}

#[derive(Clone, Debug)]
pub enum Command {
    GetSessionState,
    ListMidiInputs,
    SelectMidiInput { device_id: DeviceId },
    ListAudioOutputs,
    SelectAudioOutput { device_id: DeviceId, config: Option<AudioConfig> },
    TestAudio,
    SetMonitorEnabled { enabled: bool },
    SetBusVolume { bus: Bus, volume: Volume01 },
    SetMasterVolume { volume: Volume01 },
    LoadSoundFont { path: String },
    SetProgram { bus: Bus, gm_program: u8 },
    LoadScore { source: ScoreSource },
    SetPracticeRange { start_tick: Tick, end_tick: Tick },
    StartPractice,
    PausePractice,
    StopPractice,
    Seek { tick: Tick },
    SetLoop { enabled: bool, start_tick: Tick, end_tick: Tick },
    /// The playback speed in parts per million of the written tempo.
    SetTempoMultiplier { x_ppm: u32 },
    SetPlaybackMode { mode: PlaybackMode },
    SetAccompanimentRoute { play_left: bool, play_right: bool },
    SetInputOffsetMs { ms: i32 },
    SetAudiverisPath { path: String },
    ConvertPdfToMidi { pdf_path: String, output_path: String, audiveris_path: Option<String> },
    CancelPdfToMidi,
    ExportDiagnostics { path: String },
}

#[derive(Clone, Copy, Debug, PartialEq, Eq, Structural)]
pub enum SessionState {
    Idle,
    Ready,
    Running,
    Paused,
}

#[derive(Clone, Debug)]
pub enum Event {
    ScoreViewUpdated {
        title: Option<String>,
        ppq: u16,
        notes: Vec<PianoRollNoteDto>,
        targets: Vec<PianoRollTargetDto>,
        pedal: Vec<PianoRollPedalDto>,
    },
    MidiInputsUpdated { devices: Vec<MidiInputDevice> },
    AudioOutputsUpdated { devices: Vec<AudioOutputDevice> },
    SessionStateUpdated { state: SessionState, settings: SettingsDto },
    SoundFontStatus {
        loaded: bool,
        path: Option<String>,
        name: Option<String>,
        preset_count: Option<u32>,
        message: Option<String>,
    },
    OmrProgress { page: u32, total: u32, stage: String },
    OmrDiagnostics { severity: String, message: String, page: Option<u32> },
    PdfToMidiFinished {
        ok: bool,
        pdf_path: String,
        output_path: String,
        musicxml_path: Option<String>,
        diagnostics_path: Option<String>,
        message: String,
    },
    TransportUpdated {
        tick: Tick,
        sample_time: SampleTime,
        playing: bool,
        /// The playback speed in parts per million of the written tempo.
        tempo_multiplier_ppm: u32,
        loop_range: Option<LoopRange>,
    },
    JudgeFeedback {
        target_id: u64,
        grade: Grade,
        delta_tick: i64,
        expected_notes: Vec<u8>,
        played_notes: Vec<u8>,
    },
    ScoreSummaryUpdated {
        combo: u32,
        score: i64,
        /// Hits among the targets resolved, in parts per million.
        accuracy_ppm: u32,
    },
    MidiInputEvent { event: MidiLikeEvent },
    RecentInputEvents { events: Vec<MidiLikeEvent> },
}

} // verus!
