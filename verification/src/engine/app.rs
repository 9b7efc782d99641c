//! The coordinator: it owns transport, scheduler, judge and settings,
//! decides what a command or a tick of the control loop changes, and says
//! what is to be sent to the audio callback and what is left for the host
//! to do.

use crate::engine::app_support::{
    resolve_audio_config, resolve_audio_config_spec,
    accuracy_ppm, accuracy_ppm_spec, estimate_sample_time, estimate_sample_time_spec,
    expected_notes_for, expected_notes_for_spec, flush_events, flush_events_spec,
    test_note_events, test_note_events_spec, ClockAnchor,
};
use crate::engine::audio_params::{AudioParams, AudioParamsView};
use crate::engine::ipc::{
    Command, Event, PianoRollNoteDto, PianoRollPedalDto, PianoRollTargetDto, ScoreSource,
    SessionState,
};
use crate::engine::scheduler::{
    AccompanimentRoute, PlaybackSettings, Scheduler, SchedulerConfig, SchedulerView,
};
use crate::engine::score_view::{
    derive_note_spans, derive_pedal_spans, last_tick, pedal_changes, pedal_spans, roll_notes,
    NoteByStart, PedalChange, PedalChangeByTick,
};
use crate::engine::scheduler::PlaybackEventByTick;
use crate::engine::transport::{with_origin, TempoMapView, TempoPointByTick, Transport, TransportView};
use crate::sorting::{is_stable_sort_of, stable_sort, Key, KeyOrder};
use crate::eval::judge::{Grade, Judge, JudgeEvent, JudgeView, PlayerNoteOn};
use crate::ports::audio::AudioError;
use crate::ports::midi::{MidiError, MidiLikeEvent, PlayerEvent};
use crate::ports::omr::OmrError;
use crate::ports::playback::{LoopRange, ScheduledEvent};
use crate::ports::storage::{SettingsDto, StorageError};
use crate::ports::synth::SynthError;
use crate::ports::types::{
    add_ticks, sat_add_tick, AudioConfig, AudioOutputDevice, Bus, DeviceId, MidiInputDevice,
    SampleTime, Tick, Volume01,
};
use crate::score::model::{PlaybackMidiEvent, Score, TargetEvent, TempoPoint};
use vstd::prelude::*;

verus! {

#[derive(Clone, Debug)]
pub enum AppError {
    Audio(AudioError),
    Midi(MidiError),
    Omr(OmrError),
    Synth(SynthError),
    Storage(StorageError),
    InvalidState(String),
    ScoreLoad(String),
}

/// Least time between two transport updates that are not forced, in
/// nanoseconds.
pub const TRANSPORT_EMIT_INTERVAL: u64 = 33_000_000;

/// Least time between two batches of recent input, in nanoseconds.
pub const INPUT_EMIT_INTERVAL: u64 = 50_000_000;

/// The number of recent input events kept.
pub const RECENT_INPUT_LIMIT: usize = 20;

/// Pulses per quarter note of the transport.
pub const TRANSPORT_PPQ: u16 = 480;

/// Sample rate until an output is opened.
pub const INITIAL_SAMPLE_RATE_HZ: u32 = 48_000;

/// Look-ahead of the scheduler in milliseconds.
pub const LOOKAHEAD_MS: u64 = 30;

/// Work that the coordinator leaves to the host.
#[derive(Clone, Debug)]
pub enum HostRequest {
    Nothing,
    SaveSettings,
    ListMidiInputs,
    OpenMidiInput { device_id: DeviceId },
    ListAudioOutputs,
    /// Open the output, the first there is where none is named, and give
    /// the command again if `retry` is set.
    OpenAudioOutput { device_id: Option<DeviceId>, config: Option<AudioConfig>, retry: bool },
    LoadSoundFont { path: String },
    SetProgram { bus: Bus, gm_program: u8 },
    ImportScore { source: ScoreSource },
    ConvertPdfToMidi { pdf_path: String, output_path: String, audiveris_path: Option<String> },
    ExportDiagnostics { path: String },
}

/// What a step of the coordinator asks of its host: work to do, and events
/// to put into the queue of the audio callback, in order.
pub struct Outcome {
    pub request: HostRequest,
    pub to_audio: Vec<ScheduledEvent>,
}

/// An outcome as a mathematical value.
pub struct OutcomeView {
    pub request: HostRequest,
    pub to_audio: Seq<ScheduledEvent>,
}

impl Outcome {
    pub open spec fn view(&self) -> OutcomeView {
        OutcomeView { request: self.request, to_audio: self.to_audio@ }
    }
}

/// A target as shown in the piano roll, as a mathematical value.
pub struct PianoRollTargetView {
    pub id: u64,
    pub tick: Tick,
    pub notes: Seq<u8>,
}

/// A published event as a mathematical value.
pub enum EventView {
    ScoreViewUpdated {
        title: Option<String>,
        ppq: u16,
        notes: Seq<PianoRollNoteDto>,
        targets: Seq<PianoRollTargetView>,
        pedal: Seq<PianoRollPedalDto>,
    },
    MidiInputsUpdated { devices: Seq<MidiInputDevice> },
    AudioOutputsUpdated { devices: Seq<AudioOutputDevice> },
    SessionStateUpdated { state: SessionState, settings: SettingsDto },
    SoundFontStatus {
        loaded: bool,
        path: Option<String>,
        name: Option<String>,
        preset_count: Option<u32>,
        message: Option<String>,
    },
    TransportUpdated {
        tick: Tick,
        sample_time: SampleTime,
        playing: bool,
        tempo_multiplier_ppm: u32,
        loop_range: Option<LoopRange>,
    },
    JudgeFeedback {
        target_id: u64,
        grade: Grade,
        delta_tick: i64,
        expected_notes: Seq<u8>,
        played_notes: Seq<u8>,
    },
    ScoreSummaryUpdated { combo: u32, score: i64, accuracy_ppm: u32 },
    MidiInputEvent { event: MidiLikeEvent },
    RecentInputEvents { events: Seq<MidiLikeEvent> },
    /// An event of the host's own, which the coordinator never publishes.
    Foreign,
}

pub open spec fn target_view(t: PianoRollTargetDto) -> PianoRollTargetView {
    PianoRollTargetView { id: t.id, tick: t.tick, notes: t.notes@ }
}

pub open spec fn event_view(e: Event) -> EventView {
    match e {
        Event::ScoreViewUpdated { title, ppq, notes, targets, pedal } => {
            EventView::ScoreViewUpdated {
                title,
                ppq,
                notes: notes@,
                targets: targets@.map_values(|t: PianoRollTargetDto| target_view(t)),
                pedal: pedal@,
            }
        },
        Event::MidiInputsUpdated { devices } => EventView::MidiInputsUpdated { devices: devices@ },
        Event::AudioOutputsUpdated { devices } => EventView::AudioOutputsUpdated {
            devices: devices@,
        },
        Event::SessionStateUpdated { state, settings } => EventView::SessionStateUpdated {
            state,
            settings,
        },
        Event::SoundFontStatus { loaded, path, name, preset_count, message } => {
            EventView::SoundFontStatus { loaded, path, name, preset_count, message }
        },
        Event::TransportUpdated { tick, sample_time, playing, tempo_multiplier_ppm, loop_range } => {
            EventView::TransportUpdated {
                tick,
                sample_time,
                playing,
                tempo_multiplier_ppm,
                loop_range,
            }
        },
        Event::JudgeFeedback { target_id, grade, delta_tick, expected_notes, played_notes } => {
            EventView::JudgeFeedback {
                target_id,
                grade,
                delta_tick,
                expected_notes: expected_notes@,
                played_notes: played_notes@,
            }
        },
        Event::ScoreSummaryUpdated { combo, score, accuracy_ppm } => {
            EventView::ScoreSummaryUpdated { combo, score, accuracy_ppm }
        },
        Event::MidiInputEvent { event } => EventView::MidiInputEvent { event },
        Event::RecentInputEvents { events } => EventView::RecentInputEvents { events: events@ },
        _ => EventView::Foreign,
    }
}

/// What the host is told of one event of the judge: feedback for a hit
/// or a miss, the summary for new totals, nothing for a change of focus.
pub open spec fn feedback_of(targets: Seq<TargetEvent>, event: JudgeEvent) -> Seq<EventView> {
    match event {
        JudgeEvent::Hit { target_id, grade, delta_tick, .. } => seq![
            (EventView::JudgeFeedback {
                target_id,
                grade,
                delta_tick,
                expected_notes: expected_notes_for_spec(targets, target_id),
                played_notes: Seq::empty(),
            }),
        ],
        JudgeEvent::Miss { target_id, .. } => seq![
            (EventView::JudgeFeedback {
                target_id,
                grade: Grade::Miss,
                delta_tick: 0,
                expected_notes: expected_notes_for_spec(targets, target_id),
                played_notes: Seq::empty(),
            }),
        ],
        JudgeEvent::Stats { combo, score, hit, miss, .. } => seq![
            (EventView::ScoreSummaryUpdated {
                combo,
                score,
                accuracy_ppm: accuracy_ppm_spec(hit, miss),
            }),
        ],
        JudgeEvent::FocusChanged { .. } => Seq::empty(),
    }
}

/// What the host is told of the events of the judge, in their order.
pub open spec fn feedback_all(targets: Seq<TargetEvent>, events: Seq<JudgeEvent>) -> Seq<
    EventView,
>
    decreases events.len(),
{
    if events.len() == 0 {
        Seq::empty()
    } else {
        feedback_all(targets, events.drop_last()) + feedback_of(targets, events.last())
    }
}

/// The recent input with `event` added: the oldest entry gives way once
/// the limit is reached.
pub open spec fn with_recent(recent: Seq<MidiLikeEvent>, event: MidiLikeEvent) -> Seq<
    MidiLikeEvent,
> {
    if recent.len() >= RECENT_INPUT_LIMIT {
        recent.subrange(1, recent.len() as int).push(event)
    } else {
        recent.push(event)
    }
}

/// The coordinator as a mathematical value.
pub struct AppView {
    pub settings: SettingsDto,
    pub session_state: SessionState,
    pub transport: TransportView,
    pub scheduler: SchedulerView,
    pub judge: JudgeView,
    pub has_score: bool,
    /// The playback events of the score, as they were loaded.
    pub playback: Seq<PlaybackMidiEvent>,
    pub audio_params: AudioParamsView,
    pub audio_open: bool,
    pub midi_open: bool,
    /// What is published and not yet drained.
    pub events: Seq<EventView>,
    pub recent_inputs: Seq<MidiLikeEvent>,
    pub last_transport_emit: u64,
    pub last_input_emit: u64,
    pub clock_anchor: Option<ClockAnchor>,
}

impl AppView {
    pub open spec fn wf(self) -> bool {
        &&& self.transport.wf()
        &&& self.scheduler.wf()
        &&& self.judge.wf()
        &&& self.recent_inputs.len() <= RECENT_INPUT_LIMIT
    }

    pub open spec fn publish(self, event: EventView) -> AppView {
        AppView { events: self.events.push(event), ..self }
    }

    pub open spec fn publish_all(self, events: Seq<EventView>) -> AppView {
        AppView { events: self.events + events, ..self }
    }

    pub open spec fn session_event(self) -> EventView {
        EventView::SessionStateUpdated { state: self.session_state, settings: self.settings }
    }

    pub open spec fn emit_session_state(self) -> AppView {
        self.publish(self.session_event())
    }

    pub open spec fn transport_event(self) -> EventView {
        EventView::TransportUpdated {
            tick: self.transport.position_tick,
            sample_time: self.transport.position_sample,
            playing: self.session_state == SessionState::Running,
            tempo_multiplier_ppm: self.transport.multiplier_ppm,
            loop_range: self.scheduler.loop_range,
        }
    }

    /// A transport update is due at `now`: it is forced, or the last one is
    /// long enough ago.
    pub open spec fn transport_due(self, force: bool, now: u64) -> bool {
        force || now - self.last_transport_emit >= TRANSPORT_EMIT_INTERVAL
    }

    pub open spec fn emit_transport(self, force: bool, now: u64) -> AppView {
        if self.transport_due(force, now) {
            AppView { last_transport_emit: now, ..self.publish(self.transport_event()) }
        } else {
            self
        }
    }

    /// What silences the buses, if there is an output to send it to.
    pub open spec fn flush(self, audio_now: SampleTime) -> Seq<ScheduledEvent> {
        if self.audio_open {
            flush_events_spec(audio_now)
        } else {
            Seq::empty()
        }
    }

    pub open spec fn with_session(self, state: SessionState) -> AppView {
        AppView { session_state: state, ..self }
    }

    pub open spec fn with_playback_enabled(self, enabled: bool) -> AppView {
        AppView {
            audio_params: AudioParamsView { playback_enabled: enabled, ..self.audio_params },
            ..self
        }
    }

    pub open spec fn set_loop(self, range: Option<LoopRange>, now: u64) -> AppView {
        (AppView {
            scheduler: SchedulerView { loop_range: range, ..self.scheduler },
            transport: TransportView { loop_range: range, ..self.transport },
            ..self
        }).emit_transport(true, now)
    }

    pub open spec fn seek(self, tick: Tick, now: u64) -> AppView {
        (AppView {
            transport: self.transport.seek(tick),
            scheduler: self.scheduler.seek(tick),
            ..self
        }).emit_transport(true, now)
    }

    pub open spec fn pause(self) -> AppView {
        (AppView {
            transport: self.transport.with_state(
                crate::engine::transport::TransportState::Paused,
            ),
            ..self.with_session(SessionState::Paused).with_playback_enabled(false)
        }).emit_session_state()
    }

    pub open spec fn stop(self) -> AppView {
        let transport = self.transport.stop();
        (AppView {
            transport,
            scheduler: self.scheduler.seek(transport.position_tick),
            ..self.with_session(SessionState::Ready).with_playback_enabled(false)
        }).emit_session_state()
    }

    /// The coordinator set to run from the current tick, bound to the
    /// sample `audio_now`, before the first pass of the scheduler.
    pub open spec fn armed(self, audio_now: SampleTime) -> AppView {
        let aligned = self.transport.align_to_sample_time(audio_now);
        AppView {
            transport: aligned.with_state(crate::engine::transport::TransportState::Playing),
            scheduler: self.scheduler.seek(aligned.position_tick),
            ..self.with_session(SessionState::Running).with_playback_enabled(true)
        }
    }

    /// The coordinator after a pass of the scheduler.
    pub open spec fn after_pass(self) -> AppView {
        AppView {
            scheduler: self.scheduler.after_pass(self.transport),
            transport: self.scheduler.transport_after_pass(self.transport),
            ..self
        }
    }

    /// The pass of the scheduler is made: the session runs and there is an
    /// output.
    pub open spec fn schedules(self) -> bool {
        self.session_state == SessionState::Running && self.audio_open
    }

    pub open spec fn start(self, audio_now: SampleTime) -> AppView {
        self.armed(audio_now).after_pass().emit_session_state()
    }

    /// What a start sends to the audio callback: the flush, then the first
    /// pass of the scheduler.
    pub open spec fn start_output(self, audio_now: SampleTime) -> Seq<ScheduledEvent> {
        let armed = self.armed(audio_now);
        flush_events_spec(audio_now) + armed.scheduler.pass_output(armed.transport)
    }
}


/// Orders the targets of the piano roll by their tick.
pub struct TargetDtoByTick;

impl KeyOrder<PianoRollTargetDto> for TargetDtoByTick {
    open spec fn key(t: PianoRollTargetDto) -> Key {
        (t.tick as int, 0, 0)
    }

    fn le(a: &PianoRollTargetDto, b: &PianoRollTargetDto) -> (r: bool) {
        a.tick <= b.tick
    }
}

/// The targets `dtos` show the targets `targets`, one for one.
pub open spec fn shows_targets(dtos: Seq<PianoRollTargetDto>, targets: Seq<TargetEvent>) -> bool {
    &&& dtos.len() == targets.len()
    &&& forall|i: int|
        0 <= i < dtos.len() ==> (#[trigger] dtos[i]).id == targets[i].id && dtos[i].tick
            == targets[i].tick && dtos[i].notes@ == targets[i].notes@
}

/// The targets as the piano roll shows them, as mathematical values.
pub open spec fn target_views(shown: Seq<PianoRollTargetDto>) -> Seq<PianoRollTargetView> {
    shown.map_values(|t: PianoRollTargetDto| target_view(t))
}

/// `event` is the piano roll of a score with the title `title`, the
/// resolution `ppq`, the targets `targets` and the playback events
/// `playback`: its notes are the spans of the notes sorted by start and
/// pitch, its targets are the targets sorted by tick, its pedal spans are
/// those of the pedal changes sorted by tick.
pub open spec fn is_score_view_of(
    event: EventView,
    title: Option<String>,
    ppq: u16,
    targets: Seq<TargetEvent>,
    playback: Seq<PlaybackMidiEvent>,
) -> bool {
    match event {
        EventView::ScoreViewUpdated {
            title: shown_title,
            ppq: shown_ppq,
            notes,
            targets: shown_targets,
            pedal,
        } => {
            &&& shown_title == title
            &&& shown_ppq == ppq
            &&& is_stable_sort_of::<PianoRollNoteDto, NoteByStart>(notes, roll_notes(ppq, playback))
            &&& exists|shown: Seq<PianoRollTargetDto>, dtos: Seq<PianoRollTargetDto>| #[trigger]
                is_stable_sort_of::<PianoRollTargetDto, TargetDtoByTick>(shown, dtos)
                    && shows_targets(dtos, targets) && shown_targets == target_views(shown)
            &&& exists|sorted: Seq<PedalChange>| #[trigger]
                is_stable_sort_of::<PedalChange, PedalChangeByTick>(
                    sorted,
                    pedal_changes(playback),
                ) && pedal == pedal_spans(sorted, last_tick(playback))
        },
        _ => false,
    }
}

/// The piano roll of a score.
pub fn score_view_event(
    title: Option<String>,
    ppq: u16,
    targets: &Vec<TargetEvent>,
    playback: &Vec<PlaybackMidiEvent>,
) -> (event: Event)
    ensures
        is_score_view_of(event_view(event), title, ppq, targets@, playback@),
{
    let notes = derive_note_spans(ppq, playback);
    let pedal = derive_pedal_spans(playback);
    let mut shown: Vec<PianoRollTargetDto> = Vec::new();
    let mut i: usize = 0;
    while i < targets.len()
        invariant
            i <= targets@.len(),
            shows_targets(shown@, targets@.subrange(0, i as int)),
        decreases targets@.len() - i,
    {
        let target = &targets[i];
        shown.push(
            PianoRollTargetDto { id: target.id, tick: target.tick, notes: target.notes.clone() },
        );
        i = i + 1;
    }
    assert(targets@.subrange(0, targets@.len() as int) =~= targets@);
    let ghost dtos = shown@;
    stable_sort::<PianoRollTargetDto, TargetDtoByTick>(&mut shown);
    let event = Event::ScoreViewUpdated { title, ppq, notes, targets: shown, pedal };
    proof {
        assert(is_stable_sort_of::<PianoRollTargetDto, TargetDtoByTick>(shown@, dtos)
            && shows_targets(dtos, targets@));
    }
    event
}

/// Every tempo of `points` is positive.
pub open spec fn tempi_positive(points: Seq<TempoPoint>) -> bool {
    forall|i: int| 0 <= i < points.len() ==> (#[trigger] points[i]).us_per_quarter > 0
}

/// Whether every tempo of `points` is positive.
pub fn check_tempi(points: &Vec<TempoPoint>) -> (ok: bool)
    ensures
        ok == tempi_positive(points@),
{
    let mut i: usize = 0;
    while i < points.len()
        invariant
            i <= points@.len(),
            forall|j: int| 0 <= j < i ==> (#[trigger] points@[j]).us_per_quarter > 0,
        decreases points@.len() - i,
    {
        if points[i].us_per_quarter == 0 {
            return false;
        }
        i = i + 1;
    }
    true
}

/// A copy of playback events.
pub fn copy_playback(events: &Vec<PlaybackMidiEvent>) -> (copy: Vec<PlaybackMidiEvent>)
    ensures
        copy@ == events@,
{
    let mut copy: Vec<PlaybackMidiEvent> = Vec::new();
    let mut i: usize = 0;
    while i < events.len()
        invariant
            i <= events@.len(),
            copy@ == events@.subrange(0, i as int),
        decreases events@.len() - i,
    {
        copy.push(events[i]);
        assert(copy@ =~= events@.subrange(0, i + 1));
        i = i + 1;
    }
    assert(events@.subrange(0, events@.len() as int) =~= events@);
    copy
}

impl AppView {
    /// The state once a score is taken in whose tempo map is `tempo_map`,
    /// whose playback events are `playback`, in the order `sorted` for the
    /// scheduler, and whose targets are `targets`; before anything is
    /// published.
    pub open spec fn with_score(
        self,
        tempo_map: TempoMapView,
        playback: Seq<PlaybackMidiEvent>,
        sorted: Seq<PlaybackMidiEvent>,
        targets: Seq<TargetEvent>,
    ) -> AppView {
        AppView {
            transport: self.transport.with_tempo_map(tempo_map).seek(0),
            judge: JudgeView {
                cfg: self.judge.cfg,
                targets,
                idx: 0,
                focus: crate::eval::judge::focus_at(targets, 0),
                stats: self.judge.stats,
            },
            scheduler: SchedulerView { events: sorted, cursor: 0, ..self.scheduler },
            has_score: true,
            playback,
            ..self.with_session(SessionState::Ready).with_playback_enabled(false)
        }
    }
}

impl AppView {
    /// The state once an output is about to be opened with what
    /// `requested` and `device_default` resolve to: the sample rate is
    /// taken over, the origin is at sample 0, and the scheduler starts
    /// over with the events `sorted`, without a loop and in demo mode.
    pub open spec fn prepared(
        self,
        requested: Option<AudioConfig>,
        device_default: Option<AudioConfig>,
        sorted: Seq<PlaybackMidiEvent>,
    ) -> AppView {
        let (config, kept) = resolve_audio_config_spec(
            requested,
            device_default,
            self.settings.audio_buffer_size_frames,
        );
        AppView {
            settings: SettingsDto { audio_buffer_size_frames: kept, ..self.settings },
            transport: self.transport.set_sample_rate(config.sample_rate_hz).set_origin_sample(0),
            scheduler: SchedulerView {
                config: SchedulerConfig { lookahead_ms: LOOKAHEAD_MS },
                events: sorted,
                cursor: 0,
                loop_range: None,
                settings: PlaybackSettings {
                    mode: crate::ports::playback::PlaybackMode::Demo,
                    accompaniment: AccompanimentRoute { play_left: true, play_right: true },
                },
                sample_rate_hz: config.sample_rate_hz,
            },
            audio_open: false,
            ..self
        }
    }

    pub open spec fn audio_output_opened(self, device_id: DeviceId) -> AppView {
        (AppView {
            audio_open: true,
            settings: SettingsDto { selected_audio_out: Some(device_id), ..self.settings },
            ..self.with_playback_enabled(self.session_state == SessionState::Running)
        }).emit_session_state()
    }

    pub open spec fn midi_input_opened(self, device_id: DeviceId) -> AppView {
        (AppView {
            midi_open: true,
            settings: SettingsDto { selected_midi_in: Some(device_id), ..self.settings },
            ..self
        }).emit_session_state()
    }

    /// The time at which the player's event `e` sounded, in samples.
    pub open spec fn input_sample_time(self, e: PlayerEvent, audio_now: SampleTime) -> SampleTime {
        estimate_sample_time_spec(
            self.clock_anchor,
            e.at,
            self.transport.sample_rate_hz,
            audio_now,
        )
    }

    /// The tick at which the player's event `e` is judged: that of its
    /// sample time while the session runs, else the current tick, moved by
    /// the input offset.
    pub open spec fn input_tick(self, e: PlayerEvent, audio_now: SampleTime) -> Tick {
        let offset = self.transport.ms_to_ticks(self.settings.input_offset_ms);
        if self.session_state == SessionState::Running {
            sat_add_tick(self.transport.sample_to_tick(self.input_sample_time(e, audio_now)), offset)
        } else {
            sat_add_tick(self.transport.position_tick, offset)
        }
    }

    /// The state after the events `judged` of the judge, which is left as
    /// `judge`, are reported.
    pub open spec fn judged(self, judge: JudgeView, judged: Seq<JudgeEvent>) -> AppView {
        (AppView { judge, ..self }).publish_all(feedback_all(self.judge.targets, judged))
    }

    /// The state after one event of the player: it is recorded and
    /// published, and a note on is judged.
    pub open spec fn after_input(self, e: PlayerEvent, audio_now: SampleTime) -> AppView {
        let noted = (AppView {
            recent_inputs: with_recent(self.recent_inputs, e.event),
            ..self
        }).publish(EventView::MidiInputEvent { event: e.event });
        match e.event {
            MidiLikeEvent::NoteOn { note, velocity } => {
                let played = PlayerNoteOn { tick: self.input_tick(e, audio_now), note, velocity };
                noted.judged(noted.judge.on_note_on(played).0, noted.judge.on_note_on(played).1)
            },
            _ => noted,
        }
    }

    /// What one event of the player sends to the audio callback: the event
    /// itself on the monitor bus, at its sample time without the input
    /// offset, if the monitor is on.
    pub open spec fn input_output(self, e: PlayerEvent, audio_now: SampleTime) -> Seq<
        ScheduledEvent,
    > {
        if self.settings.monitor_enabled {
            seq![
                (ScheduledEvent {
                    sample_time: self.input_sample_time(e, audio_now),
                    bus: Bus::UserMonitor,
                    event: e.event,
                }),
            ]
        } else {
            Seq::empty()
        }
    }

    /// The state after the events `inputs` of the player, in their order.
    pub open spec fn after_inputs(self, inputs: Seq<PlayerEvent>, audio_now: SampleTime) -> AppView
        decreases inputs.len(),
    {
        if inputs.len() == 0 {
            self
        } else {
            self.after_inputs(inputs.drop_last(), audio_now).after_input(inputs.last(), audio_now)
        }
    }

    /// What the events `inputs` of the player send to the audio callback.
    pub open spec fn inputs_output(self, inputs: Seq<PlayerEvent>, audio_now: SampleTime) -> Seq<
        ScheduledEvent,
    >
        decreases inputs.len(),
    {
        if inputs.len() == 0 {
            Seq::empty()
        } else {
            self.inputs_output(inputs.drop_last(), audio_now) + self.after_inputs(
                inputs.drop_last(),
                audio_now,
            ).input_output(inputs.last(), audio_now)
        }
    }

    /// Input is taken: a MIDI input and an audio output are open.
    pub open spec fn takes_input(self) -> bool {
        self.midi_open && self.audio_open
    }

    /// The first steps of a tick: the clock is anchored, and the transport
    /// follows it while the session runs.
    pub open spec fn synced(self, now: u64, audio_now: SampleTime) -> AppView {
        AppView {
            clock_anchor: if self.audio_open {
                Some(ClockAnchor { at: now, sample_time: audio_now })
            } else {
                None
            },
            transport: if self.session_state == SessionState::Running {
                self.transport.sync_to_sample_time(audio_now)
            } else {
                self.transport
            },
            ..self
        }
    }

    /// The judge is brought up to the current tick while the session runs.
    pub open spec fn judge_advanced(self) -> AppView {
        if self.session_state == SessionState::Running {
            self.judged(
                self.judge.advance_to(self.transport.position_tick).0,
                self.judge.advance_to(self.transport.position_tick).1,
            )
        } else {
            self
        }
    }

    /// The pass of the scheduler, where one is made.
    pub open spec fn scheduled(self) -> AppView {
        if self.schedules() {
            self.after_pass()
        } else {
            self
        }
    }

    /// What the pass of the scheduler sends to the audio callback.
    pub open spec fn scheduled_output(self) -> Seq<ScheduledEvent> {
        if self.schedules() {
            self.scheduler.pass_output(self.transport)
        } else {
            Seq::empty()
        }
    }

    /// A batch of recent input is due at `now`.
    pub open spec fn input_batch_due(self, now: u64) -> bool {
        now - self.last_input_emit >= INPUT_EMIT_INTERVAL
    }

    pub open spec fn emit_recent_inputs(self, now: u64) -> AppView {
        if !self.input_batch_due(now) {
            self
        } else if self.recent_inputs.len() > 0 {
            AppView {
                last_input_emit: now,
                ..self.publish(EventView::RecentInputEvents { events: self.recent_inputs })
            }
        } else {
            AppView { last_input_emit: now, ..self }
        }
    }

    /// The state before the pass of the scheduler in a tick.
    pub open spec fn before_pass(self, now: u64, audio_now: SampleTime, inputs: Seq<PlayerEvent>)
        -> AppView {
        let synced = self.synced(now, audio_now);
        let heard = if synced.takes_input() {
            synced.after_inputs(inputs, audio_now)
        } else {
            synced
        };
        heard.judge_advanced()
    }

    /// The state after a tick of the control loop at time `now`, with the
    /// audio clock at `audio_now` and the events `inputs` of the player.
    pub open spec fn after_tick(self, now: u64, audio_now: SampleTime, inputs: Seq<PlayerEvent>)
        -> AppView {
        self.before_pass(now, audio_now, inputs).scheduled().emit_transport(
            false,
            now,
        ).emit_recent_inputs(now)
    }

    /// What a tick sends to the audio callback: the player's events for the
    /// monitor, then what the scheduler emits.
    pub open spec fn tick_output(self, now: u64, audio_now: SampleTime, inputs: Seq<PlayerEvent>)
        -> Seq<ScheduledEvent> {
        let synced = self.synced(now, audio_now);
        let monitored = if synced.takes_input() {
            synced.inputs_output(inputs, audio_now)
        } else {
            Seq::empty()
        };
        monitored + self.before_pass(now, audio_now, inputs).scheduled_output()
    }
}

/// What a command answers, as a mathematical value: an outcome, or the
/// message of an invalid state.
pub enum ReplyView {
    Done(OutcomeView),
    InvalidState(Seq<char>),
    Failed,
}

pub open spec fn reply_view(reply: Result<Outcome, AppError>) -> ReplyView {
    match reply {
        Ok(outcome) => ReplyView::Done(outcome@),
        Err(AppError::InvalidState(message)) => ReplyView::InvalidState(message@),
        Err(_) => ReplyView::Failed,
    }
}

pub open spec fn done(request: HostRequest, to_audio: Seq<ScheduledEvent>) -> ReplyView {
    ReplyView::Done(OutcomeView { request, to_audio })
}

impl AppView {
    pub open spec fn get_session_state(self, now: u64) -> AppView {
        self.emit_session_state().emit_transport(true, now)
    }

    pub open spec fn set_monitor_enabled(self, enabled: bool) -> AppView {
        (AppView {
            settings: SettingsDto { monitor_enabled: enabled, ..self.settings },
            audio_params: AudioParamsView { monitor_enabled: enabled, ..self.audio_params },
            ..self
        }).emit_session_state()
    }

    pub open spec fn set_bus_volume(self, bus: Bus, volume: Volume01) -> AppView {
        (AppView {
            settings: match bus {
                Bus::UserMonitor => SettingsDto { bus_user_volume: volume, ..self.settings },
                Bus::Autopilot => SettingsDto { bus_autopilot_volume: volume, ..self.settings },
                Bus::MetronomeFx => SettingsDto { bus_metronome_volume: volume, ..self.settings },
            },
            audio_params: self.audio_params.with_bus(bus, volume@),
            ..self
        }).emit_session_state()
    }

    pub open spec fn set_master_volume(self, volume: Volume01) -> AppView {
        (AppView {
            settings: SettingsDto { master_volume: volume, ..self.settings },
            audio_params: AudioParamsView { master: volume@, ..self.audio_params },
            ..self
        }).emit_session_state()
    }

    pub open spec fn set_tempo_multiplier(self, x_ppm: u32, now: u64) -> AppView {
        (AppView {
            transport: self.transport.set_tempo_multiplier(x_ppm),
            ..self
        }).emit_transport(true, now)
    }

    pub open spec fn set_playback_settings(self, settings: PlaybackSettings) -> AppView {
        AppView { scheduler: SchedulerView { settings, ..self.scheduler }, ..self }
    }

    pub open spec fn set_input_offset_ms(self, ms: i32) -> AppView {
        (AppView {
            settings: SettingsDto { input_offset_ms: ms, ..self.settings },
            ..self
        }).emit_session_state()
    }

    pub open spec fn set_audiveris_path(self, path: String) -> AppView {
        AppView { settings: SettingsDto { audiveris_path: Some(path), ..self.settings }, ..self }
    }

    /// A start is carried out: the session does not run yet, a score is
    /// loaded and an output is open.
    pub open spec fn can_start(self) -> bool {
        self.session_state != SessionState::Running && self.has_score && self.audio_open
    }

    pub open spec fn start_practice(self, audio_now: SampleTime) -> AppView {
        if self.can_start() {
            self.start(audio_now)
        } else {
            self
        }
    }

    /// What a request to open the output that is kept in the settings looks
    /// like.
    pub open spec fn reopen_request(self) -> HostRequest {
        HostRequest::OpenAudioOutput {
            device_id: self.settings.selected_audio_out,
            config: None,
            retry: true,
        }
    }

    pub open spec fn start_reply(self, audio_now: SampleTime) -> ReplyView {
        if self.session_state == SessionState::Running {
            done(HostRequest::Nothing, Seq::empty())
        } else if !self.has_score {
            ReplyView::InvalidState("no score loaded"@)
        } else if !self.audio_open {
            done(self.reopen_request(), Seq::empty())
        } else {
            done(HostRequest::Nothing, self.start_output(audio_now))
        }
    }

    pub open spec fn test_audio_reply(self, audio_now: SampleTime) -> ReplyView {
        if !self.settings.monitor_enabled {
            ReplyView::InvalidState(
                "Monitor is disabled (Settings -> Monitor). Enable it to hear the test note."@,
            )
        } else if !self.audio_open {
            done(self.reopen_request(), Seq::empty())
        } else {
            done(
                HostRequest::Nothing,
                test_note_events_spec(audio_now, self.transport.sample_rate_hz),
            )
        }
    }

    /// The state after the command `cmd`, given at time `now` with the
    /// audio clock at `audio_now`.
    pub open spec fn after_command(self, cmd: Command, now: u64, audio_now: SampleTime) -> AppView {
        match cmd {
            Command::GetSessionState => self.get_session_state(now),
            Command::SetMonitorEnabled { enabled } => self.set_monitor_enabled(enabled),
            Command::SetBusVolume { bus, volume } => self.set_bus_volume(bus, volume),
            Command::SetMasterVolume { volume } => self.set_master_volume(volume),
            Command::SetPracticeRange { start_tick, end_tick } => self.set_loop(
                Some(LoopRange { start_tick, end_tick }),
                now,
            ),
            Command::StartPractice => self.start_practice(audio_now),
            Command::PausePractice => self.pause(),
            Command::StopPractice => self.stop(),
            Command::Seek { tick } => self.seek(tick, now),
            Command::SetLoop { enabled, start_tick, end_tick } => self.set_loop(
                if enabled {
                    Some(LoopRange { start_tick, end_tick })
                } else {
                    None
                },
                now,
            ),
            Command::SetTempoMultiplier { x_ppm } => self.set_tempo_multiplier(x_ppm, now),
            Command::SetPlaybackMode { mode } => self.set_playback_settings(
                PlaybackSettings { mode, accompaniment: self.scheduler.settings.accompaniment },
            ),
            Command::SetAccompanimentRoute { play_left, play_right } => self.set_playback_settings(
                PlaybackSettings {
                    mode: self.scheduler.settings.mode,
                    accompaniment: AccompanimentRoute { play_left, play_right },
                },
            ),
            Command::SetInputOffsetMs { ms } => self.set_input_offset_ms(ms),
            Command::SetAudiverisPath { path } => self.set_audiveris_path(path),
            _ => self,
        }
    }

    /// What the command `cmd` answers.
    pub open spec fn reply_to(self, cmd: Command, now: u64, audio_now: SampleTime) -> ReplyView {
        match cmd {
            Command::ListMidiInputs => done(HostRequest::ListMidiInputs, Seq::empty()),
            Command::SelectMidiInput { device_id } => done(
                HostRequest::OpenMidiInput { device_id },
                Seq::empty(),
            ),
            Command::ListAudioOutputs => done(HostRequest::ListAudioOutputs, Seq::empty()),
            Command::SelectAudioOutput { device_id, config } => done(
                HostRequest::OpenAudioOutput { device_id: Some(device_id), config, retry: false },
                Seq::empty(),
            ),
            Command::TestAudio => self.test_audio_reply(audio_now),
            Command::SetMonitorEnabled { .. } => done(HostRequest::SaveSettings, Seq::empty()),
            Command::SetBusVolume { .. } => done(HostRequest::SaveSettings, Seq::empty()),
            Command::SetMasterVolume { .. } => done(HostRequest::SaveSettings, Seq::empty()),
            Command::LoadSoundFont { path } => done(
                HostRequest::LoadSoundFont { path },
                Seq::empty(),
            ),
            Command::SetProgram { bus, gm_program } => done(
                HostRequest::SetProgram { bus, gm_program },
                Seq::empty(),
            ),
            Command::LoadScore { source } => done(
                HostRequest::ImportScore { source },
                Seq::empty(),
            ),
            Command::StartPractice => self.start_reply(audio_now),
            Command::PausePractice => done(HostRequest::Nothing, self.flush(audio_now)),
            Command::StopPractice => done(HostRequest::Nothing, self.flush(audio_now)),
            Command::Seek { .. } => done(HostRequest::Nothing, self.flush(audio_now)),
            Command::SetInputOffsetMs { .. } => done(HostRequest::SaveSettings, Seq::empty()),
            Command::SetAudiverisPath { .. } => done(HostRequest::SaveSettings, Seq::empty()),
            Command::ConvertPdfToMidi { pdf_path, output_path, audiveris_path } => done(
                HostRequest::ConvertPdfToMidi {
                    pdf_path,
                    output_path,
                    audiveris_path: if audiveris_path is Some {
                        audiveris_path
                    } else {
                        self.settings.audiveris_path
                    },
                },
                Seq::empty(),
            ),
            Command::ExportDiagnostics { path } => done(
                HostRequest::ExportDiagnostics { path },
                Seq::empty(),
            ),
            _ => done(HostRequest::Nothing, Seq::empty()),
        }
    }
}

/// A copy of an optional text.
pub fn copy_text(text: &Option<String>) -> (copy: Option<String>)
    ensures
        copy == *text,
{
    match text {
        Some(s) => Some(s.clone()),
        None => None,
    }
}

/// A copy of an optional device identifier.
pub fn copy_device(id: &Option<DeviceId>) -> (copy: Option<DeviceId>)
    ensures
        copy == *id,
{
    match id {
        Some(id) => Some(DeviceId(id.0.clone())),
        None => None,
    }
}

/// A copy of the settings.
pub fn copy_settings(settings: &SettingsDto) -> (copy: SettingsDto)
    ensures
        copy == *settings,
{
    SettingsDto {
        selected_midi_in: copy_device(&settings.selected_midi_in),
        selected_audio_out: copy_device(&settings.selected_audio_out),
        audio_buffer_size_frames: settings.audio_buffer_size_frames,
        monitor_enabled: settings.monitor_enabled,
        master_volume: settings.master_volume,
        bus_user_volume: settings.bus_user_volume,
        bus_autopilot_volume: settings.bus_autopilot_volume,
        bus_metronome_volume: settings.bus_metronome_volume,
        input_offset_ms: settings.input_offset_ms,
        default_sf2_path: copy_text(&settings.default_sf2_path),
        audiveris_path: copy_text(&settings.audiveris_path),
    }
}

/// Owns transport, scheduler, judge, settings and what is published, and
/// decides what commands and ticks of the control loop change.
pub struct AppCore {
    settings: SettingsDto,
    session_state: SessionState,
    transport: Transport,
    scheduler: Scheduler,
    judge: Judge,
    has_score: bool,
    playback: Vec<PlaybackMidiEvent>,
    audio_params: AudioParams,
    audio_open: bool,
    midi_open: bool,
    events: Vec<Event>,
    recent_inputs: Vec<MidiLikeEvent>,
    last_transport_emit: u64,
    last_input_emit: u64,
    clock_anchor: Option<ClockAnchor>,
}

impl AppCore {
    pub closed spec fn view(&self) -> AppView {
        AppView {
            settings: self.settings,
            session_state: self.session_state,
            transport: self.transport@,
            scheduler: self.scheduler@,
            judge: self.judge@,
            has_score: self.has_score,
            playback: self.playback@,
            audio_params: self.audio_params@,
            audio_open: self.audio_open,
            midi_open: self.midi_open,
            events: self.events@.map_values(|e: Event| event_view(e)),
            recent_inputs: self.recent_inputs@,
            last_transport_emit: self.last_transport_emit,
            last_input_emit: self.last_input_emit,
            clock_anchor: self.clock_anchor,
        }
    }

    pub closed spec fn wf(&self) -> bool {
        &&& self.transport.wf()
        &&& self.scheduler.wf()
        &&& self.judge.wf()
        &&& self.recent_inputs@.len() <= RECENT_INPUT_LIMIT
    }

    /// A well-formed coordinator has a well-formed view.
    pub proof fn lemma_view_wf(&self)
        requires
            self.wf(),
        ensures
            self@.wf(),
    {
        self.judge.lemma_view_wf();
    }

    /// An idle coordinator with the settings `settings`, made at time `now`.
    pub fn new(settings: SettingsDto, now: u64) -> (core: AppCore)
        ensures
            core.wf(),
            core@.settings == settings,
            core@.session_state == SessionState::Idle,
            core@.transport.state == crate::engine::transport::TransportState::Stopped,
            core@.transport.ppq == TRANSPORT_PPQ,
            core@.transport.sample_rate_hz == INITIAL_SAMPLE_RATE_HZ,
            core@.transport.position_tick == 0,
            core@.transport.position_sample == 0,
            core@.transport.origin_sample == 0,
            core@.transport.loop_range is None,
            core@.scheduler.events.len() == 0,
            core@.scheduler.loop_range is None,
            core@.scheduler.sample_rate_hz == INITIAL_SAMPLE_RATE_HZ,
            core@.scheduler.config.lookahead_ms == LOOKAHEAD_MS,
            core@.judge.targets.len() == 0,
            !core@.has_score,
            core@.audio_params == AudioParamsView::of_settings(settings),
            !core@.audio_open,
            !core@.midi_open,
            core@.events.len() == 0,
            core@.recent_inputs.len() == 0,
            core@.last_transport_emit == now,
            core@.last_input_emit == now,
            core@.clock_anchor is None,
    {
        let audio_params = AudioParams::new(&settings);
        let transport = Transport::new(TRANSPORT_PPQ, INITIAL_SAMPLE_RATE_HZ, Vec::new());
        let scheduler = Scheduler::new(
            INITIAL_SAMPLE_RATE_HZ,
            SchedulerConfig { lookahead_ms: LOOKAHEAD_MS },
        );
        let judge = Judge::new(crate::engine::app_support::default_judge_config());
        let core = AppCore {
            settings,
            session_state: SessionState::Idle,
            transport,
            scheduler,
            judge,
            has_score: false,
            playback: Vec::new(),
            audio_params,
            audio_open: false,
            midi_open: false,
            events: Vec::new(),
            recent_inputs: Vec::new(),
            last_transport_emit: now,
            last_input_emit: now,
            clock_anchor: None,
        };
        assert(core@.events =~= Seq::<EventView>::empty());
        core
    }

    /// Hands out what was published since the last call.
    pub fn drain_events(&mut self) -> (events: Vec<Event>)
        ensures
            events@.map_values(|e: Event| event_view(e)) == old(self)@.events,
            final(self)@ == (AppView { events: Seq::empty(), ..old(self)@ }),
            old(self).wf() ==> final(self).wf(),
    {
        let mut events: Vec<Event> = Vec::new();
        core::mem::swap(&mut events, &mut self.events);
        assert(self@.events =~= Seq::<EventView>::empty());
        events
    }

    pub fn session_state(&self) -> (state: SessionState)
        ensures
            state == self@.session_state,
    {
        self.session_state
    }

    /// The most recent input events, oldest first.
    pub fn recent_inputs(&self) -> (recent: &Vec<MidiLikeEvent>)
        ensures
            recent@ == self@.recent_inputs,
    {
        &self.recent_inputs
    }

    pub fn settings(&self) -> (settings: &SettingsDto)
        ensures
            *settings == self@.settings,
    {
        &self.settings
    }

    pub fn audio_params(&self) -> (params: AudioParams)
        ensures
            params@ == self@.audio_params,
    {
        self.audio_params
    }

    fn publish(&mut self, event: Event)
        ensures
            final(self)@ == old(self)@.publish(event_view(event)),
            old(self).wf() ==> final(self).wf(),
    {
        self.events.push(event);
        assert(self@.events =~= old(self)@.events.push(event_view(event)));
    }

    fn emit_session_state(&mut self)
        ensures
            final(self)@ == old(self)@.emit_session_state(),
            old(self).wf() ==> final(self).wf(),
    {
        let settings = copy_settings(&self.settings);
        self.publish(Event::SessionStateUpdated { state: self.session_state, settings });
    }

    fn emit_transport(&mut self, force: bool, now: u64)
        ensures
            final(self)@ == old(self)@.emit_transport(force, now),
            old(self).wf() ==> final(self).wf(),
    {
        if !force && now.saturating_sub(self.last_transport_emit) < TRANSPORT_EMIT_INTERVAL {
            return ;
        }
        let playing = match self.session_state {
            SessionState::Running => true,
            _ => false,
        };
        self.publish(
            Event::TransportUpdated {
                tick: self.transport.now_tick(),
                sample_time: self.transport.now_sample(),
                playing,
                tempo_multiplier_ppm: self.transport.tempo_multiplier(),
                loop_range: self.scheduler.loop_range(),
            },
        );
        self.last_transport_emit = now;
    }

    fn flush_audio_notes(&self, audio_now: SampleTime) -> (events: Vec<ScheduledEvent>)
        ensures
            events@ == self@.flush(audio_now),
    {
        if self.audio_open {
            flush_events(audio_now)
        } else {
            Vec::new()
        }
    }

    fn set_loop(&mut self, range: Option<LoopRange>, now: u64)
        requires
            old(self).wf(),
        ensures
            final(self).wf(),
            final(self)@ == old(self)@.set_loop(range, now),
    {
        self.scheduler.set_loop(range);
        self.transport.set_loop(range);
        self.emit_transport(true, now);
    }

    fn start(&mut self, audio_now: SampleTime) -> (to_audio: Vec<ScheduledEvent>)
        requires
            old(self).wf(),
            old(self)@.audio_open,
        ensures
            final(self).wf(),
            final(self)@ == old(self)@.start(audio_now),
            to_audio@ == old(self)@.start_output(audio_now),
    {
        self.transport.align_to_sample_time(audio_now);
        self.scheduler.seek(self.transport.now_tick());
        let mut to_audio = flush_events(audio_now);
        self.session_state = SessionState::Running;
        self.transport.play();
        self.audio_params.set_playback_enabled(true);
        let mut scheduled = self.scheduler.schedule(&mut self.transport);
        to_audio.append(&mut scheduled);
        self.emit_session_state();
        to_audio
    }

    fn get_session_state(&mut self, now: u64)
        requires
            old(self).wf(),
        ensures
            final(self).wf(),
            final(self)@ == old(self)@.get_session_state(now),
    {
        self.emit_session_state();
        self.emit_transport(true, now);
    }

    fn set_monitor_enabled(&mut self, enabled: bool)
        requires
            old(self).wf(),
        ensures
            final(self).wf(),
            final(self)@ == old(self)@.set_monitor_enabled(enabled),
    {
        self.settings.monitor_enabled = enabled;
        self.audio_params.set_monitor_enabled(enabled);
        self.emit_session_state();
    }

    fn set_bus_volume(&mut self, bus: Bus, volume: Volume01)
        requires
            old(self).wf(),
        ensures
            final(self).wf(),
            final(self)@ == old(self)@.set_bus_volume(bus, volume),
    {
        match bus {
            Bus::UserMonitor => {
                self.settings.bus_user_volume = volume;
            },
            Bus::Autopilot => {
                self.settings.bus_autopilot_volume = volume;
            },
            Bus::MetronomeFx => {
                self.settings.bus_metronome_volume = volume;
            },
        }
        self.audio_params.set_bus(bus, volume);
        self.emit_session_state();
    }

    fn set_master_volume(&mut self, volume: Volume01)
        requires
            old(self).wf(),
        ensures
            final(self).wf(),
            final(self)@ == old(self)@.set_master_volume(volume),
    {
        self.settings.master_volume = volume;
        self.audio_params.set_master(volume);
        self.emit_session_state();
    }

    fn start_practice(&mut self, audio_now: SampleTime) -> (reply: Result<Outcome, AppError>)
        requires
            old(self).wf(),
        ensures
            final(self).wf(),
            final(self)@ == old(self)@.start_practice(audio_now),
            reply_view(reply) == old(self)@.start_reply(audio_now),
    {
        match self.session_state {
            SessionState::Running => {
                return Ok(Outcome { request: HostRequest::Nothing, to_audio: Vec::new() });
            },
            _ => {},
        }
        if !self.has_score {
            return Err(AppError::InvalidState("no score loaded".to_string()));
        }
        if !self.audio_open {
            return Ok(
                Outcome {
                    request: HostRequest::OpenAudioOutput {
                        device_id: copy_device(&self.settings.selected_audio_out),
                        config: None,
                        retry: true,
                    },
                    to_audio: Vec::new(),
                },
            );
        }
        let to_audio = self.start(audio_now);
        Ok(Outcome { request: HostRequest::Nothing, to_audio })
    }

    fn test_audio(&self, audio_now: SampleTime) -> (reply: Result<Outcome, AppError>)
        requires
            self.wf(),
        ensures
            reply_view(reply) == self@.test_audio_reply(audio_now),
    {
        if !self.settings.monitor_enabled {
            return Err(
                AppError::InvalidState(
                    "Monitor is disabled (Settings -> Monitor). Enable it to hear the test note.".to_string(),
                ),
            );
        }
        if !self.audio_open {
            return Ok(
                Outcome {
                    request: HostRequest::OpenAudioOutput {
                        device_id: copy_device(&self.settings.selected_audio_out),
                        config: None,
                        retry: true,
                    },
                    to_audio: Vec::new(),
                },
            );
        }
        let to_audio = test_note_events(audio_now, self.transport.sample_rate_hz());
        Ok(Outcome { request: HostRequest::Nothing, to_audio })
    }

    fn pause(&mut self, audio_now: SampleTime) -> (to_audio: Vec<ScheduledEvent>)
        requires
            old(self).wf(),
        ensures
            final(self).wf(),
            final(self)@ == old(self)@.pause(),
            to_audio@ == old(self)@.flush(audio_now),
    {
        self.session_state = SessionState::Paused;
        self.transport.pause();
        self.audio_params.set_playback_enabled(false);
        self.emit_session_state();
        self.flush_audio_notes(audio_now)
    }

    fn stop(&mut self, audio_now: SampleTime) -> (to_audio: Vec<ScheduledEvent>)
        requires
            old(self).wf(),
        ensures
            final(self).wf(),
            final(self)@ == old(self)@.stop(),
            to_audio@ == old(self)@.flush(audio_now),
    {
        self.session_state = SessionState::Ready;
        self.transport.stop();
        self.scheduler.seek(self.transport.now_tick());
        self.audio_params.set_playback_enabled(false);
        self.emit_session_state();
        self.flush_audio_notes(audio_now)
    }

    fn seek(&mut self, tick: Tick, now: u64, audio_now: SampleTime) -> (to_audio: Vec<
        ScheduledEvent,
    >)
        requires
            old(self).wf(),
        ensures
            final(self).wf(),
            final(self)@ == old(self)@.seek(tick, now),
            to_audio@ == old(self)@.flush(audio_now),
    {
        self.transport.seek(tick);
        self.scheduler.seek(tick);
        let to_audio = self.flush_audio_notes(audio_now);
        self.emit_transport(true, now);
        to_audio
    }

    fn set_tempo_multiplier(&mut self, x_ppm: u32, now: u64)
        requires
            old(self).wf(),
        ensures
            final(self).wf(),
            final(self)@ == old(self)@.set_tempo_multiplier(x_ppm, now),
    {
        self.transport.set_tempo_multiplier(x_ppm);
        self.emit_transport(true, now);
    }

    fn set_input_offset_ms(&mut self, ms: i32)
        requires
            old(self).wf(),
        ensures
            final(self).wf(),
            final(self)@ == old(self)@.set_input_offset_ms(ms),
    {
        self.settings.input_offset_ms = ms;
        self.emit_session_state();
    }

    /// Carries out the command `cmd`, given at time `now`, in nanoseconds,
    /// with the audio clock at `audio_now`. The answer names what is left
    /// for the host to do and what is to be sent to the audio callback.
    #[verifier::rlimit(80)]
    pub fn handle_command(&mut self, cmd: Command, now: u64, audio_now: SampleTime) -> (reply:
        Result<Outcome, AppError>)
        requires
            old(self).wf(),
        ensures
            final(self).wf(),
            final(self)@ == old(self)@.after_command(cmd, now, audio_now),
            reply_view(reply) == old(self)@.reply_to(cmd, now, audio_now),
    {
        let mut request = HostRequest::Nothing;
        let mut to_audio: Vec<ScheduledEvent> = Vec::new();
        match cmd {
            Command::GetSessionState => {
                self.get_session_state(now);
            },
            Command::ListMidiInputs => {
                request = HostRequest::ListMidiInputs;
            },
            Command::SelectMidiInput { device_id } => {
                request = HostRequest::OpenMidiInput { device_id };
            },
            Command::ListAudioOutputs => {
                request = HostRequest::ListAudioOutputs;
            },
            Command::SelectAudioOutput { device_id, config } => {
                request =
                HostRequest::OpenAudioOutput { device_id: Some(device_id), config, retry: false };
            },
            Command::TestAudio => {
                return self.test_audio(audio_now);
            },
            Command::SetMonitorEnabled { enabled } => {
                self.set_monitor_enabled(enabled);
                request = HostRequest::SaveSettings;
            },
            Command::SetBusVolume { bus, volume } => {
                self.set_bus_volume(bus, volume);
                request = HostRequest::SaveSettings;
            },
            Command::SetMasterVolume { volume } => {
                self.set_master_volume(volume);
                request = HostRequest::SaveSettings;
            },
            Command::LoadSoundFont { path } => {
                request = HostRequest::LoadSoundFont { path };
            },
            Command::SetProgram { bus, gm_program } => {
                request = HostRequest::SetProgram { bus, gm_program };
            },
            Command::LoadScore { source } => {
                request = HostRequest::ImportScore { source };
            },
            Command::SetPracticeRange { start_tick, end_tick } => {
                self.set_loop(Some(LoopRange { start_tick, end_tick }), now);
            },
            Command::StartPractice => {
                return self.start_practice(audio_now);
            },
            Command::PausePractice => {
                to_audio = self.pause(audio_now);
            },
            Command::StopPractice => {
                to_audio = self.stop(audio_now);
            },
            Command::Seek { tick } => {
                to_audio = self.seek(tick, now, audio_now);
            },
            Command::SetLoop { enabled, start_tick, end_tick } => {
                let range = if enabled {
                    Some(LoopRange { start_tick, end_tick })
                } else {
                    None
                };
                self.set_loop(range, now);
            },
            Command::SetTempoMultiplier { x_ppm } => {
                self.set_tempo_multiplier(x_ppm, now);
            },
            Command::SetPlaybackMode { mode } => {
                self.scheduler.set_mode(mode);
            },
            Command::SetAccompanimentRoute { play_left, play_right } => {
                self.scheduler.set_accompaniment_route(play_left, play_right);
            },
            Command::SetInputOffsetMs { ms } => {
                self.set_input_offset_ms(ms);
                request = HostRequest::SaveSettings;
            },
            Command::SetAudiverisPath { path } => {
                self.settings.audiveris_path = Some(path);
                request = HostRequest::SaveSettings;
            },
            Command::ConvertPdfToMidi { pdf_path, output_path, audiveris_path } => {
                let engine = match audiveris_path {
                    Some(path) => Some(path),
                    None => copy_text(&self.settings.audiveris_path),
                };
                request =
                HostRequest::ConvertPdfToMidi { pdf_path, output_path, audiveris_path: engine };
            },
            Command::CancelPdfToMidi => {},
            Command::ExportDiagnostics { path } => {
                request = HostRequest::ExportDiagnostics { path };
            },
        }
        Ok(Outcome { request, to_audio })
    }

    /// Takes in a score that was loaded, at time `now`: its tempo map
    /// goes to the transport, the targets of its first track to the judge,
    /// that track's playback events to the scheduler; the session is ready
    /// and muted; the piano roll, the session and the transport are
    /// published. A score with a tempo of zero is turned down and changes
    /// nothing.
    pub fn score_loaded(&mut self, score: Score, now: u64) -> (reply: Result<(), AppError>)
        requires
            old(self).wf(),
        ensures
            final(self).wf(),
            !tempi_positive(score.tempo_map@) ==> reply is Err && final(self)@ == old(self)@,
            tempi_positive(score.tempo_map@) ==> reply is Ok && ({
                let before = old(self)@;
                let after = final(self)@;
                let targets = if score.tracks@.len() > 0 {
                    score.tracks@[0].targets@
                } else {
                    Seq::empty()
                };
                let playback = if score.tracks@.len() > 0 {
                    score.tracks@[0].playback_events@
                } else {
                    Seq::empty()
                };
                let loaded = before.with_score(
                    after.transport.tempo_map,
                    playback,
                    after.scheduler.events,
                    targets,
                );
                &&& after.transport.tempo_map.wf()
                &&& after.transport.tempo_map.ppq == before.transport.ppq
                &&& is_stable_sort_of::<TempoPoint, TempoPointByTick>(
                    after.transport.tempo_map.points(),
                    with_origin(score.tempo_map@),
                )
                &&& is_stable_sort_of::<PlaybackMidiEvent, PlaybackEventByTick>(
                    after.scheduler.events,
                    playback,
                )
                &&& after.events.len() == before.events.len() + 3
                &&& after.events.subrange(0, before.events.len() as int) == before.events
                &&& is_score_view_of(
                    after.events[before.events.len() as int],
                    score.meta.title,
                    score.ppq,
                    targets,
                    playback,
                )
                &&& after.events[before.events.len() as int + 1] == loaded.session_event()
                &&& after.events[before.events.len() as int + 2] == loaded.transport_event()
                &&& after == (AppView {
                    events: after.events,
                    last_transport_emit: now,
                    ..loaded
                })
            }),
    {
        if !check_tempi(&score.tempo_map) {
            return Err(AppError::ScoreLoad("tempo of zero".to_string()));
        }
        let Score { meta, ppq, tempo_map, tracks } = score;
        let mut tracks = tracks;
        let (targets, playback) = if tracks.len() > 0 {
            let track = tracks.swap_remove(0);
            (track.targets, track.playback_events)
        } else {
            (Vec::new(), Vec::new())
        };
        self.transport.update_tempo_map(tempo_map);
        self.transport.seek(0);
        let roll = score_view_event(meta.title, ppq, &targets, &playback);
        let _ = self.judge.load_targets(targets);
        self.playback = copy_playback(&playback);
        self.scheduler.set_score(playback);
        self.has_score = true;
        self.session_state = SessionState::Ready;
        self.audio_params.set_playback_enabled(false);
        let ghost before = self@.events;
        self.publish(roll);
        self.emit_session_state();
        self.emit_transport(true, now);
        Ok(())
    }

    /// Publishes the MIDI inputs that the host has found.
    pub fn midi_inputs_listed(&mut self, devices: Vec<MidiInputDevice>)
        ensures
            final(self)@ == old(self)@.publish(EventView::MidiInputsUpdated { devices: devices@ }),
            old(self).wf() ==> final(self).wf(),
    {
        self.publish(Event::MidiInputsUpdated { devices });
    }

    /// Publishes the audio outputs that the host has found.
    pub fn audio_outputs_listed(&mut self, devices: Vec<AudioOutputDevice>)
        ensures
            final(self)@ == old(self)@.publish(
                EventView::AudioOutputsUpdated { devices: devices@ },
            ),
            old(self).wf() ==> final(self).wf(),
    {
        self.publish(Event::AudioOutputsUpdated { devices });
    }

    /// Takes note that the host has opened the MIDI input `device_id`; the
    /// settings are to be saved.
    pub fn midi_input_opened(&mut self, device_id: DeviceId) -> (request: HostRequest)
        requires
            old(self).wf(),
        ensures
            final(self).wf(),
            final(self)@ == old(self)@.midi_input_opened(device_id),
            request is SaveSettings,
    {
        self.midi_open = true;
        self.settings.selected_midi_in = Some(device_id);
        self.emit_session_state();
        HostRequest::SaveSettings
    }

    /// Makes ready for an output that the host is about to open, and says
    /// with which configuration to open it.
    pub fn prepare_audio_output(
        &mut self,
        requested: Option<AudioConfig>,
        device_default: Option<AudioConfig>,
    ) -> (config: AudioConfig)
        requires
            old(self).wf(),
        ensures
            final(self).wf(),
            config == resolve_audio_config_spec(
                requested,
                device_default,
                old(self)@.settings.audio_buffer_size_frames,
            ).0,
            is_stable_sort_of::<PlaybackMidiEvent, PlaybackEventByTick>(
                final(self)@.scheduler.events,
                if old(self)@.has_score {
                    old(self)@.playback
                } else {
                    Seq::empty()
                },
            ),
            final(self)@ == old(self)@.prepared(
                requested,
                device_default,
                final(self)@.scheduler.events,
            ),
    {
        let (config, kept) = resolve_audio_config(
            requested,
            device_default,
            self.settings.audio_buffer_size_frames,
        );
        self.settings.audio_buffer_size_frames = kept;
        self.transport.set_sample_rate(config.sample_rate_hz);
        self.scheduler =
        Scheduler::new(config.sample_rate_hz, SchedulerConfig { lookahead_ms: LOOKAHEAD_MS });
        if self.has_score {
            self.scheduler.set_score(copy_playback(&self.playback));
        } else {
            proof {
                let none = Seq::<PlaybackMidiEvent>::empty();
                assert(none.to_multiset() =~= none.to_multiset());
            }
        }
        self.transport.set_origin_sample(0);
        self.audio_open = false;
        config
    }

    /// Takes note that the host has opened the audio output `device_id`;
    /// the settings are to be saved.
    pub fn audio_output_opened(&mut self, device_id: DeviceId) -> (request: HostRequest)
        requires
            old(self).wf(),
        ensures
            final(self).wf(),
            final(self)@ == old(self)@.audio_output_opened(device_id),
            request is SaveSettings,
    {
        self.audio_open = true;
        self.settings.selected_audio_out = Some(device_id);
        let running = match self.session_state {
            SessionState::Running => true,
            _ => false,
        };
        self.audio_params.set_playback_enabled(running);
        self.emit_session_state();
        HostRequest::SaveSettings
    }

    /// Publishes that the sound font at `path` is loaded. Where `remember`
    /// is set, the path becomes the default and the settings are to be
    /// saved.
    pub fn soundfont_loaded(&mut self, path: String, name: String, preset_count: u32, remember: bool)
        -> (request: HostRequest)
        requires
            old(self).wf(),
        ensures
            final(self).wf(),
            final(self)@ == (AppView {
                settings: if remember {
                    SettingsDto { default_sf2_path: Some(path), ..old(self)@.settings }
                } else {
                    old(self)@.settings
                },
                ..old(self)@
            }).publish(
                EventView::SoundFontStatus {
                    loaded: true,
                    path: Some(path),
                    name: Some(name),
                    preset_count: Some(preset_count),
                    message: None,
                },
            ),
            remember ==> request is SaveSettings,
            !remember ==> request is Nothing,
    {
        if remember {
            self.settings.default_sf2_path = Some(path.clone());
        }
        self.publish(
            Event::SoundFontStatus {
                loaded: true,
                path: Some(path),
                name: Some(name),
                preset_count: Some(preset_count),
                message: None,
            },
        );
        if remember {
            HostRequest::SaveSettings
        } else {
            HostRequest::Nothing
        }
    }

    /// Takes note that the score asked for could not be imported, for the
    /// reason that `message` gives: the command is answered with a score
    /// load error that carries the message, and nothing changes. The score
    /// in hand, the judge, the scheduler, the transport and the session
    /// stay as they are, and nothing is published.
    pub fn score_load_failed(&mut self, message: String) -> (error: AppError)
        ensures
            *final(self) == *old(self),
            final(self)@ == old(self)@,
            error matches AppError::ScoreLoad(reason) && reason == message,
    {
        AppError::ScoreLoad(message)
    }

    /// Publishes that the sound font at `path` could not be loaded.
    pub fn soundfont_failed(&mut self, path: String, message: String)
        ensures
            final(self)@ == old(self)@.publish(
                EventView::SoundFontStatus {
                    loaded: false,
                    path: Some(path),
                    name: None,
                    preset_count: None,
                    message: Some(message),
                },
            ),
            old(self).wf() ==> final(self).wf(),
    {
        self.publish(
            Event::SoundFontStatus {
                loaded: false,
                path: Some(path),
                name: None,
                preset_count: None,
                message: Some(message),
            },
        );
    }

    fn handle_judge_events(&mut self, judged: &Vec<JudgeEvent>)
        requires
            old(self).wf(),
        ensures
            final(self).wf(),
            final(self)@ == old(self)@.publish_all(feedback_all(old(self)@.judge.targets, judged@)),
    {
        let mut i: usize = 0;
        assert(self@.events + Seq::<EventView>::empty() =~= self@.events);
        while i < judged.len()
            invariant
                i <= judged@.len(),
                self.wf(),
                self@ == old(self)@.publish_all(
                    feedback_all(old(self)@.judge.targets, judged@.subrange(0, i as int)),
                ),
            decreases judged@.len() - i,
        {
            let ghost before = self@;
            let ghost sofar = feedback_all(old(self)@.judge.targets, judged@.subrange(0, i as int));
            proof {
                let next = judged@.subrange(0, i + 1);
                assert(next.drop_last() =~= judged@.subrange(0, i as int));
                assert(next.last() == judged@[i as int]);
            }
            match &judged[i] {
                JudgeEvent::Hit { target_id, grade, delta_tick, .. } => {
                    let expected_notes = expected_notes_for(self.judge.targets(), *target_id);
                    self.publish(
                        Event::JudgeFeedback {
                            target_id: *target_id,
                            grade: *grade,
                            delta_tick: *delta_tick,
                            expected_notes,
                            played_notes: Vec::new(),
                        },
                    );
                },
                JudgeEvent::Miss { target_id, .. } => {
                    let expected_notes = expected_notes_for(self.judge.targets(), *target_id);
                    self.publish(
                        Event::JudgeFeedback {
                            target_id: *target_id,
                            grade: Grade::Miss,
                            delta_tick: 0,
                            expected_notes,
                            played_notes: Vec::new(),
                        },
                    );
                },
                JudgeEvent::Stats { combo, score, hit, miss, .. } => {
                    self.publish(
                        Event::ScoreSummaryUpdated {
                            combo: *combo,
                            score: *score,
                            accuracy_ppm: accuracy_ppm(*hit, *miss),
                        },
                    );
                },
                JudgeEvent::FocusChanged { .. } => {},
            }
            proof {
                let one = feedback_of(old(self)@.judge.targets, judged@[i as int]);
                assert(self@.events =~= before.events + one);
                assert(old(self)@.events + (sofar + one) =~= (old(self)@.events + sofar) + one);
            }
            i = i + 1;
        }
        assert(judged@.subrange(0, judged@.len() as int) =~= judged@);
    }

    fn record_recent_input(&mut self, event: MidiLikeEvent)
        requires
            old(self).wf(),
        ensures
            final(self).wf(),
            final(self)@ == (AppView {
                recent_inputs: with_recent(old(self)@.recent_inputs, event),
                ..old(self)@
            }).publish(EventView::MidiInputEvent { event }),
    {
        if self.recent_inputs.len() >= RECENT_INPUT_LIMIT {
            let _ = self.recent_inputs.remove(0);
            assert(self.recent_inputs@ =~= old(self).recent_inputs@.subrange(
                1,
                old(self).recent_inputs@.len() as int,
            ));
        }
        self.recent_inputs.push(event);
        self.publish(Event::MidiInputEvent { event });
    }

    fn take_input(&mut self, e: PlayerEvent, audio_now: SampleTime, to_audio: &mut Vec<
        ScheduledEvent,
    >)
        requires
            old(self).wf(),
        ensures
            final(self).wf(),
            final(self)@ == old(self)@.after_input(e, audio_now),
            final(to_audio)@ == old(to_audio)@ + old(self)@.input_output(e, audio_now),
    {
        let sample_time = estimate_sample_time(
            self.clock_anchor,
            e.at,
            self.transport.sample_rate_hz(),
            audio_now,
        );
        let offset = self.transport.ms_to_ticks(self.settings.input_offset_ms);
        let tick = match self.session_state {
            SessionState::Running => add_ticks(self.transport.sample_to_tick(sample_time), offset),
            _ => add_ticks(self.transport.now_tick(), offset),
        };
        self.record_recent_input(e.event);
        match e.event {
            MidiLikeEvent::NoteOn { note, velocity } => {
                proof {
                    self.judge.lemma_view_wf();
                    lemma_on_note_on_keeps_targets(
                        self.judge@,
                        PlayerNoteOn { tick, note, velocity },
                    );
                }
                let judged = self.judge.on_note_on(PlayerNoteOn { tick, note, velocity });
                self.handle_judge_events(&judged);
            },
            _ => {},
        }
        if self.settings.monitor_enabled {
            to_audio.push(ScheduledEvent { sample_time, bus: Bus::UserMonitor, event: e.event });
            assert(to_audio@ =~= old(to_audio)@ + old(self)@.input_output(e, audio_now));
        } else {
            assert(to_audio@ =~= old(to_audio)@ + old(self)@.input_output(e, audio_now));
        }
    }

    fn emit_recent_inputs(&mut self, now: u64)
        requires
            old(self).wf(),
        ensures
            final(self).wf(),
            final(self)@ == old(self)@.emit_recent_inputs(now),
    {
        if now.saturating_sub(self.last_input_emit) < INPUT_EMIT_INTERVAL {
            return ;
        }
        if self.recent_inputs.len() > 0 {
            let mut events: Vec<MidiLikeEvent> = Vec::new();
            let mut i: usize = 0;
            while i < self.recent_inputs.len()
                invariant
                    i <= self.recent_inputs@.len(),
                    events@ == self.recent_inputs@.subrange(0, i as int),
                decreases self.recent_inputs@.len() - i,
            {
                events.push(self.recent_inputs[i]);
                assert(events@ =~= self.recent_inputs@.subrange(0, i + 1));
                i = i + 1;
            }
            assert(self.recent_inputs@.subrange(0, self.recent_inputs@.len() as int)
                =~= self.recent_inputs@);
            self.publish(Event::RecentInputEvents { events });
        }
        self.last_input_emit = now;
    }

    /// Whether input of the player is taken: a MIDI input and an audio
    /// output are open.
    pub fn takes_input(&self) -> (taken: bool)
        ensures
            taken == self@.takes_input(),
    {
        self.midi_open && self.audio_open
    }

    fn sync(&mut self, now: u64, audio_now: SampleTime)
        requires
            old(self).wf(),
        ensures
            final(self).wf(),
            final(self)@ == old(self)@.synced(now, audio_now),
    {
        self.clock_anchor = if self.audio_open {
            Some(ClockAnchor { at: now, sample_time: audio_now })
        } else {
            None
        };
        match self.session_state {
            SessionState::Running => {
                self.transport.sync_to_sample_time(audio_now);
            },
            _ => {},
        }
    }

    fn take_inputs(&mut self, inputs: &Vec<PlayerEvent>, audio_now: SampleTime) -> (to_audio: Vec<
        ScheduledEvent,
    >)
        requires
            old(self).wf(),
        ensures
            final(self).wf(),
            final(self)@ == old(self)@.after_inputs(inputs@, audio_now),
            to_audio@ == old(self)@.inputs_output(inputs@, audio_now),
    {
        let mut to_audio: Vec<ScheduledEvent> = Vec::new();
        let mut i: usize = 0;
        while i < inputs.len()
            invariant
                i <= inputs@.len(),
                self.wf(),
                self@ == old(self)@.after_inputs(inputs@.subrange(0, i as int), audio_now),
                to_audio@ == old(self)@.inputs_output(inputs@.subrange(0, i as int), audio_now),
            decreases inputs@.len() - i,
        {
            proof {
                let next = inputs@.subrange(0, i + 1);
                assert(next.drop_last() =~= inputs@.subrange(0, i as int));
                assert(next.last() == inputs@[i as int]);
            }
            self.take_input(inputs[i], audio_now, &mut to_audio);
            i = i + 1;
        }
        assert(inputs@.subrange(0, inputs@.len() as int) =~= inputs@);
        to_audio
    }

    fn advance_judge(&mut self)
        requires
            old(self).wf(),
        ensures
            final(self).wf(),
            final(self)@ == old(self)@.judge_advanced(),
    {
        match self.session_state {
            SessionState::Running => {
                proof {
                    self.judge.lemma_view_wf();
                    crate::eval::judge::lemma_advance_to_misses(
                        self.judge@,
                        self.transport@.position_tick,
                    );
                }
                let judged = self.judge.advance_to(self.transport.now_tick());
                self.handle_judge_events(&judged);
            },
            _ => {},
        }
    }

    fn schedule_autopilot(&mut self) -> (to_audio: Vec<ScheduledEvent>)
        requires
            old(self).wf(),
        ensures
            final(self).wf(),
            final(self)@ == old(self)@.scheduled(),
            to_audio@ == old(self)@.scheduled_output(),
    {
        let running = match self.session_state {
            SessionState::Running => true,
            _ => false,
        };
        if running && self.audio_open {
            self.scheduler.schedule(&mut self.transport)
        } else {
            Vec::new()
        }
    }

    /// One tick of the control loop at time `now`, in nanoseconds, with the
    /// audio clock at `audio_now` and the events `inputs` that the player's
    /// device has delivered since the last tick. Hands back what is to be
    /// sent to the audio callback, in order.
    pub fn tick(&mut self, now: u64, audio_now: SampleTime, inputs: &Vec<PlayerEvent>) -> (to_audio:
        Vec<ScheduledEvent>)
        requires
            old(self).wf(),
        ensures
            final(self).wf(),
            final(self)@ == old(self)@.after_tick(now, audio_now, inputs@),
            to_audio@ == old(self)@.tick_output(now, audio_now, inputs@),
    {
        self.sync(now, audio_now);
        let mut to_audio = if self.midi_open && self.audio_open {
            self.take_inputs(inputs, audio_now)
        } else {
            Vec::new()
        };
        self.advance_judge();
        let mut scheduled = self.schedule_autopilot();
        to_audio.append(&mut scheduled);
        self.emit_transport(false, now);
        self.emit_recent_inputs(now);
        to_audio
    }
}

/// A note of the player leaves the list of targets as it is.
pub proof fn lemma_on_note_on_keeps_targets(v: JudgeView, e: PlayerNoteOn)
    requires
        v.wf(),
    ensures
        v.on_note_on(e).0.targets == v.targets,
{
    crate::eval::judge::lemma_advance_to_misses(v, e.tick);
}

} // verus!
