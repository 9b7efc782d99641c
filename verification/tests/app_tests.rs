use cadenza::engine::app::{AppCore, AppError, HostRequest};
use cadenza::engine::app_support::{
    accuracy_ppm, default_judge_config, estimate_sample_time, expected_notes_for, flush_events,
    resolve_audio_config, test_note_events, ClockAnchor,
};
use cadenza::engine::demo::build_demo_score;
use cadenza::engine::ipc::{Command, Event, ScoreSource, SessionState};
use cadenza::eval::judge::{Grade, WrongNotePolicy};
use cadenza::ports::midi::{MidiLikeEvent, PlayerEvent};
use cadenza::ports::playback::{LoopRange, PlaybackMode, ScheduledEvent};
use cadenza::ports::storage::SettingsDto;
use cadenza::ports::types::{AudioConfig, Bus, DeviceId, Volume01};
use cadenza::score::model::{Score, ScoreMeta, TargetEvent, TempoPoint};

const MS: u64 = 1_000_000;

fn ready_core() -> AppCore {
    let mut core = AppCore::new(SettingsDto::default(), 0);
    core.score_loaded(build_demo_score("scale"), 0).expect("demo loads");
    core.prepare_audio_output(None, None);
    core.audio_output_opened(DeviceId("out".to_string()));
    core.drain_events();
    core
}

fn note_ons(events: &[ScheduledEvent]) -> Vec<(u64, u8)> {
    events
        .iter()
        .filter_map(|e| match e.event {
            MidiLikeEvent::NoteOn { note, .. } => Some((e.sample_time, note)),
            _ => None,
        })
        .collect()
}

#[test]
fn new_core_is_idle() {
    let mut core = AppCore::new(SettingsDto::default(), 5);
    assert_eq!(core.session_state(), SessionState::Idle);
    assert!(core.drain_events().is_empty());
    assert!(core.recent_inputs().is_empty());
    assert!(!core.takes_input());
    assert!(!core.audio_params().playback_enabled());
    assert!(core.settings().monitor_enabled);
}

#[test]
fn start_without_a_score_is_an_invalid_state() {
    let mut core = AppCore::new(SettingsDto::default(), 0);
    match core.handle_command(Command::StartPractice, 0, 0) {
        Err(AppError::InvalidState(message)) => assert_eq!(message, "no score loaded"),
        _ => panic!("start should be refused"),
    }
    assert_eq!(core.session_state(), SessionState::Idle);
}

#[test]
fn start_asks_for_an_output_first() {
    let mut core = AppCore::new(SettingsDto::default(), 0);
    core.score_loaded(build_demo_score("scale"), 0).expect("demo loads");
    assert_eq!(core.session_state(), SessionState::Ready);
    let outcome = core.handle_command(Command::StartPractice, 0, 0).expect("start is taken");
    assert!(matches!(
        outcome.request,
        HostRequest::OpenAudioOutput { device_id: None, config: None, retry: true }
    ));
    assert!(outcome.to_audio.is_empty());
    assert_eq!(core.session_state(), SessionState::Ready);
}

#[test]
fn score_loaded_publishes_roll_session_and_transport() {
    let mut core = AppCore::new(SettingsDto::default(), 0);
    core.score_loaded(build_demo_score("scale"), 7 * MS).expect("demo loads");
    let events = core.drain_events();
    assert_eq!(events.len(), 3);
    match &events[0] {
        Event::ScoreViewUpdated { title, ppq, notes, targets, pedal } => {
            assert_eq!(title.as_deref(), Some("Demo: C major scale"));
            assert_eq!(*ppq, 480);
            assert_eq!(notes.len(), 8);
            assert_eq!((notes[0].note, notes[0].start_tick, notes[0].end_tick), (60, 0, 480));
            assert_eq!((notes[7].note, notes[7].start_tick, notes[7].end_tick), (72, 3360, 3840));
            assert_eq!(notes[3].velocity, 92);
            assert_eq!(targets.len(), 8);
            assert_eq!((targets[2].id, targets[2].tick), (3, 960));
            assert_eq!(targets[2].notes, vec![64]);
            assert!(pedal.is_empty());
        }
        _ => panic!("the piano roll comes first"),
    }
    assert!(matches!(
        events[1],
        Event::SessionStateUpdated { state: SessionState::Ready, .. }
    ));
    assert!(matches!(
        events[2],
        Event::TransportUpdated {
            tick: 0,
            sample_time: 0,
            playing: false,
            tempo_multiplier_ppm: 1_000_000,
            loop_range: None
        }
    ));
}

#[test]
fn score_with_a_tempo_of_zero_is_refused() {
    let mut core = AppCore::new(SettingsDto::default(), 0);
    let mut score = Score::new(ScoreMeta { title: None, source: cadenza::score::model::ScoreSource::Midi }, 480);
    score.tempo_map.push(TempoPoint { tick: 10, us_per_quarter: 0 });
    assert!(matches!(core.score_loaded(score, 0), Err(AppError::ScoreLoad(_))));
    assert_eq!(core.session_state(), SessionState::Idle);
    assert!(core.drain_events().is_empty());
}

#[test]
fn start_flushes_and_schedules_the_first_batch() {
    let mut core = ready_core();
    let outcome = core.handle_command(Command::StartPractice, 0, 1000).expect("start");
    assert!(matches!(outcome.request, HostRequest::Nothing));
    assert_eq!(core.session_state(), SessionState::Running);
    assert!(core.audio_params().playback_enabled());
    assert_eq!(outcome.to_audio.len(), 259);
    assert_eq!(&outcome.to_audio[..258], &flush_events(1000)[..]);
    assert_eq!(note_ons(&outcome.to_audio), vec![(1000, 60)]);
    let events = core.drain_events();
    assert_eq!(events.len(), 1);
    assert!(matches!(
        events[0],
        Event::SessionStateUpdated { state: SessionState::Running, .. }
    ));
    // A second start changes nothing.
    let again = core.handle_command(Command::StartPractice, 0, 2000).expect("start");
    assert!(again.to_audio.is_empty());
    assert!(core.drain_events().is_empty());
}

#[test]
fn pause_and_stop_mute_and_flush() {
    let mut core = ready_core();
    core.handle_command(Command::StartPractice, 0, 0).expect("start");
    let paused = core.handle_command(Command::PausePractice, 0, 4800).expect("pause");
    assert_eq!(core.session_state(), SessionState::Paused);
    assert!(!core.audio_params().playback_enabled());
    assert_eq!(paused.to_audio, flush_events(4800));
    assert_eq!(f32::from_bits(core.audio_params().bus(Bus::Autopilot)), 0.0);
    assert_eq!(f32::from_bits(core.audio_params().bus(Bus::UserMonitor)), 0.8);

    core.handle_command(Command::StartPractice, 0, 4800).expect("start");
    assert_eq!(core.session_state(), SessionState::Running);
    let stopped = core.handle_command(Command::StopPractice, 0, 9600).expect("stop");
    assert_eq!(core.session_state(), SessionState::Ready);
    assert_eq!(stopped.to_audio, flush_events(9600));
    assert!(!core.audio_params().playback_enabled());
}

#[test]
fn flush_is_empty_without_an_output() {
    let mut core = AppCore::new(SettingsDto::default(), 0);
    let outcome = core.handle_command(Command::PausePractice, 0, 0).expect("pause");
    assert!(outcome.to_audio.is_empty());
    assert_eq!(core.session_state(), SessionState::Paused);
}

#[test]
fn flush_events_cover_every_pitch_on_both_buses() {
    let events = flush_events(77);
    assert_eq!(events.len(), 258);
    for note in 0..128usize {
        assert_eq!(
            events[2 * note],
            ScheduledEvent {
                sample_time: 77,
                bus: Bus::Autopilot,
                event: MidiLikeEvent::NoteOff { note: note as u8 }
            }
        );
        assert_eq!(
            events[2 * note + 1],
            ScheduledEvent {
                sample_time: 77,
                bus: Bus::UserMonitor,
                event: MidiLikeEvent::NoteOff { note: note as u8 }
            }
        );
    }
    assert_eq!(
        events[256],
        ScheduledEvent { sample_time: 77, bus: Bus::Autopilot, event: MidiLikeEvent::Cc64 { value: 0 } }
    );
    assert_eq!(
        events[257],
        ScheduledEvent {
            sample_time: 77,
            bus: Bus::UserMonitor,
            event: MidiLikeEvent::Cc64 { value: 0 }
        }
    );
}

#[test]
fn tick_schedules_and_throttles_the_transport() {
    let mut core = ready_core();
    core.handle_command(Command::StartPractice, 0, 0).expect("start");
    core.drain_events();
    // 10 ms later: nothing is due yet.
    let out = core.tick(10 * MS, 480, &Vec::new());
    assert!(out.is_empty());
    assert!(core.drain_events().is_empty());
    // 33 ms after the last transport update one is published.
    let out = core.tick(33 * MS, 23_000, &Vec::new());
    assert_eq!(note_ons(&out), vec![(24_000, 62)]);
    let events = core.drain_events();
    // The first target was not played: its window closed at tick 80.
    assert_eq!(events.len(), 3);
    assert!(matches!(
        events[0],
        Event::JudgeFeedback { target_id: 1, grade: Grade::Miss, delta_tick: 0, .. }
    ));
    assert!(matches!(
        events[1],
        Event::ScoreSummaryUpdated { combo: 0, score: 0, accuracy_ppm: 0 }
    ));
    assert!(matches!(
        events[2],
        Event::TransportUpdated { tick: 460, sample_time: 23_000, playing: true, .. }
    ));
    let out = core.tick(40 * MS, 23_100, &Vec::new());
    assert!(out.is_empty());
    assert!(core.drain_events().is_empty());
}

#[test]
fn player_notes_are_judged_and_monitored() {
    let mut core = ready_core();
    core.midi_input_opened(DeviceId("in".to_string()));
    assert!(core.takes_input());
    core.handle_command(Command::StartPractice, 0, 0).expect("start");
    core.drain_events();
    let inputs = vec![
        PlayerEvent { at: 0, event: MidiLikeEvent::NoteOn { note: 60, velocity: 80 } },
        PlayerEvent { at: 0, event: MidiLikeEvent::NoteOff { note: 60 } },
    ];
    let out = core.tick(MS, 48, &inputs);
    assert_eq!(
        out,
        vec![
            ScheduledEvent {
                sample_time: 0,
                bus: Bus::UserMonitor,
                event: MidiLikeEvent::NoteOn { note: 60, velocity: 80 }
            },
            ScheduledEvent {
                sample_time: 0,
                bus: Bus::UserMonitor,
                event: MidiLikeEvent::NoteOff { note: 60 }
            },
        ]
    );
    let events = core.drain_events();
    assert!(matches!(
        events[0],
        Event::MidiInputEvent { event: MidiLikeEvent::NoteOn { note: 60, velocity: 80 } }
    ));
    match &events[1] {
        Event::JudgeFeedback { target_id, grade, delta_tick, expected_notes, played_notes } => {
            assert_eq!((*target_id, *grade, *delta_tick), (1, Grade::Perfect, 0));
            assert_eq!(expected_notes, &vec![60]);
            assert!(played_notes.is_empty());
        }
        _ => panic!("feedback follows the input"),
    }
    assert!(matches!(
        events[2],
        Event::ScoreSummaryUpdated { combo: 1, score: 100, accuracy_ppm: 1_000_000 }
    ));
    assert!(matches!(events[3], Event::MidiInputEvent { event: MidiLikeEvent::NoteOff { note: 60 } }));
    assert_eq!(core.recent_inputs().len(), 2);
}

#[test]
fn input_offset_moves_the_judged_tick_only() {
    let mut core = ready_core();
    core.midi_input_opened(DeviceId("in".to_string()));
    // 250 ms at 120 bpm and 480 ppq are 240 ticks.
    core.handle_command(Command::SetInputOffsetMs { ms: 250 }, 0, 0).expect("offset");
    core.handle_command(Command::StartPractice, 0, 0).expect("start");
    core.drain_events();
    // Played at sample 12000, tick 240; judged at tick 480, where the second target lies,
    // so the first one is missed by the time it is judged.
    let inputs = vec![PlayerEvent {
        at: 250 * MS,
        event: MidiLikeEvent::NoteOn { note: 62, velocity: 80 },
    }];
    let out = core.tick(250 * MS, 12_000, &inputs);
    assert_eq!(out[0].sample_time, 12_000);
    assert_eq!(out[0].bus, Bus::UserMonitor);
    let events = core.drain_events();
    let feedback: Vec<(u64, Grade, i64)> = events
        .iter()
        .filter_map(|e| match e {
            Event::JudgeFeedback { target_id, grade, delta_tick, .. } => {
                Some((*target_id, *grade, *delta_tick))
            }
            _ => None,
        })
        .collect();
    assert_eq!(feedback, vec![(1, Grade::Miss, 0), (2, Grade::Perfect, 0)]);
}

#[test]
fn monitor_off_sends_nothing_for_input() {
    let mut core = ready_core();
    core.midi_input_opened(DeviceId("in".to_string()));
    let saved = core.handle_command(Command::SetMonitorEnabled { enabled: false }, 0, 0).expect("set");
    assert!(matches!(saved.request, HostRequest::SaveSettings));
    assert!(!core.settings().monitor_enabled);
    assert!(!core.audio_params().monitor_enabled());
    let inputs = vec![PlayerEvent { at: 0, event: MidiLikeEvent::NoteOn { note: 60, velocity: 80 } }];
    let out = core.tick(0, 0, &inputs);
    assert!(out.is_empty());
    match core.handle_command(Command::TestAudio, 0, 0) {
        Err(AppError::InvalidState(_)) => {}
        _ => panic!("the test note needs the monitor"),
    }
}

#[test]
fn test_audio_sends_a_quarter_second_note() {
    let mut core = ready_core();
    let outcome = core.handle_command(Command::TestAudio, 0, 1000).expect("test");
    assert_eq!(outcome.to_audio, test_note_events(1000, 48_000));
    assert_eq!(
        outcome.to_audio,
        vec![
            ScheduledEvent {
                sample_time: 1064,
                bus: Bus::UserMonitor,
                event: MidiLikeEvent::NoteOn { note: 60, velocity: 96 }
            },
            ScheduledEvent {
                sample_time: 13_064,
                bus: Bus::UserMonitor,
                event: MidiLikeEvent::NoteOff { note: 60 }
            },
        ]
    );
}

#[test]
fn recent_inputs_keep_the_last_twenty_and_are_batched() {
    let mut core = ready_core();
    core.midi_input_opened(DeviceId("in".to_string()));
    core.drain_events();
    let inputs: Vec<PlayerEvent> = (0..25u8)
        .map(|i| PlayerEvent { at: 0, event: MidiLikeEvent::NoteOff { note: i } })
        .collect();
    core.tick(10 * MS, 0, &inputs);
    assert_eq!(core.recent_inputs().len(), 20);
    assert_eq!(core.recent_inputs()[0], MidiLikeEvent::NoteOff { note: 5 });
    assert_eq!(core.recent_inputs()[19], MidiLikeEvent::NoteOff { note: 24 });
    let events = core.drain_events();
    assert!(!events.iter().any(|e| matches!(e, Event::RecentInputEvents { .. })));
    core.tick(50 * MS, 0, &Vec::new());
    let events = core.drain_events();
    let batches: Vec<usize> = events
        .iter()
        .filter_map(|e| match e {
            Event::RecentInputEvents { events } => Some(events.len()),
            _ => None,
        })
        .collect();
    assert_eq!(batches, vec![20]);
    core.tick(60 * MS, 0, &Vec::new());
    assert!(!core.drain_events().iter().any(|e| matches!(e, Event::RecentInputEvents { .. })));
}

#[test]
fn seek_loop_and_tempo_force_a_transport_update() {
    let mut core = ready_core();
    let outcome = core.handle_command(Command::Seek { tick: 960 }, MS, 500).expect("seek");
    assert_eq!(outcome.to_audio, flush_events(500));
    let events = core.drain_events();
    assert!(matches!(events[0], Event::TransportUpdated { tick: 960, sample_time: 48_000, .. }));

    core.handle_command(Command::SetLoop { enabled: true, start_tick: 480, end_tick: 960 }, MS, 0)
        .expect("loop");
    let events = core.drain_events();
    assert!(matches!(
        events[0],
        Event::TransportUpdated {
            loop_range: Some(LoopRange { start_tick: 480, end_tick: 960 }),
            ..
        }
    ));
    core.handle_command(Command::SetLoop { enabled: false, start_tick: 480, end_tick: 960 }, MS, 0)
        .expect("loop");
    assert!(matches!(core.drain_events()[0], Event::TransportUpdated { loop_range: None, .. }));
    core.handle_command(Command::SetPracticeRange { start_tick: 0, end_tick: 480 }, MS, 0)
        .expect("range");
    assert!(matches!(
        core.drain_events()[0],
        Event::TransportUpdated { loop_range: Some(LoopRange { start_tick: 0, end_tick: 480 }), .. }
    ));

    core.handle_command(Command::SetTempoMultiplier { x_ppm: 50_000 }, MS, 0).expect("tempo");
    assert!(matches!(
        core.drain_events()[0],
        Event::TransportUpdated { tempo_multiplier_ppm: 100_000, .. }
    ));
}

#[test]
fn stop_returns_to_the_loop_start() {
    let mut core = ready_core();
    core.handle_command(Command::SetLoop { enabled: true, start_tick: 480, end_tick: 960 }, 0, 0)
        .expect("loop");
    core.handle_command(Command::Seek { tick: 1920 }, 0, 0).expect("seek");
    core.handle_command(Command::StopPractice, 0, 0).expect("stop");
    core.drain_events();
    core.handle_command(Command::GetSessionState, 0, 0).expect("state");
    let events = core.drain_events();
    assert!(matches!(events[0], Event::SessionStateUpdated { state: SessionState::Ready, .. }));
    assert!(matches!(events[1], Event::TransportUpdated { tick: 480, .. }));
}

#[test]
fn volumes_are_set_and_saved() {
    let mut core = AppCore::new(SettingsDto::default(), 0);
    let half = Volume01::new(0.5f32.to_bits());
    let outcome = core
        .handle_command(Command::SetBusVolume { bus: Bus::MetronomeFx, volume: half }, 0, 0)
        .expect("bus");
    assert!(matches!(outcome.request, HostRequest::SaveSettings));
    assert_eq!(core.settings().bus_metronome_volume, half);
    core.handle_command(Command::SetMasterVolume { volume: half }, 0, 0).expect("master");
    assert_eq!(core.settings().master_volume, half);
    assert_eq!(f32::from_bits(core.audio_params().master()), 0.5);
    let events = core.drain_events();
    assert_eq!(events.len(), 2);
    match &events[1] {
        Event::SessionStateUpdated { state, settings } => {
            assert_eq!(*state, SessionState::Idle);
            assert_eq!(settings.master_volume, half);
        }
        _ => panic!("the session is published"),
    }
}

#[test]
fn commands_for_the_host_are_passed_on() {
    let mut core = AppCore::new(SettingsDto::default(), 0);
    let outcome = core.handle_command(Command::ListMidiInputs, 0, 0).expect("list");
    assert!(matches!(outcome.request, HostRequest::ListMidiInputs));
    let outcome = core.handle_command(Command::ListAudioOutputs, 0, 0).expect("list");
    assert!(matches!(outcome.request, HostRequest::ListAudioOutputs));
    let outcome = core
        .handle_command(Command::LoadScore { source: ScoreSource::MidiFile("a.mid".to_string()) }, 0, 0)
        .expect("load");
    match outcome.request {
        HostRequest::ImportScore { source: ScoreSource::MidiFile(path) } => assert_eq!(path, "a.mid"),
        _ => panic!("the import is left to the host"),
    }
    core.handle_command(Command::SetAudiverisPath { path: "/opt/av".to_string() }, 0, 0)
        .expect("path");
    let outcome = core
        .handle_command(
            Command::ConvertPdfToMidi {
                pdf_path: "a.pdf".to_string(),
                output_path: "a.mid".to_string(),
                audiveris_path: None,
            },
            0,
            0,
        )
        .expect("convert");
    match outcome.request {
        HostRequest::ConvertPdfToMidi { audiveris_path, .. } => {
            assert_eq!(audiveris_path.as_deref(), Some("/opt/av"))
        }
        _ => panic!("the conversion is left to the host"),
    }
    let outcome = core
        .handle_command(Command::SetProgram { bus: Bus::Autopilot, gm_program: 5 }, 0, 0)
        .expect("program");
    assert!(matches!(
        outcome.request,
        HostRequest::SetProgram { bus: Bus::Autopilot, gm_program: 5 }
    ));
    core.handle_command(Command::SetPlaybackMode { mode: PlaybackMode::Accompaniment }, 0, 0)
        .expect("mode");
    core.handle_command(Command::SetAccompanimentRoute { play_left: false, play_right: true }, 0, 0)
        .expect("route");
    assert!(core.drain_events().is_empty());
}

#[test]
fn soundfont_status_is_published() {
    let mut core = AppCore::new(SettingsDto::default(), 0);
    let request = core.soundfont_loaded("a.sf2".to_string(), "Grand".to_string(), 12, true);
    assert!(matches!(request, HostRequest::SaveSettings));
    assert_eq!(core.settings().default_sf2_path.as_deref(), Some("a.sf2"));
    core.soundfont_failed("b.sf2".to_string(), "broken".to_string());
    let events = core.drain_events();
    assert!(matches!(
        &events[0],
        Event::SoundFontStatus { loaded: true, preset_count: Some(12), message: None, .. }
    ));
    assert!(matches!(
        &events[1],
        Event::SoundFontStatus { loaded: false, name: None, preset_count: None, .. }
    ));
}

#[test]
fn audio_config_resolution() {
    let device = AudioConfig { sample_rate_hz: 44_100, channels: 2, buffer_size_frames: Some(256) };
    let asked = AudioConfig { sample_rate_hz: 96_000, channels: 2, buffer_size_frames: Some(0) };
    let (config, kept) = resolve_audio_config(None, None, None);
    assert_eq!((config.sample_rate_hz, config.channels, config.buffer_size_frames), (48_000, 2, None));
    assert_eq!(kept, None);
    let (config, kept) = resolve_audio_config(None, Some(device), Some(512));
    assert_eq!((config.sample_rate_hz, config.buffer_size_frames), (44_100, Some(256)));
    assert_eq!(kept, Some(512));
    let (config, kept) = resolve_audio_config(Some(asked), Some(device), Some(512));
    assert_eq!((config.sample_rate_hz, config.buffer_size_frames), (96_000, None));
    assert_eq!(kept, None);
    let (config, _) = resolve_audio_config(None, None, Some(128));
    assert_eq!(config.buffer_size_frames, Some(128));
}

#[test]
fn prepare_takes_over_the_sample_rate() {
    let mut core = AppCore::new(SettingsDto::default(), 0);
    core.score_loaded(build_demo_score("scale"), 0).expect("demo loads");
    let asked = AudioConfig { sample_rate_hz: 96_000, channels: 2, buffer_size_frames: Some(64) };
    let config = core.prepare_audio_output(Some(asked), None);
    assert_eq!(config.sample_rate_hz, 96_000);
    assert_eq!(core.settings().audio_buffer_size_frames, Some(64));
    core.audio_output_opened(DeviceId("out".to_string()));
    assert_eq!(core.settings().selected_audio_out, Some(DeviceId("out".to_string())));
    let outcome = core.handle_command(Command::StartPractice, 0, 0).expect("start");
    assert_eq!(note_ons(&outcome.to_audio), vec![(0, 60)]);
    let out = core.tick(MS, 47_000, &Vec::new());
    assert_eq!(note_ons(&out), vec![(48_000, 62)]);
}

#[test]
fn sample_time_is_estimated_from_the_anchor() {
    assert_eq!(estimate_sample_time(None, 5, 48_000, 777), 777);
    let anchor = Some(ClockAnchor { at: 1_000_000_000, sample_time: 10_000 });
    assert_eq!(estimate_sample_time(anchor, 1_000_000_000, 48_000, 0), 10_000);
    assert_eq!(estimate_sample_time(anchor, 1_010_000_000, 48_000, 0), 10_480);
    assert_eq!(estimate_sample_time(anchor, 990_000_000, 48_000, 0), 9_520);
    assert_eq!(estimate_sample_time(anchor, 0, 48_000, 0), 0);
    assert_eq!(estimate_sample_time(anchor, 2_000_000_000, 0, 0), 10_001);
}

#[test]
fn accuracy_in_parts_per_million() {
    assert_eq!(accuracy_ppm(0, 0), 0);
    assert_eq!(accuracy_ppm(1, 0), 1_000_000);
    assert_eq!(accuracy_ppm(1, 2), 333_333);
    assert_eq!(accuracy_ppm(2, 1), 666_667);
    assert_eq!(accuracy_ppm(u32::MAX, u32::MAX), 500_000);
}

#[test]
fn default_judge_config_values() {
    let cfg = default_judge_config();
    assert_eq!((cfg.window.perfect, cfg.window.good, cfg.chord_roll.0), (30, 80, 24));
    assert_eq!(cfg.wrong_note_policy, WrongNotePolicy::DegradePerfect);
}

#[test]
fn expected_notes_of_the_last_target_with_the_id() {
    let target = |id: u64, notes: Vec<u8>| TargetEvent {
        id,
        tick: 0,
        notes,
        hand: None,
        measure_index: None,
    };
    let targets = vec![target(1, vec![60]), target(2, vec![62, 64]), target(1, vec![72])];
    assert_eq!(expected_notes_for(&targets, 1), vec![72]);
    assert_eq!(expected_notes_for(&targets, 2), vec![62, 64]);
    assert!(expected_notes_for(&targets, 3).is_empty());
}

#[test]
fn a_failed_score_import_is_a_score_load_error_and_changes_nothing() {
    let mut core = ready_core();
    core.handle_command(Command::StartPractice, 0, 0).expect("start is taken");
    core.drain_events();
    assert_eq!(core.session_state(), SessionState::Running);

    let asked = core
        .handle_command(
            Command::LoadScore { source: ScoreSource::MidiFile("/nowhere/lost.mid".to_string()) },
            MS,
            0,
        )
        .expect("the command is passed on");
    assert!(matches!(asked.request, HostRequest::ImportScore { .. }));
    assert!(asked.to_audio.is_empty());

    let error = core.score_load_failed("midi load failed for /nowhere/lost.mid".to_string());
    match error {
        AppError::ScoreLoad(message) => {
            assert_eq!(message, "midi load failed for /nowhere/lost.mid")
        }
        other => panic!("unexpected error {other:?}"),
    }
    assert_eq!(core.session_state(), SessionState::Running);
    assert!(core.drain_events().is_empty());

    // The score in hand is still there: practice can be stopped and started.
    core.handle_command(Command::StopPractice, 2 * MS, 96).expect("stop is taken");
    assert_eq!(core.session_state(), SessionState::Ready);
    core.handle_command(Command::StartPractice, 3 * MS, 96).expect("start is taken");
    assert_eq!(core.session_state(), SessionState::Running);
}
