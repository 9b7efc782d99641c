use cadenza::engine::demo::build_demo_score;
use cadenza::engine::ipc::{PianoRollNoteDto, PianoRollPedalDto};
use cadenza::engine::playback_engine::PlaybackEngine;
use cadenza::engine::score_view::{
    derive_note_spans, derive_pedal_spans, PedalChange, PedalChangeByTick,
};
use cadenza::infra::midi_input::MidirMidiInputPort;
use cadenza::infra::omr::AudiverisOmr;
use cadenza::infra::paths::{decode_file_url, percent_decode};
use cadenza::infra::storage::FsStorage;
use cadenza::ports::midi::MidiLikeEvent;
use cadenza::ports::omr::OmrOptions;
use cadenza::ports::playback::{
    LoopRange, PlaybackError, PlaybackEvent, PlaybackMode, PlaybackPort, PlaybackRouteHint,
    PlaybackScore, ScheduledEvent, TempoPoint,
};
use cadenza::ports::types::{add_ticks, Bus};
use cadenza::score::model::{Hand, PlaybackMidiEvent, ScoreSource};
use cadenza::score::musicxml_import::{
    apply_rearticulation_gaps, build_note_playback_events, build_playback_events, duration_ticks,
    emit_cc64_change, hand_of_staff, measure_length_ticks, midi_note, note_type_ticks,
    resolve_hand, NoteEvent, NoteType,
};
use cadenza::sorting::stable_sort;
use cadenza::synth::soundboard::scale_len;
use cadenza::synth::voices::{string_count, BusVoices, VoicePhase};

fn on(tick: i64, note: u8, velocity: u8, hand: Option<Hand>) -> PlaybackMidiEvent {
    PlaybackMidiEvent { tick, event: MidiLikeEvent::NoteOn { note, velocity }, hand }
}

fn off(tick: i64, note: u8, hand: Option<Hand>) -> PlaybackMidiEvent {
    PlaybackMidiEvent { tick, event: MidiLikeEvent::NoteOff { note }, hand }
}

fn pedal(tick: i64, value: u8) -> PlaybackMidiEvent {
    PlaybackMidiEvent { tick, event: MidiLikeEvent::Cc64 { value }, hand: None }
}

fn span(note: u8, start_tick: i64, end_tick: i64, velocity: u8) -> PianoRollNoteDto {
    PianoRollNoteDto { note, start_tick, end_tick, velocity, hand: None }
}

#[test]
fn note_spans_pair_ons_with_offs() {
    let events = vec![
        on(0, 64, 70, None),
        on(0, 60, 80, None),
        off(480, 60, None),
        on(480, 60, 90, None),
        off(480, 64, None),
        off(480, 60, None),
        on(960, 72, 50, None),
        off(100, 99, None),
        pedal(0, 127),
    ];
    let spans = derive_note_spans(480, &events);
    assert_eq!(
        spans,
        vec![
            span(60, 0, 480, 80),
            span(64, 0, 480, 70),
            // Released where it was struck: it lasts a tick.
            span(60, 480, 481, 90),
            // Never released: it lasts a quarter note.
            span(72, 960, 1440, 50),
        ]
    );
    assert!(derive_note_spans(480, &Vec::new()).is_empty());
    assert_eq!(derive_note_spans(0, &vec![on(5, 1, 1, None)]), vec![span(1, 5, 6, 1)]);
}

#[test]
fn note_spans_close_the_last_struck_first() {
    let events = vec![on(0, 60, 10, None), on(100, 60, 20, None), off(200, 60, None)];
    let spans = derive_note_spans(480, &events);
    assert_eq!(spans, vec![span(60, 0, 480, 10), span(60, 100, 200, 20)]);
}

#[test]
fn pedal_spans_follow_the_pedal() {
    let events = vec![
        pedal(10, 127),
        pedal(20, 64),
        pedal(50, 0),
        pedal(50, 100),
        pedal(50, 63),
        on(400, 60, 1, None),
        pedal(300, 90),
    ];
    let spans = derive_pedal_spans(&events);
    assert_eq!(
        spans,
        vec![
            PianoRollPedalDto { start_tick: 10, end_tick: 50 },
            PianoRollPedalDto { start_tick: 300, end_tick: 401 },
        ]
    );
    assert!(derive_pedal_spans(&vec![on(0, 60, 1, None)]).is_empty());
}

#[test]
fn demo_score_is_the_c_major_scale() {
    let score = build_demo_score("anything");
    assert_eq!(score.ppq, 480);
    assert_eq!(score.meta.title.as_deref(), Some("Demo: C major scale"));
    assert_eq!(score.meta.source, ScoreSource::Internal);
    assert_eq!(score.tracks.len(), 1);
    let track = &score.tracks[0];
    assert_eq!(track.name, "Demo");
    assert_eq!(track.targets.len(), 8);
    assert_eq!(track.playback_events.len(), 16);
    let notes = [60u8, 62, 64, 65, 67, 69, 71, 72];
    for (i, note) in notes.iter().enumerate() {
        let tick = 480 * i as i64;
        assert_eq!(track.targets[i].id, i as u64 + 1);
        assert_eq!(track.targets[i].tick, tick);
        assert_eq!(track.targets[i].notes, vec![*note]);
        assert_eq!(track.playback_events[2 * i], on(tick, *note, 92, None));
        assert_eq!(track.playback_events[2 * i + 1], off(tick + 480, *note, None));
    }
}

#[test]
fn percent_escapes_are_decoded() {
    assert_eq!(percent_decode(b"a%20b"), b"a b".to_vec());
    assert_eq!(percent_decode(b"%41%6a%4A"), b"AjJ".to_vec());
    assert_eq!(percent_decode(b"100%"), b"100%".to_vec());
    assert_eq!(percent_decode(b"%zz%4"), b"%zz%4".to_vec());
    assert_eq!(percent_decode(b"x%41"), b"xA".to_vec());
    assert_eq!(percent_decode(b"x%41!"), b"xA!".to_vec());
    assert_eq!(percent_decode(b"%25%2f"), b"%/".to_vec());
    assert_eq!(percent_decode(b""), Vec::<u8>::new());
}

#[test]
fn file_urls_are_decoded() {
    assert_eq!(decode_file_url(b"file:///home/a%20b.mid"), Some(b"/home/a b.mid".to_vec()));
    assert_eq!(decode_file_url(b"file://localhost/tmp/x.xml"), Some(b"/tmp/x.xml".to_vec()));
    assert_eq!(decode_file_url(b"file://server/tmp/x"), None);
    assert_eq!(decode_file_url(b"/tmp/x"), None);
    assert_eq!(decode_file_url(b"file://"), None);
    assert_eq!(decode_file_url(b"file://localhost"), None);
}

#[test]
fn raw_midi_messages_are_parsed() {
    let parse = MidirMidiInputPort::parse_message;
    assert_eq!(parse(&[0x90, 60, 100]), Some(MidiLikeEvent::NoteOn { note: 60, velocity: 100 }));
    assert_eq!(parse(&[0x93, 60, 0]), Some(MidiLikeEvent::NoteOff { note: 60 }));
    assert_eq!(parse(&[0x8f, 61, 64]), Some(MidiLikeEvent::NoteOff { note: 61 }));
    assert_eq!(parse(&[0xB0, 64, 127]), Some(MidiLikeEvent::Cc64 { value: 127 }));
    assert_eq!(parse(&[0xB0, 7, 127]), None);
    assert_eq!(parse(&[0xC0, 5]), None);
    assert_eq!(parse(&[0xE0, 0, 64]), None);
    assert_eq!(parse(&[0x90, 60]), None);
    assert_eq!(parse(&[0x90]), None);
    assert_eq!(parse(&[]), None);
    assert_eq!(MidirMidiInputPort::new("Cadenza".to_string()).client_name(), "Cadenza");
}

#[test]
fn engine_path_falls_back() {
    let none = OmrOptions { enable_diagnostics: false, engine_path: None };
    let some = OmrOptions { enable_diagnostics: false, engine_path: Some("/x/av".to_string()) };
    assert_eq!(AudiverisOmr::new(None).engine_path(&none), "audiveris");
    assert_eq!(AudiverisOmr::new(Some("/d/av".to_string())).engine_path(&none), "/d/av");
    assert_eq!(AudiverisOmr::new(Some("/d/av".to_string())).engine_path(&some), "/x/av");
    let storage = FsStorage::new("/cfg/Cadenza".to_string());
    assert_eq!(storage.base_dir(), "/cfg/Cadenza");
    assert_eq!(FsStorage::settings_file_name(), "settings.json");
}

#[test]
fn playback_engine_plays_a_score() {
    let mut engine = PlaybackEngine::new(48_000);
    let score = PlaybackScore {
        ppq: 480,
        tempo_map: vec![TempoPoint { tick: 0, us_per_quarter: 250_000 }],
        events: vec![
            PlaybackEvent {
                tick: 480,
                event: MidiLikeEvent::NoteOn { note: 62, velocity: 9 },
                route_hint: PlaybackRouteHint::Left,
            },
            PlaybackEvent {
                tick: 0,
                event: MidiLikeEvent::NoteOn { note: 60, velocity: 9 },
                route_hint: PlaybackRouteHint::Neither,
            },
        ],
    };
    assert!(engine.load_score(score).is_ok());
    assert!(engine.play().is_ok());
    let first = engine.poll_scheduled_events(0).expect("events");
    assert_eq!(
        first,
        vec![ScheduledEvent {
            sample_time: 0,
            bus: Bus::Autopilot,
            event: MidiLikeEvent::NoteOn { note: 60, velocity: 9 }
        }]
    );
    assert!(engine.seek(480).is_ok());
    let second = engine.poll_scheduled_events(0).expect("events");
    assert_eq!(second[0].sample_time, 12_000);
    assert!(engine.set_tempo_multiplier(2_000_000).is_ok());
    assert!(engine.set_mode(PlaybackMode::Accompaniment).is_ok());
    assert!(engine.set_loop(Some(LoopRange { start_tick: 0, end_tick: 480 })).is_ok());
    assert!(engine.seek(0).is_ok());
    assert_eq!(engine.poll_scheduled_events(0).expect("events").len(), 1);
    assert!(engine.pause().is_ok());
    assert!(engine.stop().is_ok());
    let bad = PlaybackScore {
        ppq: 480,
        tempo_map: vec![TempoPoint { tick: 0, us_per_quarter: 0 }],
        events: Vec::new(),
    };
    assert!(matches!(engine.load_score(bad), Err(PlaybackError::InvalidScore(_))));
}

#[test]
fn voices_follow_keys_and_pedal() {
    let quiet = [0u32; 64];
    let mut bus = BusVoices::new();
    assert!(!bus.sustain_down());
    let a = bus.note_on(60, &quiet);
    let b = bus.note_on(64, &quiet);
    assert_eq!((a, b), (0, 1));
    assert_eq!(bus.voice(0).current_phase(), VoicePhase::Ringing);
    assert_eq!(bus.voice(1).age, 2);
    assert_eq!(bus.voice(2).current_phase(), VoicePhase::Inactive);

    bus.sustain(true);
    bus.note_off(60);
    assert_eq!(bus.voice(0).current_phase(), VoicePhase::Sustained);
    assert_eq!(bus.voice(1).current_phase(), VoicePhase::Ringing);
    bus.sustain(false);
    assert_eq!(bus.voice(0).current_phase(), VoicePhase::Releasing);
    bus.note_off(64);
    assert_eq!(bus.voice(1).current_phase(), VoicePhase::Releasing);

    // Voice 0 has died away, voice 1 has not.
    let mut gains = [0u32; 64];
    gains[0] = 0.0001f32.to_bits();
    gains[1] = 0.5f32.to_bits();
    bus.reclaim(&gains);
    assert_eq!(bus.voice(0).current_phase(), VoicePhase::Inactive);
    assert_eq!(bus.voice(1).current_phase(), VoicePhase::Releasing);
    assert_eq!(bus.note_on(72, &gains), 0);
    bus.reset();
    assert_eq!(bus.voice(0).current_phase(), VoicePhase::Inactive);
}

#[test]
fn the_quietest_voice_is_stolen() {
    let mut bus = BusVoices::new();
    let mut gains = [0u32; 64];
    for i in 0..64 {
        gains[i] = (1.0f32 - i as f32 * 0.001).to_bits();
        assert_eq!(bus.note_on(i as u8, &gains), i);
    }
    gains[17] = 0.25f32.to_bits();
    gains[40] = 0.25f32.to_bits();
    assert_eq!(bus.allocate_voice(&gains), 17);
    assert_eq!(bus.note_on(100, &gains), 17);
    assert_eq!(bus.voice(17).note, 100);
    assert_eq!(bus.voice(17).age, 65);
}

#[test]
fn strings_per_note_and_line_lengths() {
    assert_eq!(string_count(0), 1);
    assert_eq!(string_count(34), 1);
    assert_eq!(string_count(35), 2);
    assert_eq!(string_count(54), 2);
    assert_eq!(string_count(55), 3);
    assert_eq!(string_count(127), 3);
    assert_eq!(scale_len(1116, 48_000), 1116);
    assert_eq!(scale_len(1116, 44_100), 1025);
    assert_eq!(scale_len(1116, 96_000), 2232);
    assert_eq!(scale_len(441, 0), 32);
    assert_eq!(scale_len(1356, 4_000_000), 48_000);
}

#[test]
fn musicxml_lengths() {
    assert_eq!(measure_length_ticks(480, 4, 4), 1920);
    assert_eq!(measure_length_ticks(480, 3, 8), 720);
    assert_eq!(measure_length_ticks(480, 0, 4), 0);
    assert_eq!(measure_length_ticks(480, 4, -1), 0);
    assert_eq!(duration_ticks(1, 1, 480), 480);
    assert_eq!(duration_ticks(1, 3, 480), 160);
    assert_eq!(duration_ticks(1, 7, 480), 69);
    assert_eq!(duration_ticks(1, 1000, 480), 1);
    assert_eq!(duration_ticks(0, 4, 480), 0);
    assert_eq!(duration_ticks(4, 0, 480), 0);
    assert_eq!(duration_ticks(-2, 1, 480), -960);
    assert_eq!(note_type_ticks(NoteType::Quarter, 0, 0, 0, 480), 480);
    assert_eq!(note_type_ticks(NoteType::Half, 1, 0, 0, 480), 1440);
    assert_eq!(note_type_ticks(NoteType::Half, 2, 0, 0, 480), 1680);
    assert_eq!(note_type_ticks(NoteType::Eighth, 0, 3, 2, 480), 160);
    assert_eq!(note_type_ticks(NoteType::N256th, 0, 0, 0, 480), 7);
    assert_eq!(note_type_ticks(NoteType::N256th, 5, 0, 0, 32), 1);
    assert_eq!(note_type_ticks(NoteType::Breve, 0, 0, 0, 480), 3840);
}

#[test]
fn musicxml_pitches_and_hands() {
    assert_eq!(midi_note(b'C', 4, 0), Some(60));
    assert_eq!(midi_note(b'A', 4, 0), Some(69));
    assert_eq!(midi_note(b'B', 3, -1), Some(58));
    assert_eq!(midi_note(b'F', 4, 1), Some(66));
    assert_eq!(midi_note(b'G', 9, 0), Some(127));
    assert_eq!(midi_note(b'G', 9, 1), None);
    assert_eq!(midi_note(b'C', -1, -1), None);
    assert_eq!(midi_note(b'H', 4, 0), None);
    assert_eq!(hand_of_staff(Some(1)), Some(Hand::Right));
    assert_eq!(hand_of_staff(Some(2)), Some(Hand::Left));
    assert_eq!(hand_of_staff(Some(3)), None);
    assert_eq!(hand_of_staff(None), None);
    assert_eq!(resolve_hand(&vec![None, Some(Hand::Left), None, Some(Hand::Left)]), Some(Hand::Left));
    assert_eq!(resolve_hand(&vec![Some(Hand::Left), Some(Hand::Right)]), None);
    assert_eq!(resolve_hand(&vec![None, None]), None);
    assert_eq!(resolve_hand(&Vec::new()), None);
}

#[test]
fn musicxml_pedal_changes_and_playback() {
    let mut out = Vec::new();
    let mut down = false;
    emit_cc64_change(&mut out, 10, &mut down, false);
    assert!(out.is_empty());
    emit_cc64_change(&mut out, 10, &mut down, true);
    emit_cc64_change(&mut out, 20, &mut down, true);
    emit_cc64_change(&mut out, 30, &mut down, false);
    assert!(!down);
    assert_eq!(out, vec![pedal(10, 127), pedal(30, 0)]);

    let notes = vec![
        NoteEvent {
            tick: 0,
            duration_ticks: 480,
            note: 60,
            velocity: 0,
            hand: Some(Hand::Right),
            measure_index: Some(0),
        },
        NoteEvent {
            tick: 480,
            duration_ticks: 240,
            note: 59,
            velocity: 70,
            hand: None,
            measure_index: Some(0),
        },
    ];
    assert_eq!(
        build_note_playback_events(&notes),
        vec![
            on(0, 60, 1, Some(Hand::Right)),
            off(480, 60, Some(Hand::Right)),
            on(480, 59, 70, None),
            off(720, 59, None),
        ]
    );
    assert_eq!(
        build_playback_events(&notes, &vec![pedal(480, 0), pedal(480, 127)]),
        vec![
            on(0, 60, 1, Some(Hand::Right)),
            pedal(480, 127),
            off(480, 60, Some(Hand::Right)),
            on(480, 59, 70, None),
            pedal(480, 0),
            off(720, 59, None),
        ]
    );
}

#[test]
fn repeated_notes_get_a_gap() {
    let note = |tick: i64, duration_ticks: i64, note: u8, hand: Option<Hand>| NoteEvent {
        tick,
        duration_ticks,
        note,
        velocity: 90,
        hand,
        measure_index: None,
    };
    let mut notes = vec![
        note(480, 480, 60, None),
        note(0, 480, 60, None),
        note(0, 480, 60, Some(Hand::Left)),
        note(100, 5, 62, None),
        note(101, 50, 62, None),
        note(300, 50, 62, None),
        note(0, 10, 64, None),
        note(0, 20, 64, None),
    ];
    apply_rearticulation_gaps(&mut notes);
    let lengths: Vec<i64> = notes.iter().map(|n| n.duration_ticks).collect();
    assert_eq!(lengths, vec![480, 479, 480, 1, 50, 50, 10, 20]);
}

#[test]
fn stable_sort_keeps_equal_keys_in_order() {
    let change = |tick: i64, down: bool| PedalChange { tick, down };
    let mut v = vec![
        change(30, true),
        change(10, false),
        change(30, false),
        change(0, true),
        change(10, true),
        change(30, true),
        change(10, false),
    ];
    stable_sort::<PedalChange, PedalChangeByTick>(&mut v);
    assert_eq!(
        v,
        vec![
            change(0, true),
            change(10, false),
            change(10, true),
            change(10, false),
            change(30, true),
            change(30, false),
            change(30, true),
        ]
    );
    let mut empty: Vec<PedalChange> = Vec::new();
    stable_sort::<PedalChange, PedalChangeByTick>(&mut empty);
    assert!(empty.is_empty());
    assert_eq!(add_ticks(i64::MAX, 5), i64::MAX);
    assert_eq!(add_ticks(-7, 5), -2);
}
