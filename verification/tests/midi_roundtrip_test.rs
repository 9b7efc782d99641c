use cadenza::ports::midi::MidiLikeEvent;
use cadenza::score::midi_export::{export_midi_bytes, export_midi_events, MidiExportError};
use cadenza::score::midi_file::{SmfEvent, SmfEventKind, SmfFile, SmfTiming};
use cadenza::score::midi_import::{
    build_targets, build_tempo_map, import_midi_bytes, sanitize_note_pairs, score_from_smf,
    timecode_ppq_and_tempo, MidiImportError, NoteOnAt,
};
use cadenza::score::model::{
    PlaybackMidiEvent, Score, ScoreMeta, ScoreSource, TargetEvent, TempoPoint, Track,
};
use midly::num::{u28, u4, u7};
use midly::{Format, Header, MetaMessage, MidiMessage, Smf, Timing, TrackEvent, TrackEventKind};

fn on(tick: i64, note: u8, velocity: u8) -> PlaybackMidiEvent {
    PlaybackMidiEvent { tick, event: MidiLikeEvent::NoteOn { note, velocity }, hand: None }
}

fn off(tick: i64, note: u8) -> PlaybackMidiEvent {
    PlaybackMidiEvent { tick, event: MidiLikeEvent::NoteOff { note }, hand: None }
}

fn pedal(tick: i64, value: u8) -> PlaybackMidiEvent {
    PlaybackMidiEvent { tick, event: MidiLikeEvent::Cc64 { value }, hand: None }
}

#[test]
fn midi_export_import_roundtrip() {
    let ppq = 480u16;
    let playback_events = vec![
        PlaybackMidiEvent {
            tick: 0,
            event: MidiLikeEvent::NoteOn {
                note: 60,
                velocity: 100,
            },
            hand: None,
        },
        PlaybackMidiEvent {
            tick: 480,
            event: MidiLikeEvent::NoteOff { note: 60 },
            hand: None,
        },
    ];

    let track = Track {
        id: 0,
        name: "Test".to_string(),
        hand: None,
        targets: vec![TargetEvent {
            id: 1,
            tick: 0,
            notes: vec![60],
            hand: None,
            measure_index: None,
        }],
        playback_events,
    };

    let score = Score {
        meta: ScoreMeta {
            title: Some("Roundtrip".to_string()),
            source: ScoreSource::Internal,
        },
        ppq,
        tempo_map: vec![TempoPoint {
            tick: 0,
            us_per_quarter: 500_000,
        }],
        tracks: vec![track],
    };

    let data = export_midi_bytes(&score).expect("export should succeed");

    let loaded = import_midi_bytes(&data).expect("import should succeed");
    assert_eq!(loaded.ppq, ppq);
    assert!(!loaded.tracks.is_empty());
    assert!(loaded.tracks[0]
        .playback_events
        .iter()
        .any(|e| matches!(e.event, MidiLikeEvent::NoteOn { .. })));
    assert_eq!(loaded.tracks[0].playback_events, vec![on(0, 60, 100), off(480, 60)]);
    assert_eq!(loaded.tempo_map, vec![TempoPoint { tick: 0, us_per_quarter: 500_000 }]);
    assert_eq!(loaded.tracks[0].targets.len(), 1);
    assert_eq!(loaded.tracks[0].targets[0].notes, vec![60]);
}

#[test]
fn export_orders_and_times_the_track() {
    let score = Score {
        meta: ScoreMeta { title: None, source: ScoreSource::Internal },
        ppq: 96,
        tempo_map: vec![
            TempoPoint { tick: 0, us_per_quarter: 500_000 },
            TempoPoint { tick: 96, us_per_quarter: 250_000 },
        ],
        tracks: vec![Track {
            id: 0,
            name: "T".to_string(),
            hand: None,
            targets: Vec::new(),
            playback_events: vec![
                on(96, 64, 0),
                pedal(96, 0),
                off(96, 60),
                pedal(96, 127),
                on(0, 60, 90),
            ],
        }],
    };
    let exported = export_midi_events(&score).expect("export should succeed");
    assert_eq!(exported.ppq, 96);
    assert_eq!(
        exported.events,
        vec![
            SmfEvent { delta: 0, kind: SmfEventKind::Tempo(500_000) },
            SmfEvent { delta: 0, kind: SmfEventKind::NoteOn(60, 90) },
            SmfEvent { delta: 96, kind: SmfEventKind::Tempo(250_000) },
            SmfEvent { delta: 0, kind: SmfEventKind::Controller(64, 127) },
            SmfEvent { delta: 0, kind: SmfEventKind::NoteOff(60) },
            SmfEvent { delta: 0, kind: SmfEventKind::NoteOn(64, 1) },
            SmfEvent { delta: 0, kind: SmfEventKind::Controller(64, 0) },
        ]
    );
}

#[test]
fn export_needs_a_track() {
    let score = Score::new(ScoreMeta { title: None, source: ScoreSource::Internal }, 480);
    assert_eq!(score.ppq, 480);
    assert_eq!(score.tempo_map, vec![TempoPoint { tick: 0, us_per_quarter: 500_000 }]);
    assert!(score.tracks.is_empty());
    assert!(matches!(export_midi_events(&score), Err(MidiExportError::InvalidScore(_))));
}

#[test]
fn import_rejects_what_is_not_a_midi_file() {
    assert!(matches!(import_midi_bytes(b"not a midi file"), Err(MidiImportError::Parse(_))));
    assert!(matches!(import_midi_bytes(&[]), Err(MidiImportError::Parse(_))));
}

#[test]
fn import_merges_tracks_and_reads_tempo() {
    let channel = u4::new(0);
    let first = vec![
        TrackEvent {
            delta: u28::new(0),
            kind: TrackEventKind::Meta(MetaMessage::Tempo(midly::num::u24::new(400_000))),
        },
        TrackEvent {
            delta: u28::new(240),
            kind: TrackEventKind::Meta(MetaMessage::Tempo(midly::num::u24::new(300_000))),
        },
        TrackEvent { delta: u28::new(0), kind: TrackEventKind::Meta(MetaMessage::EndOfTrack) },
    ];
    let second = vec![
        TrackEvent {
            delta: u28::new(10),
            kind: TrackEventKind::Midi {
                channel,
                message: MidiMessage::NoteOn { key: u7::new(64), vel: u7::new(80) },
            },
        },
        TrackEvent {
            delta: u28::new(0),
            kind: TrackEventKind::Midi {
                channel,
                message: MidiMessage::NoteOn { key: u7::new(60), vel: u7::new(80) },
            },
        },
        TrackEvent {
            delta: u28::new(5),
            kind: TrackEventKind::Midi {
                channel,
                message: MidiMessage::Controller { controller: u7::new(64), value: u7::new(100) },
            },
        },
        TrackEvent {
            delta: u28::new(0),
            kind: TrackEventKind::Midi {
                channel,
                message: MidiMessage::Controller { controller: u7::new(7), value: u7::new(100) },
            },
        },
        TrackEvent {
            delta: u28::new(5),
            kind: TrackEventKind::Midi {
                channel,
                message: MidiMessage::NoteOn { key: u7::new(60), vel: u7::new(0) },
            },
        },
        TrackEvent { delta: u28::new(0), kind: TrackEventKind::Meta(MetaMessage::EndOfTrack) },
    ];
    let smf = Smf {
        header: Header { format: Format::Parallel, timing: Timing::Metrical(96.into()) },
        tracks: vec![first, second],
    };
    let mut data = Vec::new();
    smf.write(&mut data).expect("midi write should succeed");

    let score = import_midi_bytes(&data).expect("import should succeed");
    assert_eq!(score.ppq, 96);
    assert!(score.meta.title.is_none());
    assert_eq!(score.meta.source, ScoreSource::Midi);
    assert_eq!(
        score.tempo_map,
        vec![
            TempoPoint { tick: 0, us_per_quarter: 400_000 },
            TempoPoint { tick: 240, us_per_quarter: 300_000 },
        ]
    );
    assert_eq!(score.tracks.len(), 1);
    let track = &score.tracks[0];
    assert_eq!(track.name, "Merged");
    assert_eq!(track.targets.len(), 1);
    assert_eq!(track.targets[0].id, 1);
    assert_eq!(track.targets[0].tick, 10);
    assert_eq!(track.targets[0].notes, vec![60, 64]);
    assert_eq!(
        track.playback_events,
        vec![on(10, 60, 80), on(10, 64, 80), pedal(15, 100), off(20, 60), off(116, 64)]
    );
}

#[test]
fn score_from_timecode_file_has_one_tempo() {
    let file = SmfFile {
        timing: SmfTiming::Timecode { fps: 25, ticks_per_frame: 40 },
        tracks: vec![vec![
            SmfEvent { delta: 0, kind: SmfEventKind::Tempo(123_456) },
            SmfEvent { delta: 100, kind: SmfEventKind::NoteOn(70, 64) },
            SmfEvent { delta: 50, kind: SmfEventKind::NoteOff(70) },
        ]],
    };
    let score = score_from_smf(&file);
    assert_eq!(score.ppq, 1000);
    assert_eq!(score.tempo_map, vec![TempoPoint { tick: 0, us_per_quarter: 1_000_000 }]);
    assert_eq!(score.tracks[0].playback_events, vec![on(100, 70, 64), off(150, 70)]);
}

#[test]
fn timecode_resolutions() {
    assert_eq!(timecode_ppq_and_tempo(24, 4), (96, 1_000_000));
    assert_eq!(timecode_ppq_and_tempo(25, 40), (1000, 1_000_000));
    assert_eq!(timecode_ppq_and_tempo(29, 2), (60, 1_001_000));
    assert_eq!(timecode_ppq_and_tempo(30, 0), (30, 1_000_000));
    assert_eq!(timecode_ppq_and_tempo(30, 255), (7650, 1_000_000));
}

#[test]
fn tempo_map_gets_a_default_origin() {
    assert_eq!(
        build_tempo_map(Vec::new(), None),
        vec![TempoPoint { tick: 0, us_per_quarter: 500_000 }]
    );
    assert_eq!(
        build_tempo_map(vec![TempoPoint { tick: 480, us_per_quarter: 1 }], None),
        vec![
            TempoPoint { tick: 0, us_per_quarter: 500_000 },
            TempoPoint { tick: 480, us_per_quarter: 1 },
        ]
    );
    assert_eq!(
        build_tempo_map(vec![TempoPoint { tick: 0, us_per_quarter: 7 }], None),
        vec![TempoPoint { tick: 0, us_per_quarter: 7 }]
    );
    assert_eq!(
        build_tempo_map(vec![TempoPoint { tick: 480, us_per_quarter: 1 }], Some(1_001_000)),
        vec![TempoPoint { tick: 0, us_per_quarter: 1_001_000 }]
    );
}

#[test]
fn targets_group_the_notes_of_one_tick() {
    let targets = build_targets(vec![
        NoteOnAt { tick: 480, note: 67 },
        NoteOnAt { tick: 0, note: 64 },
        NoteOnAt { tick: 0, note: 60 },
        NoteOnAt { tick: 0, note: 64 },
        NoteOnAt { tick: 480, note: 62 },
        NoteOnAt { tick: 960, note: 60 },
    ]);
    let seen: Vec<(u64, i64, Vec<u8>)> =
        targets.iter().map(|t| (t.id, t.tick, t.notes.clone())).collect();
    assert_eq!(
        seen,
        vec![(1, 0, vec![60, 64]), (2, 480, vec![62, 67]), (3, 960, vec![60])]
    );
    assert!(build_targets(Vec::new()).is_empty());
}

#[test]
fn sanitize_drops_note_offs_without_a_note() {
    let out = sanitize_note_pairs(480, vec![off(0, 60), on(10, 60, 1), off(20, 60), off(30, 60)]);
    assert_eq!(out, vec![on(10, 60, 1), off(20, 60)]);
    assert!(sanitize_note_pairs(480, Vec::new()).is_empty());
    // A resolution of zero still ends what sounds, one tick behind the last event.
    assert_eq!(sanitize_note_pairs(0, vec![on(5, 61, 9)]), vec![on(5, 61, 9), off(6, 61)]);
}

fn score_of(ppq: u16, tempo_map: Vec<TempoPoint>, playback_events: Vec<PlaybackMidiEvent>) -> Score {
    Score {
        meta: ScoreMeta { title: None, source: ScoreSource::Internal },
        ppq,
        tempo_map,
        tracks: vec![Track {
            id: 0,
            name: "T".to_string(),
            hand: None,
            targets: Vec::new(),
            playback_events,
        }],
    }
}

#[test]
fn exported_bytes_hold_one_track_that_ends() {
    let score = score_of(
        96,
        vec![TempoPoint { tick: 0, us_per_quarter: 500_000 }],
        vec![on(0, 60, 90), pedal(10, 127), off(96, 60), pedal(96, 0)],
    );
    let data = export_midi_bytes(&score).expect("export should succeed");
    let smf = Smf::parse(&data).expect("the bytes are a file");
    assert_eq!(smf.header.format, Format::SingleTrack);
    assert_eq!(smf.header.timing, Timing::Metrical(96.into()));
    assert_eq!(smf.tracks.len(), 1);
    let channel = u4::new(0);
    let midi = |delta: u32, message: MidiMessage| TrackEvent {
        delta: u28::new(delta),
        kind: TrackEventKind::Midi { channel, message },
    };
    assert_eq!(
        smf.tracks[0],
        vec![
            TrackEvent {
                delta: u28::new(0),
                kind: TrackEventKind::Meta(MetaMessage::Tempo(500_000.into())),
            },
            midi(0, MidiMessage::NoteOn { key: u7::new(60), vel: u7::new(90) }),
            midi(10, MidiMessage::Controller { controller: u7::new(64), value: u7::new(127) }),
            midi(86, MidiMessage::NoteOff { key: u7::new(60), vel: u7::new(64) }),
            midi(0, MidiMessage::Controller { controller: u7::new(64), value: u7::new(0) }),
            TrackEvent { delta: u28::new(0), kind: TrackEventKind::Meta(MetaMessage::EndOfTrack) },
        ]
    );
}

#[test]
fn export_keeps_what_the_fields_of_a_file_hold() {
    let score = score_of(
        96,
        vec![TempoPoint { tick: 0, us_per_quarter: 0x0100_0001 }],
        vec![on(0, 200, 255), off(10, 200), pedal(10, 128), on(20, 61, 128)],
    );
    let exported = export_midi_events(&score).expect("export should succeed");
    assert_eq!(
        exported.events,
        vec![
            SmfEvent { delta: 0, kind: SmfEventKind::Tempo(1) },
            SmfEvent { delta: 0, kind: SmfEventKind::NoteOn(72, 127) },
            SmfEvent { delta: 10, kind: SmfEventKind::NoteOff(72) },
            SmfEvent { delta: 0, kind: SmfEventKind::Controller(64, 0) },
            SmfEvent { delta: 10, kind: SmfEventKind::NoteOn(61, 0) },
        ]
    );
    let data = export_midi_bytes(&score).expect("export should succeed");
    let loaded = import_midi_bytes(&data).expect("import should succeed");
    assert_eq!(loaded.tempo_map, vec![TempoPoint { tick: 0, us_per_quarter: 1 }]);
}

#[test]
fn export_of_a_score_without_track_is_refused() {
    let score = Score {
        meta: ScoreMeta { title: None, source: ScoreSource::Internal },
        ppq: 96,
        tempo_map: Vec::new(),
        tracks: Vec::new(),
    };
    assert!(matches!(export_midi_bytes(&score), Err(MidiExportError::InvalidScore(_))));
}
