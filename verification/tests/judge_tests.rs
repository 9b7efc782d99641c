use cadenza::eval::judge::{
    AdvanceMode, ChordRollTicks, Grade, Judge, JudgeConfig, JudgeEvent, MissReason, PlayerNoteOn,
    TimingWindowTicks, WrongNotePolicy,
};
use cadenza::score::model::TargetEvent;

fn target(id: u64, tick: i64, notes: &[u8]) -> TargetEvent {
    TargetEvent {
        id,
        tick,
        notes: notes.to_vec(),
        hand: None,
        measure_index: None,
    }
}

fn config(perfect: i64, good: i64, roll: i64, policy: WrongNotePolicy) -> JudgeConfig {
    JudgeConfig {
        window: TimingWindowTicks { perfect, good },
        chord_roll: ChordRollTicks(roll),
        wrong_note_policy: policy,
        advance: AdvanceMode::OnResolve,
    }
}

#[test]
fn perfect_hit_single_note() {
    let cfg = JudgeConfig {
        window: TimingWindowTicks { perfect: 5, good: 10 },
        chord_roll: ChordRollTicks(4),
        wrong_note_policy: WrongNotePolicy::RecordOnly,
        advance: AdvanceMode::OnResolve,
    };
    let mut judge = Judge::new(cfg);
    judge.load_targets(vec![target(1, 100, &[60])]);

    let events = judge.on_note_on(PlayerNoteOn {
        tick: 100,
        note: 60,
        velocity: 100,
    });

    assert!(events.iter().any(|event| matches!(
        event,
        JudgeEvent::Hit {
            target_id: 1,
            grade: Grade::Perfect,
            ..
        }
    )));
}

#[test]
fn wrong_note_degrades_perfect() {
    let cfg = JudgeConfig {
        window: TimingWindowTicks { perfect: 3, good: 8 },
        chord_roll: ChordRollTicks(4),
        wrong_note_policy: WrongNotePolicy::DegradePerfect,
        advance: AdvanceMode::OnResolve,
    };
    let mut judge = Judge::new(cfg);
    judge.load_targets(vec![target(1, 200, &[64])]);

    judge.on_note_on(PlayerNoteOn {
        tick: 200,
        note: 65,
        velocity: 100,
    });
    let events = judge.on_note_on(PlayerNoteOn {
        tick: 200,
        note: 64,
        velocity: 100,
    });

    assert!(events.iter().any(|event| matches!(
        event,
        JudgeEvent::Hit {
            target_id: 1,
            grade: Grade::Good,
            ..
        }
    )));
}

#[test]
fn chord_roll_allows_split_hits() {
    let cfg = JudgeConfig {
        window: TimingWindowTicks { perfect: 2, good: 6 },
        chord_roll: ChordRollTicks(3),
        wrong_note_policy: WrongNotePolicy::RecordOnly,
        advance: AdvanceMode::OnResolve,
    };
    let mut judge = Judge::new(cfg);
    judge.load_targets(vec![target(1, 300, &[60, 64])]);

    judge.on_note_on(PlayerNoteOn {
        tick: 300,
        note: 60,
        velocity: 100,
    });
    let events = judge.on_note_on(PlayerNoteOn {
        tick: 302,
        note: 64,
        velocity: 100,
    });

    assert!(events.iter().any(|event| matches!(
        event,
        JudgeEvent::Hit {
            target_id: 1,
            grade: Grade::Perfect,
            ..
        }
    )));
}

#[test]
fn advance_to_emits_miss_after_window() {
    let cfg = JudgeConfig {
        window: TimingWindowTicks { perfect: 2, good: 6 },
        chord_roll: ChordRollTicks(3),
        wrong_note_policy: WrongNotePolicy::RecordOnly,
        advance: AdvanceMode::OnResolve,
    };
    let mut judge = Judge::new(cfg);
    judge.load_targets(vec![target(1, 100, &[60])]);

    let events = judge.advance_to(200);

    assert!(events.iter().any(|event| matches!(
        event,
        JudgeEvent::Miss {
            target_id: 1,
            ..
        }
    )));
}

#[test]
fn load_targets_reports_the_first_focus() {
    let mut judge = Judge::new(config(5, 10, 4, WrongNotePolicy::RecordOnly));
    let events = judge.load_targets(vec![target(7, 100, &[60]), target(8, 200, &[62])]);
    assert_eq!(events.len(), 1);
    assert!(matches!(events[0], JudgeEvent::FocusChanged { target_id: Some(7) }));
    assert_eq!(judge.current_focus(), Some(7));

    let mut empty = Judge::new(config(5, 10, 4, WrongNotePolicy::RecordOnly));
    let events = empty.load_targets(Vec::new());
    assert!(matches!(events[0], JudgeEvent::FocusChanged { target_id: None }));
    assert_eq!(empty.current_focus(), None);
}

#[test]
fn single_perfect_hit_updates_the_totals() {
    let mut judge = Judge::new(config(5, 10, 4, WrongNotePolicy::RecordOnly));
    judge.load_targets(vec![target(1, 100, &[60])]);
    let events = judge.on_note_on(PlayerNoteOn { tick: 100, note: 60, velocity: 100 });
    assert_eq!(events.len(), 3);
    assert!(matches!(
        events[0],
        JudgeEvent::Hit { target_id: 1, grade: Grade::Perfect, delta_tick: 0, wrong_notes: 0 }
    ));
    assert!(matches!(
        events[1],
        JudgeEvent::Stats { combo: 1, score: 100, hit: 1, miss: 0, wrong: 0 }
    ));
    assert!(matches!(events[2], JudgeEvent::FocusChanged { target_id: None }));
    let stats = judge.stats();
    assert_eq!((stats.hit, stats.combo, stats.score), (1, 1, 100));
}

#[test]
fn wrong_note_is_counted_and_degrades() {
    let mut judge = Judge::new(config(3, 8, 4, WrongNotePolicy::DegradePerfect));
    judge.load_targets(vec![target(1, 200, &[64])]);
    let first = judge.on_note_on(PlayerNoteOn { tick: 200, note: 65, velocity: 100 });
    assert!(first.is_empty());
    let events = judge.on_note_on(PlayerNoteOn { tick: 200, note: 64, velocity: 100 });
    assert!(matches!(
        events[0],
        JudgeEvent::Hit { target_id: 1, grade: Grade::Good, delta_tick: 0, wrong_notes: 1 }
    ));
    assert!(matches!(
        events[1],
        JudgeEvent::Stats { combo: 1, score: 70, hit: 1, miss: 0, wrong: 1 }
    ));
}

#[test]
fn wrong_note_is_only_recorded_under_the_recording_policy() {
    let mut judge = Judge::new(config(3, 8, 4, WrongNotePolicy::RecordOnly));
    judge.load_targets(vec![target(1, 200, &[64])]);
    judge.on_note_on(PlayerNoteOn { tick: 200, note: 65, velocity: 100 });
    let events = judge.on_note_on(PlayerNoteOn { tick: 200, note: 64, velocity: 100 });
    assert!(matches!(
        events[0],
        JudgeEvent::Hit { target_id: 1, grade: Grade::Perfect, delta_tick: 0, wrong_notes: 1 }
    ));
}

#[test]
fn chord_roll_takes_the_first_match_as_the_deviation() {
    let mut judge = Judge::new(config(2, 6, 3, WrongNotePolicy::RecordOnly));
    judge.load_targets(vec![target(1, 300, &[60, 64])]);
    let first = judge.on_note_on(PlayerNoteOn { tick: 300, note: 60, velocity: 100 });
    assert!(first.is_empty());
    let events = judge.on_note_on(PlayerNoteOn { tick: 302, note: 64, velocity: 100 });
    assert!(matches!(
        events[0],
        JudgeEvent::Hit { target_id: 1, grade: Grade::Perfect, delta_tick: 0, wrong_notes: 0 }
    ));
}

#[test]
fn note_outside_the_chord_roll_is_not_recorded() {
    let mut judge = Judge::new(config(2, 6, 3, WrongNotePolicy::RecordOnly));
    judge.load_targets(vec![target(1, 300, &[60, 64])]);
    judge.on_note_on(PlayerNoteOn { tick: 296, note: 60, velocity: 100 });
    let events = judge.on_note_on(PlayerNoteOn { tick: 300, note: 64, velocity: 100 });
    assert!(events.is_empty());
    assert_eq!(judge.current_focus(), Some(1));
}

#[test]
fn late_hit_within_the_good_window_is_good() {
    let mut judge = Judge::new(config(5, 10, 4, WrongNotePolicy::RecordOnly));
    judge.load_targets(vec![target(1, 100, &[60])]);
    let events = judge.on_note_on(PlayerNoteOn { tick: 108, note: 60, velocity: 100 });
    assert!(matches!(
        events[0],
        JudgeEvent::Hit { target_id: 1, grade: Grade::Good, delta_tick: 8, wrong_notes: 0 }
    ));
    assert!(matches!(events[1], JudgeEvent::Stats { score: 70, .. }));
}

#[test]
fn early_note_is_ignored() {
    let mut judge = Judge::new(config(5, 10, 4, WrongNotePolicy::RecordOnly));
    judge.load_targets(vec![target(1, 100, &[60])]);
    let events = judge.on_note_on(PlayerNoteOn { tick: 89, note: 60, velocity: 100 });
    assert!(events.is_empty());
    assert_eq!(judge.current_focus(), Some(1));
    let events = judge.on_note_on(PlayerNoteOn { tick: 90, note: 60, velocity: 100 });
    assert!(matches!(
        events[0],
        JudgeEvent::Hit { grade: Grade::Good, delta_tick: -10, .. }
    ));
}

#[test]
fn miss_by_timeout_resets_the_combo() {
    let mut judge = Judge::new(config(2, 6, 3, WrongNotePolicy::RecordOnly));
    judge.load_targets(vec![target(1, 100, &[60])]);
    let events = judge.advance_to(200);
    assert_eq!(events.len(), 3);
    assert!(matches!(
        events[0],
        JudgeEvent::Miss {
            target_id: 1,
            reason: MissReason::Timeout,
            missing_notes: 1,
            wrong_notes: 0
        }
    ));
    assert!(matches!(
        events[1],
        JudgeEvent::Stats { combo: 0, score: 0, hit: 0, miss: 1, wrong: 0 }
    ));
    assert!(matches!(events[2], JudgeEvent::FocusChanged { target_id: None }));
}

#[test]
fn advance_to_emits_one_miss_per_closed_target() {
    let mut judge = Judge::new(config(2, 6, 3, WrongNotePolicy::RecordOnly));
    judge.load_targets(vec![
        target(1, 100, &[60]),
        target(2, 150, &[62]),
        target(3, 194, &[64]),
        target(4, 300, &[65]),
    ]);
    let events = judge.advance_to(200);
    let misses: Vec<u64> = events
        .iter()
        .filter_map(|event| match event {
            JudgeEvent::Miss { target_id, .. } => Some(*target_id),
            _ => None,
        })
        .collect();
    assert_eq!(misses, vec![1, 2]);
    assert_eq!(events.len(), 6);
    assert_eq!(judge.current_focus(), Some(3));
    assert_eq!(judge.stats().miss, 2);
    // The window of the third target closes behind tick 200.
    assert!(judge.advance_to(200).is_empty());
    let events = judge.advance_to(201);
    assert!(matches!(events[0], JudgeEvent::Miss { target_id: 3, .. }));
}

#[test]
fn empty_target_never_resolves() {
    let mut judge = Judge::new(config(2, 6, 3, WrongNotePolicy::RecordOnly));
    judge.load_targets(vec![target(1, 100, &[])]);
    let events = judge.on_note_on(PlayerNoteOn { tick: 100, note: 60, velocity: 100 });
    assert!(events.is_empty());
    assert_eq!(judge.current_focus(), Some(1));
}
