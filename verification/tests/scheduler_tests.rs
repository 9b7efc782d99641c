use cadenza::engine::scheduler::{Scheduler, SchedulerConfig};
use cadenza::engine::transport::Transport;
use cadenza::ports::midi::MidiLikeEvent;
use cadenza::ports::playback::{LoopRange, PlaybackMode, ScheduledEvent};
use cadenza::ports::types::Bus;
use cadenza::score::model::{Hand, PlaybackMidiEvent};

fn note_on(tick: i64, note: u8, hand: Option<Hand>) -> PlaybackMidiEvent {
    PlaybackMidiEvent { tick, event: MidiLikeEvent::NoteOn { note, velocity: 90 }, hand }
}

fn scheduled(sample_time: u64, note: u8) -> ScheduledEvent {
    ScheduledEvent {
        sample_time,
        bus: Bus::Autopilot,
        event: MidiLikeEvent::NoteOn { note, velocity: 90 },
    }
}

fn five_notes() -> Vec<PlaybackMidiEvent> {
    vec![
        note_on(0, 60, None),
        note_on(240, 62, None),
        note_on(480, 64, None),
        note_on(720, 65, None),
        note_on(960, 67, None),
    ]
}

#[test]
fn schedule_emits_only_what_the_window_holds() {
    let mut transport = Transport::new(480, 48_000, Vec::new());
    let mut scheduler = Scheduler::new(48_000, SchedulerConfig { lookahead_ms: 30 });
    scheduler.set_score(five_notes());
    let emitted = scheduler.schedule(&mut transport);
    assert_eq!(emitted, vec![scheduled(0, 60)]);
    assert!(scheduler.schedule(&mut transport).is_empty());
    transport.sync_to_sample_time(11_000);
    assert_eq!(scheduler.schedule(&mut transport), vec![scheduled(12_000, 62)]);
}

#[test]
fn schedule_round_trip_until_the_score_end() {
    let mut transport = Transport::new(480, 48_000, Vec::new());
    let mut scheduler = Scheduler::new(48_000, SchedulerConfig { lookahead_ms: 30 });
    scheduler.set_score(five_notes());
    let mut all = Vec::new();
    let mut now = 0u64;
    while now <= 50_000 {
        transport.sync_to_sample_time(now);
        all.extend(scheduler.schedule(&mut transport));
        now += 800;
    }
    assert_eq!(
        all,
        vec![
            scheduled(0, 60),
            scheduled(12_000, 62),
            scheduled(24_000, 64),
            scheduled(36_000, 65),
            scheduled(48_000, 67),
        ]
    );
    for event in &all {
        assert_eq!(event.bus, Bus::Autopilot);
    }
}

#[test]
fn set_score_sorts_by_tick_and_keeps_ties_in_order() {
    let mut transport = Transport::new(480, 48_000, Vec::new());
    let mut scheduler = Scheduler::new(48_000, SchedulerConfig { lookahead_ms: 30 });
    scheduler.set_score(vec![
        note_on(10, 70, None),
        note_on(0, 61, None),
        note_on(10, 71, None),
        note_on(0, 60, None),
    ]);
    let emitted = scheduler.schedule(&mut transport);
    let notes: Vec<u8> = emitted
        .iter()
        .map(|e| match e.event {
            MidiLikeEvent::NoteOn { note, .. } => note,
            _ => 0,
        })
        .collect();
    assert_eq!(notes, vec![61, 60, 70, 71]);
}

#[test]
fn loop_edge_seeks_back_to_the_start() {
    let mut transport = Transport::new(480, 48_000, Vec::new());
    let mut scheduler = Scheduler::new(48_000, SchedulerConfig { lookahead_ms: 30 });
    scheduler.set_score(five_notes());
    let range = Some(LoopRange { start_tick: 240, end_tick: 720 });
    scheduler.set_loop(range);
    transport.set_loop(range);
    assert_eq!(scheduler.loop_range(), range);

    assert_eq!(scheduler.schedule(&mut transport), vec![scheduled(0, 60)]);
    transport.sync_to_sample_time(36_000);
    let emitted = scheduler.schedule(&mut transport);
    assert_eq!(emitted, vec![scheduled(12_000, 62), scheduled(24_000, 64)]);
    assert_eq!(transport.now_tick(), 240);
    assert_eq!(transport.now_sample(), 12_000);

    let again = scheduler.schedule(&mut transport);
    assert_eq!(again, vec![scheduled(12_000, 62)]);
    for pass in [&emitted, &again] {
        for pair in pass.windows(2) {
            assert!(pair[0].sample_time <= pair[1].sample_time);
        }
    }
}

#[test]
fn loop_never_emits_at_or_behind_its_end() {
    let mut transport = Transport::new(480, 48_000, Vec::new());
    let mut scheduler = Scheduler::new(48_000, SchedulerConfig { lookahead_ms: 30 });
    scheduler.set_score(five_notes());
    scheduler.set_loop(Some(LoopRange { start_tick: 240, end_tick: 720 }));
    let end_sample = transport.tick_to_sample(720);
    let mut now = 0u64;
    for _ in 0..200 {
        transport.sync_to_sample_time(now);
        for event in scheduler.schedule(&mut transport) {
            assert!(event.sample_time < end_sample);
        }
        now = transport.now_sample() + 800;
    }
}

#[test]
fn accompaniment_drops_the_muted_hand() {
    let mut transport = Transport::new(480, 48_000, Vec::new());
    let mut scheduler = Scheduler::new(48_000, SchedulerConfig { lookahead_ms: 30 });
    let score = vec![
        note_on(0, 60, Some(Hand::Left)),
        note_on(0, 72, Some(Hand::Right)),
        note_on(0, 66, None),
    ];
    scheduler.set_score(score.clone());
    assert_eq!(scheduler.schedule(&mut transport).len(), 3);

    scheduler.set_mode(PlaybackMode::Accompaniment);
    scheduler.set_accompaniment_route(true, false);
    scheduler.seek(0);
    assert_eq!(
        scheduler.schedule(&mut transport),
        vec![scheduled(0, 60), scheduled(0, 66)]
    );

    scheduler.set_accompaniment_route(false, true);
    scheduler.seek(0);
    assert_eq!(
        scheduler.schedule(&mut transport),
        vec![scheduled(0, 72), scheduled(0, 66)]
    );

    scheduler.set_mode(PlaybackMode::Demo);
    scheduler.seek(0);
    assert_eq!(scheduler.schedule(&mut transport).len(), 3);
}

#[test]
fn seek_puts_the_cursor_on_the_first_event_at_or_behind_the_tick() {
    let mut transport = Transport::new(480, 48_000, Vec::new());
    let mut scheduler = Scheduler::new(48_000, SchedulerConfig { lookahead_ms: 30 });
    scheduler.set_score(five_notes());
    scheduler.seek(241);
    transport.sync_to_sample_time(48_000);
    assert_eq!(
        scheduler.schedule(&mut transport),
        vec![scheduled(24_000, 64), scheduled(36_000, 65), scheduled(48_000, 67)]
    );
    scheduler.seek(5000);
    assert!(scheduler.schedule(&mut transport).is_empty());
}

#[test]
fn lookahead_is_rounded_to_the_nearest_sample() {
    // 1 ms at 44.1 kHz is 44.1 samples: tick 0 falls inside, tick 1 (46 samples) does not,
    // until the window is two samples longer.
    let mut transport = Transport::new(480, 44_100, Vec::new());
    let mut scheduler = Scheduler::new(44_100, SchedulerConfig { lookahead_ms: 1 });
    scheduler.set_score(vec![note_on(0, 60, None), note_on(1, 61, None)]);
    assert_eq!(scheduler.schedule(&mut transport).len(), 1);
    transport.sync_to_sample_time(1);
    assert!(scheduler.schedule(&mut transport).is_empty());
    transport.sync_to_sample_time(2);
    assert_eq!(scheduler.schedule(&mut transport).len(), 1);
}
