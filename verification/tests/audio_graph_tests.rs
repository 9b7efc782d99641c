use cadenza::engine::audio_graph::{
    midi_event_note_key, midi_event_rank, plan_block, AudioClock, AudioGraph, BlockStep,
};
use cadenza::engine::audio_params::AudioParams;
use cadenza::engine::queue::{audio_queue, send_all};
use cadenza::ports::midi::MidiLikeEvent;
use cadenza::ports::playback::ScheduledEvent;
use cadenza::ports::storage::SettingsDto;
use cadenza::ports::types::{Bus, Volume01};

fn at(sample_time: u64, bus: Bus, event: MidiLikeEvent) -> ScheduledEvent {
    ScheduledEvent { sample_time, bus, event }
}

fn dispatches(steps: &[BlockStep]) -> Vec<(u64, MidiLikeEvent)> {
    steps
        .iter()
        .filter_map(|step| match step {
            BlockStep::Dispatch { event, at, .. } => Some((*at, *event)),
            BlockStep::Render { .. } => None,
        })
        .collect()
}

fn rendered(steps: &[BlockStep]) -> usize {
    steps
        .iter()
        .map(|step| match step {
            BlockStep::Render { frames } => *frames,
            BlockStep::Dispatch { .. } => 0,
        })
        .sum()
}

#[test]
fn ordering_at_identical_sample_time() {
    let (mut producer, consumer) = audio_queue();
    let queued = vec![
        at(0, Bus::UserMonitor, MidiLikeEvent::NoteOn { note: 60, velocity: 100 }),
        at(0, Bus::UserMonitor, MidiLikeEvent::NoteOff { note: 60 }),
        at(0, Bus::UserMonitor, MidiLikeEvent::Cc64 { value: 127 }),
    ];
    assert_eq!(send_all(&mut producer, &queued), 3);
    let mut graph = AudioGraph::new(consumer, AudioClock::new());
    graph.render(0, 128, true);
    assert_eq!(
        dispatches(graph.steps()),
        vec![
            (0, MidiLikeEvent::Cc64 { value: 127 }),
            (0, MidiLikeEvent::NoteOff { note: 60 }),
            (0, MidiLikeEvent::NoteOn { note: 60, velocity: 100 }),
        ]
    );
    assert_eq!(graph.steps().len(), 4);
    assert_eq!(graph.steps()[3], BlockStep::Render { frames: 128 });
    assert_eq!(graph.clock().get(), 128);
}

#[test]
fn pedal_up_follows_the_notes_of_its_sample() {
    let (mut producer, consumer) = audio_queue();
    let queued = vec![
        at(5, Bus::Autopilot, MidiLikeEvent::Cc64 { value: 10 }),
        at(5, Bus::Autopilot, MidiLikeEvent::NoteOn { note: 64, velocity: 80 }),
        at(5, Bus::Autopilot, MidiLikeEvent::NoteOn { note: 60, velocity: 80 }),
        at(5, Bus::Autopilot, MidiLikeEvent::NoteOff { note: 72 }),
    ];
    send_all(&mut producer, &queued);
    let mut graph = AudioGraph::new(consumer, AudioClock::new());
    graph.render(0, 64, true);
    assert_eq!(
        dispatches(graph.steps()),
        vec![
            (5, MidiLikeEvent::NoteOff { note: 72 }),
            (5, MidiLikeEvent::NoteOn { note: 60, velocity: 80 }),
            (5, MidiLikeEvent::NoteOn { note: 64, velocity: 80 }),
            (5, MidiLikeEvent::Cc64 { value: 10 }),
        ]
    );
}

#[test]
fn events_split_the_block_into_segments() {
    let (mut producer, consumer) = audio_queue();
    let queued = vec![
        at(110, Bus::UserMonitor, MidiLikeEvent::NoteOn { note: 60, velocity: 100 }),
        at(150, Bus::UserMonitor, MidiLikeEvent::NoteOff { note: 60 }),
        at(300, Bus::UserMonitor, MidiLikeEvent::NoteOn { note: 62, velocity: 100 }),
    ];
    send_all(&mut producer, &queued);
    let mut graph = AudioGraph::new(consumer, AudioClock::new());
    graph.render(100, 100, true);
    assert_eq!(
        graph.steps().clone(),
        vec![
            BlockStep::Render { frames: 10 },
            BlockStep::Dispatch {
                bus: Bus::UserMonitor,
                event: MidiLikeEvent::NoteOn { note: 60, velocity: 100 },
                at: 110
            },
            BlockStep::Render { frames: 40 },
            BlockStep::Dispatch {
                bus: Bus::UserMonitor,
                event: MidiLikeEvent::NoteOff { note: 60 },
                at: 150
            },
            BlockStep::Render { frames: 50 },
        ]
    );
    assert_eq!(graph.clock().get(), 200);
    assert_eq!(graph.events().len(), 2);

    // The event held back is handed on in the block in which it falls.
    graph.render(200, 100, true);
    assert!(dispatches(graph.steps()).is_empty());
    assert_eq!(rendered(graph.steps()), 100);
    graph.render(300, 100, true);
    assert_eq!(
        dispatches(graph.steps()),
        vec![(300, MidiLikeEvent::NoteOn { note: 62, velocity: 100 })]
    );
    assert_eq!(graph.clock().get(), 400);
}

#[test]
fn every_queued_event_is_dispatched_once() {
    let (mut producer, consumer) = audio_queue();
    let mut queued = Vec::new();
    for i in 0..40u64 {
        queued.push(at(
            1000 + (i * 37) % 256,
            Bus::Autopilot,
            MidiLikeEvent::NoteOn { note: (i % 128) as u8, velocity: 64 },
        ));
    }
    assert_eq!(send_all(&mut producer, &queued), 40);
    let mut graph = AudioGraph::new(consumer, AudioClock::new());
    graph.render(1000, 256, true);
    let handed = dispatches(graph.steps());
    assert_eq!(handed.len(), 40);
    for pair in handed.windows(2) {
        let a = (pair[0].0, midi_event_rank(&pair[0].1), midi_event_note_key(&pair[0].1));
        let b = (pair[1].0, midi_event_rank(&pair[1].1), midi_event_note_key(&pair[1].1));
        assert!(a <= b);
    }
    assert_eq!(rendered(graph.steps()), 256);
    assert_eq!(graph.clock().get(), 1256);
}

#[test]
fn overdue_events_are_dispatched_before_anything_is_rendered() {
    let mut steps = Vec::new();
    let events = vec![at(5, Bus::UserMonitor, MidiLikeEvent::NoteOff { note: 60 })];
    plan_block(&events, 100, 10, true, &mut steps);
    assert_eq!(
        steps,
        vec![
            BlockStep::Dispatch {
                bus: Bus::UserMonitor,
                event: MidiLikeEvent::NoteOff { note: 60 },
                at: 5
            },
            BlockStep::Render { frames: 10 },
        ]
    );
}

#[test]
fn global_mute_skips_score_note_ons() {
    let mut steps = Vec::new();
    let events = vec![
        at(0, Bus::Autopilot, MidiLikeEvent::NoteOn { note: 60, velocity: 1 }),
        at(0, Bus::MetronomeFx, MidiLikeEvent::NoteOn { note: 61, velocity: 1 }),
        at(0, Bus::UserMonitor, MidiLikeEvent::NoteOn { note: 62, velocity: 1 }),
        at(1, Bus::Autopilot, MidiLikeEvent::NoteOff { note: 60 }),
    ];
    plan_block(&events, 0, 8, false, &mut steps);
    assert_eq!(
        dispatches(&steps),
        vec![
            (0, MidiLikeEvent::NoteOn { note: 62, velocity: 1 }),
            (1, MidiLikeEvent::NoteOff { note: 60 }),
        ]
    );
    assert_eq!(rendered(&steps), 8);
    plan_block(&events, 0, 8, true, &mut steps);
    assert_eq!(dispatches(&steps).len(), 4);
}

#[test]
fn empty_block_renders_nothing() {
    let mut steps = vec![BlockStep::Render { frames: 3 }];
    plan_block(&Vec::new(), 77, 0, true, &mut steps);
    assert!(steps.is_empty());
}

#[test]
fn clock_is_set_and_read() {
    let mut clock = AudioClock::new();
    assert_eq!(clock.get(), 0);
    clock.set(4242);
    assert_eq!(clock.get(), 4242);
    assert_eq!(AudioClock::default().get(), 0);
}

#[test]
fn clock_is_monotonic_across_blocks() {
    let (_producer, consumer) = audio_queue();
    let mut graph = AudioGraph::new(consumer, AudioClock::new());
    let mut start = 0u64;
    let mut last = 0u64;
    for frames in [64usize, 128, 0, 512, 1] {
        graph.render(start, frames, true);
        assert_eq!(graph.clock().get(), start + frames as u64);
        assert!(graph.clock().get() >= last);
        last = graph.clock().get();
        start = last;
    }
}

#[test]
fn event_ranks_and_note_keys() {
    assert_eq!(midi_event_rank(&MidiLikeEvent::Cc64 { value: 64 }), 0);
    assert_eq!(midi_event_rank(&MidiLikeEvent::Cc64 { value: 63 }), 3);
    assert_eq!(midi_event_rank(&MidiLikeEvent::NoteOff { note: 1 }), 1);
    assert_eq!(midi_event_rank(&MidiLikeEvent::NoteOn { note: 1, velocity: 1 }), 2);
    assert_eq!(midi_event_note_key(&MidiLikeEvent::NoteOn { note: 9, velocity: 1 }), 9);
    assert_eq!(midi_event_note_key(&MidiLikeEvent::NoteOff { note: 8 }), 8);
    assert_eq!(midi_event_note_key(&MidiLikeEvent::Cc64 { value: 100 }), 0);
}

#[test]
fn params_mute_score_buses_while_playback_is_disabled() {
    let settings = SettingsDto::default();
    let mut params = AudioParams::new(&settings);
    assert!(!params.playback_enabled());
    assert!(params.monitor_enabled());
    assert_eq!(f32::from_bits(params.master()), 0.8);
    assert_eq!(f32::from_bits(params.bus(Bus::UserMonitor)), 0.8);
    assert_eq!(f32::from_bits(params.bus(Bus::Autopilot)), 0.0);
    assert_eq!(f32::from_bits(params.bus(Bus::MetronomeFx)), 0.0);
    params.set_playback_enabled(true);
    assert_eq!(f32::from_bits(params.bus(Bus::Autopilot)), 0.8);
    assert_eq!(f32::from_bits(params.bus(Bus::MetronomeFx)), 0.6);
    params.set_bus(Bus::Autopilot, Volume01::new(0.25f32.to_bits()));
    params.set_master(Volume01::new(0.5f32.to_bits()));
    params.set_monitor_enabled(false);
    assert_eq!(f32::from_bits(params.bus(Bus::Autopilot)), 0.25);
    assert_eq!(f32::from_bits(params.master()), 0.5);
    assert!(!params.monitor_enabled());
}

#[test]
fn volume_is_clamped_to_the_unit_range() {
    for (given, expected) in [
        (0.0f32, 0.0f32),
        (0.5, 0.5),
        (1.0, 1.0),
        (1.5, 1.0),
        (f32::INFINITY, 1.0),
        (-0.25, 0.0),
        (f32::NEG_INFINITY, 0.0),
        (f32::MIN_POSITIVE, f32::MIN_POSITIVE),
    ] {
        let volume = Volume01::new(given.to_bits());
        assert_eq!(f32::from_bits(volume.get()), expected);
        assert_eq!(volume.get(), given.clamp(0.0, 1.0).to_bits());
    }
    assert!(f32::from_bits(Volume01::new(f32::NAN.to_bits()).get()).is_nan());
    assert_eq!(Volume01::new((-0.0f32).to_bits()).get(), (-0.0f32).clamp(0.0, 1.0).to_bits());
}

fn handed_on(steps: &[BlockStep]) -> Vec<(Bus, MidiLikeEvent, u64)> {
    steps
        .iter()
        .filter_map(|step| match step {
            BlockStep::Dispatch { bus, event, at } => Some((*bus, *event, *at)),
            BlockStep::Render { .. } => None,
        })
        .collect()
}

#[test]
fn an_overdue_event_keeps_its_own_sample_time() {
    let (mut producer, consumer) = audio_queue();
    let late = at(10, Bus::UserMonitor, MidiLikeEvent::NoteOff { note: 60 });
    assert_eq!(send_all(&mut producer, &vec![late]), 1);
    let mut clock = AudioClock::new();
    clock.set(64);
    let mut graph = AudioGraph::new(consumer, clock);
    graph.render(64, 64, true);
    assert_eq!(
        graph.steps().as_slice(),
        &[
            BlockStep::Dispatch {
                bus: Bus::UserMonitor,
                event: MidiLikeEvent::NoteOff { note: 60 },
                at: 10
            },
            BlockStep::Render { frames: 64 },
        ]
    );
    assert_eq!(graph.clock().get(), 128);
}

#[test]
fn an_event_between_two_overdue_ones_is_rendered_up_to() {
    let events = vec![
        at(5, Bus::Autopilot, MidiLikeEvent::NoteOff { note: 1 }),
        at(80, Bus::Autopilot, MidiLikeEvent::NoteOn { note: 2, velocity: 9 }),
        at(70, Bus::Autopilot, MidiLikeEvent::NoteOff { note: 3 }),
    ];
    let mut steps = Vec::new();
    plan_block(&events, 64, 64, true, &mut steps);
    assert_eq!(
        steps,
        vec![
            BlockStep::Dispatch {
                bus: Bus::Autopilot,
                event: MidiLikeEvent::NoteOff { note: 1 },
                at: 5
            },
            BlockStep::Render { frames: 16 },
            BlockStep::Dispatch {
                bus: Bus::Autopilot,
                event: MidiLikeEvent::NoteOn { note: 2, velocity: 9 },
                at: 80
            },
            BlockStep::Dispatch {
                bus: Bus::Autopilot,
                event: MidiLikeEvent::NoteOff { note: 3 },
                at: 70
            },
            BlockStep::Render { frames: 48 },
        ]
    );
}

#[test]
fn every_queued_event_of_the_block_is_handed_on_once() {
    let (mut producer, consumer) = audio_queue();
    let queued = vec![
        at(30, Bus::Autopilot, MidiLikeEvent::NoteOn { note: 64, velocity: 80 }),
        at(0, Bus::UserMonitor, MidiLikeEvent::NoteOn { note: 60, velocity: 100 }),
        at(30, Bus::Autopilot, MidiLikeEvent::NoteOn { note: 62, velocity: 80 }),
        at(63, Bus::MetronomeFx, MidiLikeEvent::Cc64 { value: 0 }),
        at(30, Bus::UserMonitor, MidiLikeEvent::NoteOn { note: 62, velocity: 70 }),
        at(30, Bus::Autopilot, MidiLikeEvent::NoteOff { note: 90 }),
    ];
    assert_eq!(send_all(&mut producer, &queued), 6);
    let mut graph = AudioGraph::new(consumer, AudioClock::new());
    graph.render(0, 64, true);
    assert_eq!(
        handed_on(graph.steps()),
        vec![
            (Bus::UserMonitor, MidiLikeEvent::NoteOn { note: 60, velocity: 100 }, 0),
            (Bus::Autopilot, MidiLikeEvent::NoteOff { note: 90 }, 30),
            (Bus::Autopilot, MidiLikeEvent::NoteOn { note: 62, velocity: 80 }, 30),
            (Bus::UserMonitor, MidiLikeEvent::NoteOn { note: 62, velocity: 70 }, 30),
            (Bus::Autopilot, MidiLikeEvent::NoteOn { note: 64, velocity: 80 }, 30),
            (Bus::MetronomeFx, MidiLikeEvent::Cc64 { value: 0 }, 63),
        ]
    );
    assert_eq!(rendered(graph.steps()), 64);
    graph.render(64, 64, true);
    assert!(handed_on(graph.steps()).is_empty());
    assert_eq!(graph.clock().get(), 128);
}

#[test]
fn a_muted_note_on_is_neither_handed_on_nor_kept() {
    let (mut producer, consumer) = audio_queue();
    let queued = vec![
        at(0, Bus::Autopilot, MidiLikeEvent::NoteOn { note: 60, velocity: 100 }),
        at(0, Bus::MetronomeFx, MidiLikeEvent::NoteOn { note: 61, velocity: 100 }),
        at(0, Bus::Autopilot, MidiLikeEvent::NoteOff { note: 60 }),
        at(0, Bus::UserMonitor, MidiLikeEvent::NoteOn { note: 62, velocity: 100 }),
    ];
    assert_eq!(send_all(&mut producer, &queued), 4);
    let mut graph = AudioGraph::new(consumer, AudioClock::new());
    graph.render(0, 64, false);
    assert_eq!(
        handed_on(graph.steps()),
        vec![
            (Bus::Autopilot, MidiLikeEvent::NoteOff { note: 60 }, 0),
            (Bus::UserMonitor, MidiLikeEvent::NoteOn { note: 62, velocity: 100 }, 0),
        ]
    );
    graph.render(64, 64, true);
    assert!(handed_on(graph.steps()).is_empty());
}

#[test]
fn an_event_of_a_later_block_is_held_and_handed_on_once() {
    let (mut producer, consumer) = audio_queue();
    let queued = vec![
        at(10, Bus::Autopilot, MidiLikeEvent::NoteOn { note: 60, velocity: 100 }),
        at(128, Bus::Autopilot, MidiLikeEvent::NoteOff { note: 60 }),
        at(20, Bus::Autopilot, MidiLikeEvent::NoteOn { note: 61, velocity: 100 }),
        at(300, Bus::Autopilot, MidiLikeEvent::NoteOff { note: 61 }),
    ];
    assert_eq!(send_all(&mut producer, &queued), 4);
    let mut graph = AudioGraph::new(consumer, AudioClock::new());

    graph.render(0, 128, true);
    assert_eq!(
        handed_on(graph.steps()),
        vec![(Bus::Autopilot, MidiLikeEvent::NoteOn { note: 60, velocity: 100 }, 10)]
    );

    graph.render(128, 128, true);
    assert_eq!(
        handed_on(graph.steps()),
        vec![
            (Bus::Autopilot, MidiLikeEvent::NoteOn { note: 61, velocity: 100 }, 20),
            (Bus::Autopilot, MidiLikeEvent::NoteOff { note: 60 }, 128),
        ]
    );

    graph.render(256, 32, true);
    assert!(handed_on(graph.steps()).is_empty());
    let pedal_up = at(1, Bus::UserMonitor, MidiLikeEvent::Cc64 { value: 0 });
    assert_eq!(send_all(&mut producer, &vec![pedal_up]), 1);
    graph.render(288, 32, true);
    assert_eq!(
        handed_on(graph.steps()),
        vec![
            (Bus::UserMonitor, MidiLikeEvent::Cc64 { value: 0 }, 1),
            (Bus::Autopilot, MidiLikeEvent::NoteOff { note: 61 }, 300),
        ]
    );
    graph.render(320, 32, true);
    assert!(handed_on(graph.steps()).is_empty());
    assert_eq!(graph.clock().get(), 352);
}
