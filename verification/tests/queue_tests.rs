use cadenza::engine::queue::{
    audio_queue, drain_player_events, player_queue, send_all, AUDIO_QUEUE_CAPACITY,
    MIDI_QUEUE_CAPACITY,
};
use cadenza::ports::midi::{MidiLikeEvent, PlayerEvent};
use cadenza::ports::playback::ScheduledEvent;
use cadenza::ports::types::Bus;

fn note(sample_time: u64) -> ScheduledEvent {
    ScheduledEvent {
        sample_time,
        bus: Bus::Autopilot,
        event: MidiLikeEvent::NoteOn { note: (sample_time % 128) as u8, velocity: 64 },
    }
}

fn drained(consumer: &mut rtrb::Consumer<PlayerEvent>, limit: usize) -> Vec<(u64, MidiLikeEvent)> {
    drain_player_events(consumer, limit).into_iter().map(|e| (e.at, e.event)).collect()
}

fn stamped(at: u64) -> (u64, MidiLikeEvent) {
    let event = played(at);
    (event.at, event.event)
}

fn played(at: u64) -> PlayerEvent {
    PlayerEvent { at, event: MidiLikeEvent::NoteOff { note: (at % 128) as u8 } }
}

#[test]
fn queues_are_made_with_their_slots_and_empty() {
    let (producer, mut consumer) = audio_queue();
    assert_eq!(AUDIO_QUEUE_CAPACITY, 4096);
    assert_eq!(producer.buffer().capacity(), 4096);
    assert_eq!(consumer.buffer().capacity(), 4096);
    assert_eq!(producer.slots(), 4096);
    assert!(consumer.pop().is_err());

    let (producer, mut consumer) = player_queue();
    assert_eq!(MIDI_QUEUE_CAPACITY, 2048);
    assert_eq!(producer.buffer().capacity(), 2048);
    assert_eq!(producer.slots(), 2048);
    assert!(consumer.pop().is_err());
}

#[test]
fn send_all_puts_events_into_the_queue_in_order() {
    let (mut producer, mut consumer) = audio_queue();
    let events: Vec<ScheduledEvent> = (0..5).map(note).collect();
    assert_eq!(send_all(&mut producer, &events), 5);
    assert_eq!(send_all(&mut producer, &Vec::new()), 0);
    let more: Vec<ScheduledEvent> = (5..8).map(note).collect();
    assert_eq!(send_all(&mut producer, &more), 3);
    for expected in 0..8 {
        assert_eq!(consumer.pop().ok(), Some(note(expected)));
    }
    assert!(consumer.pop().is_err());
}

#[test]
fn send_all_fills_a_new_queue_to_its_last_slot() {
    let (mut producer, mut consumer) = audio_queue();
    let events: Vec<ScheduledEvent> = (0..4096).map(note).collect();
    assert_eq!(send_all(&mut producer, &events), 4096);
    assert_eq!(send_all(&mut producer, &events), 0);
    assert_eq!(consumer.pop().ok(), Some(note(0)));
    assert_eq!(consumer.pop().ok(), Some(note(1)));
}

#[test]
fn send_all_drops_what_finds_no_room() {
    let (mut producer, mut consumer) = audio_queue();
    let fill: Vec<ScheduledEvent> = (0..4090).map(note).collect();
    assert_eq!(send_all(&mut producer, &fill), 4090);
    let late: Vec<ScheduledEvent> = (10_000..10_010).map(note).collect();
    assert_eq!(send_all(&mut producer, &late), 6);
    for expected in 0..4090 {
        assert_eq!(consumer.pop().ok(), Some(note(expected)));
    }
    for expected in 10_000..10_006 {
        assert_eq!(consumer.pop().ok(), Some(note(expected)));
    }
    assert!(consumer.pop().is_err());
    assert_eq!(send_all(&mut producer, &late), 10);
}

#[test]
fn drain_takes_the_oldest_events_up_to_the_limit() {
    let (mut producer, mut consumer) = player_queue();
    assert_eq!(drained(&mut consumer, 8), Vec::new());
    for at in 0..5 {
        assert!(producer.push(played(at)).is_ok());
    }
    assert_eq!(drained(&mut consumer, 0), Vec::new());
    assert_eq!(drained(&mut consumer, 3), vec![stamped(0), stamped(1), stamped(2)]);
    assert!(producer.push(played(5)).is_ok());
    assert_eq!(drained(&mut consumer, 8), vec![stamped(3), stamped(4), stamped(5)]);
    assert_eq!(drained(&mut consumer, 8), Vec::new());
}
