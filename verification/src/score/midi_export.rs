//! From a score to the events of a single-track Standard MIDI File.

use crate::ports::midi::MidiLikeEvent;
use crate::ports::types::Tick;
use crate::score::midi_file::{SmfEvent, SmfEventKind};
use crate::score::midi_write::{
    controller_event, end_of_track_event, note_off_event, note_on_event, smf_bytes, tempo_event,
    track_item, track_items, write_track, TrackItem, TrackItemKind, MAX_DELTA, MAX_TEMPO,
    MAX_TRACK_EVENTS,
};
use crate::score::model::{PlaybackMidiEvent, Score, TempoPoint};
use crate::sorting::{is_stable_sort_of, lemma_sort_keeps_all, stable_sort, Key, KeyOrder};
use vstd::pervasive::unreached;
use vstd::prelude::*;

verus! {

#[derive(Clone, Debug)]
pub enum MidiExportError {
    Io(String),
    InvalidScore(String),
}

/// An event of the track at its tick.
#[derive(Clone, Copy, Debug, PartialEq, Eq, Structural)]
pub struct TimedEvent {
    pub tick: Tick,
    pub kind: SmfEventKind,
}

/// Rank of an event among those of one tick: tempo first, then pedal down,
/// note off, note on, and pedal up last. A note on of velocity 0 ranks as a
/// note off.
pub open spec fn export_rank(kind: SmfEventKind) -> int {
    match kind {
        SmfEventKind::Tempo(_) => 0,
        SmfEventKind::Controller(controller, value) => if controller == 64 {
            if value >= 64 {
                1
            } else {
                4
            }
        } else {
            5
        },
        SmfEventKind::NoteOff(_) => 2,
        SmfEventKind::NoteOn(_, vel) => if vel == 0 {
            2
        } else {
            3
        },
        SmfEventKind::Other => 6,
    }
}

/// The key of a note event, 0 for any other.
pub open spec fn export_key(kind: SmfEventKind) -> int {
    match kind {
        SmfEventKind::NoteOff(key) => key as int,
        SmfEventKind::NoteOn(key, _) => key as int,
        _ => 0,
    }
}

fn rank_of(kind: &SmfEventKind) -> (rank: u8)
    ensures
        rank == export_rank(*kind),
{
    match kind {
        SmfEventKind::Tempo(_) => 0,
        SmfEventKind::Controller(controller, value) => {
            if *controller == 64 {
                if *value >= 64 {
                    1
                } else {
                    4
                }
            } else {
                5
            }
        },
        SmfEventKind::NoteOff(_) => 2,
        SmfEventKind::NoteOn(_, vel) => {
            if *vel == 0 {
                2
            } else {
                3
            }
        },
        SmfEventKind::Other => 6,
    }
}

fn key_of(kind: &SmfEventKind) -> (key: u8)
    ensures
        key == export_key(*kind),
{
    match kind {
        SmfEventKind::NoteOff(key) => *key,
        SmfEventKind::NoteOn(key, _) => *key,
        _ => 0,
    }
}

/// Orders the events of the track by tick, then by rank, then by key.
pub struct ExportOrder;

impl KeyOrder<TimedEvent> for ExportOrder {
    open spec fn key(t: TimedEvent) -> Key {
        (t.tick as int, export_rank(t.kind), export_key(t.kind))
    }

    fn le(a: &TimedEvent, b: &TimedEvent) -> (r: bool) {
        if a.tick != b.tick {
            return a.tick < b.tick;
        }
        let rank_a = rank_of(&a.kind);
        let rank_b = rank_of(&b.kind);
        if rank_a != rank_b {
            return rank_a < rank_b;
        }
        key_of(&a.kind) <= key_of(&b.kind)
    }
}

/// What seven bits hold of a number.
pub open spec fn low7(x: u8) -> u8 {
    (x % 128) as u8
}

/// A tempo change as an event of the track, with what 24 bits hold of the
/// tempo.
pub open spec fn tempo_event_of(p: TempoPoint) -> TimedEvent {
    TimedEvent {
        tick: p.tick,
        kind: SmfEventKind::Tempo((p.us_per_quarter as int % (MAX_TEMPO + 1)) as u32),
    }
}

/// The tempo changes of a score as events of the track.
pub open spec fn tempo_events(points: Seq<TempoPoint>) -> Seq<TimedEvent> {
    points.map_values(|p: TempoPoint| tempo_event_of(p))
}

/// A playback event as an event of the track: a note on has a velocity of
/// 1 at least, the pedal is controller 64, and of each number the event
/// has what seven bits hold.
pub open spec fn export_event(e: PlaybackMidiEvent) -> TimedEvent {
    TimedEvent {
        tick: e.tick,
        kind: match e.event {
            MidiLikeEvent::NoteOn { note, velocity } => SmfEventKind::NoteOn(
                low7(note),
                if velocity == 0 {
                    1
                } else {
                    low7(velocity)
                },
            ),
            MidiLikeEvent::NoteOff { note } => SmfEventKind::NoteOff(low7(note)),
            MidiLikeEvent::Cc64 { value } => SmfEventKind::Controller(64, low7(value)),
        },
    }
}

fn seven_bits(x: u8) -> (r: u8)
    ensures
        r == low7(x),
{
    assert(x & 0x7f == x % 128) by (bit_vector);
    x & 0x7f
}

/// The event can be written: it is of a kind that a score has, and its
/// numbers fit the fields of a file.
pub open spec fn is_writable(kind: SmfEventKind) -> bool {
    match kind {
        SmfEventKind::NoteOn(key, vel) => key < 128 && vel < 128,
        SmfEventKind::NoteOff(key) => key < 128,
        SmfEventKind::Controller(controller, value) => controller < 128 && value < 128,
        SmfEventKind::Tempo(us_per_quarter) => us_per_quarter <= MAX_TEMPO,
        SmfEventKind::Other => false,
    }
}

/// The events of the track before they are sorted: the tempo changes,
/// then the playback events.
pub open spec fn track_events(points: Seq<TempoPoint>, playback: Seq<PlaybackMidiEvent>) -> Seq<
    TimedEvent,
> {
    tempo_events(points) + playback.map_values(|e: PlaybackMidiEvent| export_event(e))
}

/// The delta time from the tick `last` to the tick `tick`: nothing where
/// the tick does not lie behind, and what 28 bits hold of it otherwise.
pub open spec fn delta_between(last: Tick, tick: Tick) -> u32 {
    if tick <= last {
        0
    } else {
        ((tick - last) % (MAX_DELTA + 1)) as u32
    }
}

/// The tick from which the delta time of the `n`-th event counts: that of
/// the event before it, and 0 for the first.
pub open spec fn tick_before(events: Seq<TimedEvent>, n: int) -> Tick {
    if n <= 0 {
        0
    } else {
        events[n - 1].tick
    }
}

/// The events `events` each with its delta time to the one before it.
pub open spec fn with_deltas(events: Seq<TimedEvent>) -> Seq<SmfEvent> {
    Seq::new(
        events.len(),
        |i: int|
            SmfEvent {
                delta: delta_between(tick_before(events, i), events[i].tick),
                kind: events[i].kind,
            },
    )
}

/// The resolution and the events of the single track of a file.
pub struct MidiExport {
    pub ppq: u16,
    pub events: Vec<SmfEvent>,
}

/// What a file of `score` holds: its resolution and, in one track, the
/// tempo changes and the playback events of the first track, sorted by
/// tick, rank and key, each with its delta time. A score without a track
/// cannot be written.
pub fn export_midi_events(score: &Score) -> (exported: Result<MidiExport, MidiExportError>)
    ensures
        match exported {
            Ok(file) => score.tracks@.len() > 0 && file.ppq == score.ppq && exists|
                sorted: Seq<TimedEvent>,
            | #[trigger]
                is_stable_sort_of::<TimedEvent, ExportOrder>(
                    sorted,
                    track_events(score.tempo_map@, score.tracks@[0].playback_events@),
                ) && file.events@ == with_deltas(sorted),
            Err(MidiExportError::InvalidScore(_)) => score.tracks@.len() == 0,
            Err(_) => false,
        },
        exported matches Ok(file) ==> forall|i: int|
            0 <= i < file.events@.len() ==> (#[trigger] file.events@[i]).delta <= MAX_DELTA
                && is_writable(file.events@[i].kind),
{
    if score.tracks.len() == 0 {
        return Err(MidiExportError::InvalidScore("no tracks".to_string()));
    }
    let playback = &score.tracks[0].playback_events;
    let mut events: Vec<TimedEvent> = Vec::new();
    let mut i: usize = 0;
    while i < score.tempo_map.len()
        invariant
            i <= score.tempo_map@.len(),
            events@ == tempo_events(score.tempo_map@.subrange(0, i as int)),
            forall|j: int| 0 <= j < events@.len() ==> is_writable((#[trigger] events@[j]).kind),
        decreases score.tempo_map@.len() - i,
    {
        let point = score.tempo_map[i];
        events.push(
            TimedEvent {
                tick: point.tick,
                kind: SmfEventKind::Tempo(point.us_per_quarter % (MAX_TEMPO + 1)),
            },
        );
        assert(events@ =~= tempo_events(score.tempo_map@.subrange(0, i + 1)));
        i = i + 1;
    }
    assert(score.tempo_map@.subrange(0, score.tempo_map@.len() as int) =~= score.tempo_map@);
    let mut k: usize = 0;
    assert(events@ =~= track_events(score.tempo_map@, playback@.subrange(0, 0)));
    while k < playback.len()
        invariant
            k <= playback@.len(),
            events@ == track_events(score.tempo_map@, playback@.subrange(0, k as int)),
            forall|j: int| 0 <= j < events@.len() ==> is_writable((#[trigger] events@[j]).kind),
        decreases playback@.len() - k,
    {
        let e = playback[k];
        let kind = match e.event {
            MidiLikeEvent::NoteOn { note, velocity } => SmfEventKind::NoteOn(
                seven_bits(note),
                if velocity == 0 {
                    1
                } else {
                    seven_bits(velocity)
                },
            ),
            MidiLikeEvent::NoteOff { note } => SmfEventKind::NoteOff(seven_bits(note)),
            MidiLikeEvent::Cc64 { value } => SmfEventKind::Controller(64, seven_bits(value)),
        };
        events.push(TimedEvent { tick: e.tick, kind });
        assert(events@ =~= track_events(score.tempo_map@, playback@.subrange(0, k + 1)));
        k = k + 1;
    }
    assert(playback@.subrange(0, playback@.len() as int) =~= playback@);
    let ghost given = events@;
    stable_sort::<TimedEvent, ExportOrder>(&mut events);
    proof {
        lemma_sort_keeps_all::<TimedEvent, ExportOrder>(
            events@,
            given,
            |e: TimedEvent| is_writable(e.kind),
        );
    }
    let mut track: Vec<SmfEvent> = Vec::new();
    let mut last_tick: Tick = 0;
    let mut n: usize = 0;
    while n < events.len()
        invariant
            n <= events@.len(),
            last_tick == tick_before(events@, n as int),
            track@ == with_deltas(events@).subrange(0, n as int),
            forall|j: int| 0 <= j < events@.len() ==> is_writable((#[trigger] events@[j]).kind),
            forall|j: int|
                0 <= j < track@.len() ==> (#[trigger] track@[j]).delta <= MAX_DELTA && is_writable(
                    track@[j].kind,
                ),
        decreases events@.len() - n,
    {
        let event = events[n];
        let delta: u32 = if event.tick <= last_tick {
            0
        } else {
            let gap: i128 = event.tick as i128 - last_tick as i128;
            (gap % (MAX_DELTA as i128 + 1)) as u32
        };
        last_tick = event.tick;
        track.push(SmfEvent { delta, kind: event.kind });
        assert(track@ =~= with_deltas(events@).subrange(0, n + 1));
        n = n + 1;
    }
    assert(with_deltas(events@).subrange(0, events@.len() as int) =~= with_deltas(events@));
    Ok(MidiExport { ppq: score.ppq, events: track })
}

/// An event of a file as `midly` holds it: a note off has the velocity
/// 64.
pub open spec fn item_of(e: SmfEvent) -> TrackItem {
    TrackItem {
        delta: e.delta,
        kind: match e.kind {
            SmfEventKind::NoteOn(key, vel) => TrackItemKind::NoteOn(key, vel),
            SmfEventKind::NoteOff(key) => TrackItemKind::NoteOff(key, 64),
            SmfEventKind::Controller(controller, value) => TrackItemKind::Controller(
                controller,
                value,
            ),
            SmfEventKind::Tempo(us_per_quarter) => TrackItemKind::Tempo(us_per_quarter),
            SmfEventKind::Other => TrackItemKind::Other,
        },
    }
}

/// The track that is written for the events `events`: each of them, and
/// the end of the track behind the last.
pub open spec fn written_track(events: Seq<SmfEvent>) -> Seq<TrackItem> {
    events.map_values(|e: SmfEvent| item_of(e)).push(
        TrackItem { delta: 0, kind: TrackItemKind::EndOfTrack },
    )
}

/// The bytes of the file of `score`: a file of format 0 whose one track
/// holds the events that `export_midi_events` gives and then its end. A
/// score without a track cannot be written. Any other is written, unless
/// its tempo changes and the playback events of its first track are more
/// than `MAX_TRACK_EVENTS` together with the end of the track: then the
/// encoder may refuse.
pub fn export_midi_bytes(score: &Score) -> (exported: Result<Vec<u8>, MidiExportError>)
    ensures
        score.tracks@.len() > 0 && score.tempo_map@.len() + score.tracks@[0].playback_events@.len()
            < MAX_TRACK_EVENTS ==> exported is Ok,
        match exported {
            Ok(bytes) => score.tracks@.len() > 0 && exists|sorted: Seq<TimedEvent>| #[trigger]
                is_stable_sort_of::<TimedEvent, ExportOrder>(
                    sorted,
                    track_events(score.tempo_map@, score.tracks@[0].playback_events@),
                ) && bytes@ == smf_bytes(score.ppq, written_track(with_deltas(sorted))),
            Err(MidiExportError::InvalidScore(_)) => score.tracks@.len() == 0,
            Err(MidiExportError::Io(_)) => score.tracks@.len() > 0,
        },
{
    let file = match export_midi_events(score) {
        Ok(file) => file,
        Err(e) => {
            return Err(e);
        },
    };
    let ghost sorted = choose|sorted: Seq<TimedEvent>| #[trigger]
        is_stable_sort_of::<TimedEvent, ExportOrder>(
            sorted,
            track_events(score.tempo_map@, score.tracks@[0].playback_events@),
        ) && file.events@ == with_deltas(sorted);
    let mut track: Vec<midly::TrackEvent<'static>> = Vec::new();
    let mut i: usize = 0;
    while i < file.events.len()
        invariant
            i <= file.events@.len(),
            track@.len() == i,
            forall|j: int|
                0 <= j < file.events@.len() ==> (#[trigger] file.events@[j]).delta <= MAX_DELTA
                    && is_writable(file.events@[j].kind),
            forall|j: int| 0 <= j < i ==> track_item(#[trigger] track@[j]) == item_of(file.events@[j]),
        decreases file.events@.len() - i,
    {
        let e = file.events[i];
        let event = match e.kind {
            SmfEventKind::NoteOn(key, vel) => note_on_event(e.delta, key, vel),
            SmfEventKind::NoteOff(key) => note_off_event(e.delta, key, 64),
            SmfEventKind::Controller(controller, value) => controller_event(
                e.delta,
                controller,
                value,
            ),
            SmfEventKind::Tempo(us_per_quarter) => tempo_event(e.delta, us_per_quarter),
            SmfEventKind::Other => unreached(),
        };
        track.push(event);
        i = i + 1;
    }
    track.push(end_of_track_event(0));
    assert(track_items(track@) =~= written_track(file.events@));
    match write_track(score.ppq, track) {
        Ok(bytes) => Ok(bytes),
        Err(message) => Err(MidiExportError::Io(message)),
    }
}

} // verus!
