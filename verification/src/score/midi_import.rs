//! From a Standard MIDI File to a score: the tracks are merged, the tempo
//! changes become the tempo map, the notes that start together become the
//! targets, and every note is given its end.

use crate::engine::audio_graph::{event_note_key, event_rank, midi_event_note_key, midi_event_rank};
use crate::ports::midi::MidiLikeEvent;
use crate::ports::types::{add_ticks, sat_add_tick, Tick};
use crate::score::midi_file::{
    event_at, event_count, parse_smf, smf_content, smf_timing, smf_tracks, timing_of, track_count,
    SmfContent, SmfEvent, SmfEventKind, SmfFile, SmfTiming,
};
use crate::score::model::{
    PlaybackMidiEvent, Score, ScoreMeta, ScoreSource, TargetEvent, TempoPoint, Track,
    DEFAULT_US_PER_QUARTER,
};
use crate::sorting::{is_stable_sort_of, stable_sort, Key, KeyOrder};
use crate::score::midi_header::{has_timecode_overflow, timecode_overflows};
use vstd::prelude::*;

verus! {

#[derive(Clone, Debug)]
pub enum MidiImportError {
    Io(String),
    Parse(String),
}

/// The number of pitches that a note can be held on.
pub const HELD_PITCHES: usize = 128;

/// Orders playback events by tick, then by rank, then by pitch.
pub struct PlaybackOrder;

impl KeyOrder<PlaybackMidiEvent> for PlaybackOrder {
    open spec fn key(t: PlaybackMidiEvent) -> Key {
        (t.tick as int, event_rank(t.event) as int, event_note_key(t.event) as int)
    }

    fn le(a: &PlaybackMidiEvent, b: &PlaybackMidiEvent) -> (r: bool) {
        if a.tick != b.tick {
            return a.tick < b.tick;
        }
        let rank_a = midi_event_rank(&a.event);
        let rank_b = midi_event_rank(&b.event);
        if rank_a != rank_b {
            return rank_a < rank_b;
        }
        midi_event_note_key(&a.event) <= midi_event_note_key(&b.event)
    }
}

/// The start of a note: its tick and its pitch.
#[derive(Clone, Copy, Debug, PartialEq, Eq, Structural)]
pub struct NoteOnAt {
    pub tick: Tick,
    pub note: u8,
}

/// Orders the starts of notes by tick, then by pitch.
pub struct NoteOnOrder;

impl KeyOrder<NoteOnAt> for NoteOnOrder {
    open spec fn key(t: NoteOnAt) -> Key {
        (t.tick as int, t.note as int, 0)
    }

    fn le(a: &NoteOnAt, b: &NoteOnAt) -> (r: bool) {
        if a.tick != b.tick {
            a.tick < b.tick
        } else {
            a.note <= b.note
        }
    }
}

/// Pulses per quarter note of a file with the timing `timing`: as written,
/// or the pulses of a second of time code.
pub open spec fn timing_ppq(timing: SmfTiming) -> u16 {
    match timing {
        SmfTiming::Metrical(ticks) => ticks,
        SmfTiming::Timecode { fps, ticks_per_frame } => {
            let per_frame: int = if ticks_per_frame == 0 {
                1
            } else {
                ticks_per_frame as int
            };
            if fps == 24 {
                (24 * per_frame) as u16
            } else if fps == 25 {
                (25 * per_frame) as u16
            } else {
                (30 * per_frame) as u16
            }
        },
    }
}

/// The tempo that time code fixes: a quarter note is a second, or a second
/// and a thousandth at 29.97 frames per second. Metrical timing fixes none.
pub open spec fn timing_tempo(timing: SmfTiming) -> Option<u32> {
    match timing {
        SmfTiming::Metrical(_) => None,
        SmfTiming::Timecode { fps, .. } => if fps == 29 {
            Some(1_001_000u32)
        } else {
            Some(1_000_000u32)
        },
    }
}

pub fn timecode_ppq_and_tempo(fps: u8, ticks_per_frame: u8) -> (r: (u16, u32))
    ensures
        r.0 == timing_ppq(SmfTiming::Timecode { fps, ticks_per_frame }),
        Some(r.1) == timing_tempo(SmfTiming::Timecode { fps, ticks_per_frame }),
{
    let per_frame: u16 = if ticks_per_frame == 0 {
        1
    } else {
        ticks_per_frame as u16
    };
    if fps == 24 {
        (24 * per_frame, 1_000_000)
    } else if fps == 25 {
        (25 * per_frame, 1_000_000)
    } else if fps == 29 {
        (30 * per_frame, 1_001_000)
    } else {
        (30 * per_frame, 1_000_000)
    }
}

/// The tempo changes as a map from tick to tempo, read from a list: a later
/// entry of a tick replaces an earlier one.
pub open spec fn tempo_changes(points: Seq<TempoPoint>) -> Map<Tick, u32>
    decreases points.len(),
{
    if points.len() == 0 {
        Map::empty()
    } else {
        tempo_changes(points.drop_last()).insert(points.last().tick, points.last().us_per_quarter)
    }
}

/// `points` lists the entries of `changes`, once each, by rising tick.
pub open spec fn lists_changes(points: Seq<TempoPoint>, changes: Map<Tick, u32>) -> bool {
    &&& forall|i: int, j: int|
        0 <= i < j < points.len() ==> (#[trigger] points[i]).tick < (#[trigger] points[j]).tick
    &&& forall|i: int|
        0 <= i < points.len() ==> changes.contains_key((#[trigger] points[i]).tick)
            && changes[points[i].tick] == points[i].us_per_quarter
    &&& forall|tick: Tick| #[trigger]
        changes.contains_key(tick) ==> exists|i: int|
            0 <= i < points.len() && (#[trigger] points[i]).tick == tick
}

/// Puts the tempo `us_per_quarter` at `tick` into a list kept by rising
/// tick, in place of what stood at that tick.
pub(crate) fn set_tempo(points: &mut Vec<TempoPoint>, tick: Tick, us_per_quarter: u32, changes: Ghost<
    Map<Tick, u32>,
>)
    requires
        lists_changes(old(points)@, changes@),
    ensures
        lists_changes(final(points)@, changes@.insert(tick, us_per_quarter)),
{
    let mut i: usize = 0;
    while i < points.len() && points[i].tick < tick
        invariant
            i <= points@.len(),
            points@ == old(points)@,
            forall|j: int| 0 <= j < i ==> (#[trigger] points@[j]).tick < tick,
        decreases points@.len() - i,
    {
        i = i + 1;
    }
    let ghost before = points@;
    let ghost after_map = changes@.insert(tick, us_per_quarter);
    if i < points.len() && points[i].tick == tick {
        points[i] = TempoPoint { tick, us_per_quarter };
        proof {
            assert forall|k: Tick| #[trigger] after_map.contains_key(k) implies exists|j: int|
                0 <= j < points@.len() && (#[trigger] points@[j]).tick == k by {
                if k == tick {
                    assert(points@[i as int].tick == k);
                } else {
                    let j = choose|j: int| 0 <= j < before.len() && (#[trigger] before[j]).tick == k;
                    assert(points@[j].tick == k);
                }
            }
        }
    } else {
        points.insert(i, TempoPoint { tick, us_per_quarter });
        proof {
            assert forall|a: int, b: int| 0 <= a < b < points@.len() implies (
            #[trigger] points@[a]).tick < (#[trigger] points@[b]).tick by {
                if a < i && b > i {
                    assert(before[a].tick < before[b - 1].tick);
                } else if a > i {
                    assert(before[a - 1].tick < before[b - 1].tick);
                } else if a < i && b < i {
                    assert(before[a].tick < before[b].tick);
                } else if a == i {
                    assert(before[b - 1].tick >= before[i as int].tick);
                }
            }
            assert forall|j: int| 0 <= j < points@.len() implies after_map.contains_key(
                (#[trigger] points@[j]).tick,
            ) && after_map[points@[j].tick] == points@[j].us_per_quarter by {
                if j < i {
                    assert(points@[j] == before[j]);
                } else if j > i {
                    assert(points@[j] == before[j - 1]);
                }
            }
            assert forall|k: Tick| #[trigger] after_map.contains_key(k) implies exists|j: int|
                0 <= j < points@.len() && (#[trigger] points@[j]).tick == k by {
                if k == tick {
                    assert(points@[i as int].tick == k);
                } else {
                    let j = choose|j: int| 0 <= j < before.len() && (#[trigger] before[j]).tick == k;
                    if j < i {
                        assert(points@[j].tick == k);
                    } else {
                        assert(points@[j + 1].tick == k);
                    }
                }
            }
        }
    }
}

/// The tempo changes that a tempo map is made of: `changes`, and the
/// default tempo at tick 0 where they name none for it.
pub open spec fn with_default_tempo(changes: Map<Tick, u32>) -> Map<Tick, u32> {
    if changes.contains_key(0) {
        changes
    } else {
        changes.insert(0, DEFAULT_US_PER_QUARTER)
    }
}

/// The tempo map of a file: the one tempo that time code fixes, or else
/// the tempo changes by rising tick, behind the default tempo at tick 0
/// where the file names none for it.
pub(crate) fn tempo_map_of_changes(
    tempo_points: Vec<TempoPoint>,
    override_us_per_quarter: Option<u32>,
    changes: Ghost<Map<Tick, u32>>,
) -> (map: Vec<TempoPoint>)
    requires
        lists_changes(tempo_points@, changes@),
        forall|tick: Tick| #[trigger] changes@.contains_key(tick) ==> tick >= 0,
    ensures
        match override_us_per_quarter {
            Some(us_per_quarter) => map@ == seq![TempoPoint { tick: 0, us_per_quarter }],
            None => lists_changes(map@, with_default_tempo(changes@)),
        },
{
    match override_us_per_quarter {
        Some(us_per_quarter) => {
            let mut map: Vec<TempoPoint> = Vec::new();
            map.push(TempoPoint { tick: 0, us_per_quarter });
            return map;
        },
        None => {},
    }
    let mut map = tempo_points;
    if map.len() == 0 || map[0].tick != 0 {
        proof {
            if changes@.contains_key(0) {
                let j = choose|j: int| 0 <= j < map@.len() && (#[trigger] map@[j]).tick == 0;
                assert(map@[0].tick >= 0);
                if j > 0 {
                    assert(map@[0].tick < map@[j].tick);
                }
            }
        }
        set_tempo(&mut map, 0, DEFAULT_US_PER_QUARTER, changes);
    }
    map
}

/// A target as a mathematical value.
pub struct TargetView {
    pub id: u64,
    pub tick: Tick,
    pub notes: Seq<u8>,
}

/// The targets of note starts given by rising tick and pitch: the starts
/// of one tick make one target, which names each pitch once; the targets
/// are numbered from 1.
pub open spec fn targets_of(starts: Seq<NoteOnAt>) -> Seq<TargetView>
    decreases starts.len(),
{
    if starts.len() == 0 {
        Seq::empty()
    } else {
        let before = targets_of(starts.drop_last());
        let start = starts.last();
        if before.len() > 0 && before.last().tick == start.tick {
            if before.last().notes.last() == start.note {
                before
            } else {
                before.drop_last().push(
                    TargetView {
                        id: before.last().id,
                        tick: start.tick,
                        notes: before.last().notes.push(start.note),
                    },
                )
            }
        } else {
            before.push(
                TargetView { id: (before.len() + 1) as u64, tick: start.tick, notes: seq![start.note] },
            )
        }
    }
}

/// The targets `targets` are the targets `views`, for either hand and in no
/// measure.
pub open spec fn are_targets(targets: Seq<TargetEvent>, views: Seq<TargetView>) -> bool {
    &&& targets.len() == views.len()
    &&& forall|i: int|
        0 <= i < targets.len() ==> (#[trigger] targets[i]).id == views[i].id && targets[i].tick
            == views[i].tick && targets[i].notes@ == views[i].notes && targets[i].hand is None
            && targets[i].measure_index is None
}

/// The targets of the starts of notes: the starts are sorted by tick and
/// pitch, and those of one tick make one target.
pub fn build_targets(note_on_events: Vec<NoteOnAt>) -> (targets: Vec<TargetEvent>)
    ensures
        exists|sorted: Seq<NoteOnAt>| #[trigger]
            is_stable_sort_of::<NoteOnAt, NoteOnOrder>(sorted, note_on_events@) && are_targets(
                targets@,
                targets_of(sorted),
            ),
{
    let mut starts = note_on_events;
    stable_sort::<NoteOnAt, NoteOnOrder>(&mut starts);
    let mut targets: Vec<TargetEvent> = Vec::new();
    let mut notes: Vec<u8> = Vec::new();
    let mut current_tick: Tick = 0;
    let mut i: usize = 0;
    // While a group is open, it is the last of the targets of what was read.
    while i < starts.len()
        invariant
            i <= starts@.len(),
            i > 0 ==> targets@.len() < i,
            i == 0 ==> notes@.len() == 0 && targets@.len() == 0,
            i > 0 ==> notes@.len() > 0 && targets_of(starts@.subrange(0, i as int)).len()
                == targets@.len() + 1 && are_targets(
                targets@,
                targets_of(starts@.subrange(0, i as int)).drop_last(),
            ) && targets_of(starts@.subrange(0, i as int)).last() == (TargetView {
                id: (targets@.len() + 1) as u64,
                tick: current_tick,
                notes: notes@,
            }),
        decreases starts@.len() - i,
    {
        let start = starts[i];
        proof {
            let next = starts@.subrange(0, i + 1);
            assert(next.drop_last() =~= starts@.subrange(0, i as int));
            assert(next.last() == start);
        }
        let ghost before = targets_of(starts@.subrange(0, i as int));
        if i > 0 && start.tick == current_tick {
            if notes[notes.len() - 1] != start.note {
                notes.push(start.note);
            }
            proof {
                let now = targets_of(starts@.subrange(0, i + 1));
                assert(before.len() > 0 && before.last().tick == start.tick);
                if before.last().notes.last() == start.note {
                    assert(now == before);
                } else {
                    assert(now == before.drop_last().push(
                        TargetView {
                            id: before.last().id,
                            tick: start.tick,
                            notes: before.last().notes.push(start.note),
                        },
                    ));
                }
                assert(now.drop_last() =~= before.drop_last());
            }
        } else {
            if i > 0 {
                let ghost closed = targets@;
                let mut group: Vec<u8> = Vec::new();
                core::mem::swap(&mut group, &mut notes);
                let id: u64 = targets.len() as u64 + 1;
                targets.push(
                    TargetEvent {
                        id,
                        tick: current_tick,
                        notes: group,
                        hand: None,
                        measure_index: None,
                    },
                );
                proof {
                    assert(before =~= before.drop_last().push(before.last()));
                    assert(are_targets(targets@, before)) by {
                        assert forall|k: int| 0 <= k < targets@.len() implies (
                        #[trigger] targets@[k]).id == before[k].id && targets@[k].tick
                            == before[k].tick && targets@[k].notes@ == before[k].notes
                            && targets@[k].hand is None && targets@[k].measure_index is None by {
                            if k < closed.len() {
                                assert(targets@[k] == closed[k]);
                                assert(before.drop_last()[k] == before[k]);
                            }
                        }
                    }
                }
            }
            notes.push(start.note);
            current_tick = start.tick;
            proof {
                let now = targets_of(starts@.subrange(0, i + 1));
                assert(notes@ =~= seq![start.note]);
                assert(now == before.push(
                    TargetView {
                        id: (before.len() + 1) as u64,
                        tick: start.tick,
                        notes: seq![start.note],
                    },
                ));
                assert(now.drop_last() =~= before);
            }
        }
        i = i + 1;
    }
    proof {
        assert(starts@.subrange(0, starts@.len() as int) =~= starts@);
    }
    if starts.len() > 0 {
        let ghost all = targets_of(starts@);
        let ghost closed = targets@;
        let id: u64 = targets.len() as u64 + 1;
        targets.push(
            TargetEvent { id, tick: current_tick, notes, hand: None, measure_index: None },
        );
        proof {
            assert(all =~= all.drop_last().push(all.last()));
            assert forall|k: int| 0 <= k < targets@.len() implies (#[trigger] targets@[k]).id
                == all[k].id && targets@[k].tick == all[k].tick && targets@[k].notes@
                == all[k].notes && targets@[k].hand is None && targets@[k].measure_index is None by {
                if k < closed.len() {
                    assert(targets@[k] == closed[k]);
                    assert(all.drop_last()[k] == all[k]);
                }
            }
        }
    }
    targets
}


/// The ticks of `points` rise from one to the next, and none is negative.
pub open spec fn rising_from_zero(points: Seq<TempoPoint>) -> bool {
    &&& forall|i: int, j: int|
        0 <= i < j < points.len() ==> (#[trigger] points[i]).tick < (#[trigger] points[j]).tick
    &&& forall|i: int| 0 <= i < points.len() ==> (#[trigger] points[i]).tick >= 0
}

/// A list by rising tick lists the tempo changes that it stands for.
pub proof fn lemma_rising_lists_changes(points: Seq<TempoPoint>)
    requires
        rising_from_zero(points),
    ensures
        lists_changes(points, tempo_changes(points)),
        forall|tick: Tick| #[trigger] tempo_changes(points).contains_key(tick) ==> tick >= 0,
    decreases points.len(),
{
    if points.len() > 0 {
        let rest = points.drop_last();
        let last = points.last();
        assert forall|i: int, j: int| 0 <= i < j < rest.len() implies (#[trigger] rest[i]).tick < (
        #[trigger] rest[j]).tick by {
            assert(points[i].tick < points[j].tick);
        }
        assert forall|i: int| 0 <= i < rest.len() implies (#[trigger] rest[i]).tick >= 0 by {
            assert(points[i].tick >= 0);
        }
        lemma_rising_lists_changes(rest);
        let changes = tempo_changes(points);
        assert forall|i: int| 0 <= i < points.len() implies changes.contains_key(
            (#[trigger] points[i]).tick,
        ) && changes[points[i].tick] == points[i].us_per_quarter by {
            if i < rest.len() {
                assert(rest[i] == points[i]);
                assert(points[i].tick < points[points.len() - 1].tick);
            }
        }
        assert forall|tick: Tick| #[trigger] changes.contains_key(tick) implies exists|i: int|
            0 <= i < points.len() && (#[trigger] points[i]).tick == tick by {
            if tick == last.tick {
                assert(points[points.len() - 1].tick == tick);
            } else {
                let i = choose|i: int| 0 <= i < rest.len() && (#[trigger] rest[i]).tick == tick;
                assert(points[i].tick == tick);
            }
        }
        assert forall|tick: Tick| #[trigger] changes.contains_key(tick) implies tick >= 0 by {
            if tick == last.tick {
                assert(points[points.len() - 1].tick >= 0);
            }
        }
    }
}

/// The tempo map of a file: the one tempo that time code fixes, or else
/// the tempo changes `tempo_points`, which are given by rising tick,
/// behind the default tempo at tick 0 where they name none for it.
pub fn build_tempo_map(tempo_points: Vec<TempoPoint>, override_us_per_quarter: Option<u32>) -> (map:
    Vec<TempoPoint>)
    requires
        rising_from_zero(tempo_points@),
    ensures
        match override_us_per_quarter {
            Some(us_per_quarter) => map@ == seq![TempoPoint { tick: 0, us_per_quarter }],
            None => lists_changes(map@, with_default_tempo(tempo_changes(tempo_points@))),
        },
{
    proof {
        lemma_rising_lists_changes(tempo_points@);
    }
    let ghost changes = tempo_changes(tempo_points@);
    tempo_map_of_changes(tempo_points, override_us_per_quarter, Ghost(changes))
}

/// What a run of playback events leaves behind: for each pitch the number
/// of notes that sound, what is kept of the events, and the last tick.
pub struct PairingState {
    pub active: Seq<u8>,
    pub out: Seq<PlaybackMidiEvent>,
    pub last_tick: Tick,
}

/// `count` note offs of the pitch `note` at `tick`, for the hand `hand`.
pub open spec fn note_offs(
    count: int,
    tick: Tick,
    note: u8,
    hand: Option<crate::score::model::Hand>,
) -> Seq<PlaybackMidiEvent> {
    Seq::new(
        if count < 0 {
            0
        } else {
            count as nat
        },
        |i: int| PlaybackMidiEvent { tick, event: MidiLikeEvent::NoteOff { note }, hand },
    )
}

/// The state after `events`: a note on ends the notes of its pitch that
/// still sound, and sounds; a note off is kept if a note of its pitch
/// sounds, which it ends; pedal events are kept.
pub open spec fn paired(events: Seq<PlaybackMidiEvent>) -> PairingState
    decreases events.len(),
{
    if events.len() == 0 {
        PairingState {
            active: Seq::new(HELD_PITCHES as nat, |i: int| 0u8),
            out: Seq::empty(),
            last_tick: 0,
        }
    } else {
        let before = paired(events.drop_last());
        let e = events.last();
        let last_tick = if e.tick > before.last_tick {
            e.tick
        } else {
            before.last_tick
        };
        match e.event {
            MidiLikeEvent::NoteOn { note, .. } => if note < HELD_PITCHES {
                PairingState {
                    active: before.active.update(note as int, 1u8),
                    out: (before.out + note_offs(
                        before.active[note as int] as int,
                        e.tick,
                        note,
                        e.hand,
                    )).push(e),
                    last_tick,
                }
            } else {
                PairingState { active: before.active, out: before.out.push(e), last_tick }
            },
            MidiLikeEvent::NoteOff { note } => if note < HELD_PITCHES && before.active[note as int]
                > 0 {
                PairingState {
                    active: before.active.update(
                        note as int,
                        (before.active[note as int] - 1) as u8,
                    ),
                    out: before.out.push(e),
                    last_tick,
                }
            } else {
                PairingState { active: before.active, out: before.out, last_tick }
            },
            MidiLikeEvent::Cc64 { .. } => PairingState {
                active: before.active,
                out: before.out.push(e),
                last_tick,
            },
        }
    }
}

/// The note offs that end what still sounds of the first `count` pitches,
/// at `tick`.
pub open spec fn closing_note_offs(active: Seq<u8>, count: int, tick: Tick) -> Seq<
    PlaybackMidiEvent,
>
    decreases count,
{
    if count <= 0 {
        Seq::empty()
    } else {
        closing_note_offs(active, count - 1, tick) + note_offs(
            active[count - 1] as int,
            tick,
            (count - 1) as u8,
            None,
        )
    }
}

/// The playback events with every note ended, before they are sorted:
/// what is kept of `events`, then the note offs for what still sounds, a
/// quarter note behind the last event.
pub open spec fn paired_events(ppq: u16, events: Seq<PlaybackMidiEvent>) -> Seq<PlaybackMidiEvent> {
    if events.len() == 0 {
        events
    } else {
        let state = paired(events);
        let default_len: Tick = if ppq == 0 {
            1
        } else {
            ppq as i64
        };
        state.out + closing_note_offs(
            state.active,
            HELD_PITCHES as int,
            sat_add_tick(state.last_tick, default_len),
        )
    }
}

fn push_note_offs(
    out: &mut Vec<PlaybackMidiEvent>,
    count: u8,
    tick: Tick,
    note: u8,
    hand: Option<crate::score::model::Hand>,
)
    ensures
        final(out)@ == old(out)@ + note_offs(count as int, tick, note, hand),
{
    let mut k: u8 = 0;
    assert(old(out)@ + note_offs(0, tick, note, hand) =~= old(out)@);
    while k < count
        invariant
            k <= count,
            out@ == old(out)@ + note_offs(k as int, tick, note, hand),
        decreases count - k,
    {
        out.push(PlaybackMidiEvent { tick, event: MidiLikeEvent::NoteOff { note }, hand });
        k = k + 1;
        assert(out@ =~= old(out)@ + note_offs(k as int, tick, note, hand));
    }
}

/// Gives every note its end: a note that starts while its pitch sounds
/// ends the one before it; a note off without a note is dropped; what still
/// sounds at the end is ended a quarter note behind the last event. The
/// result is sorted by tick, rank and pitch.
pub fn sanitize_note_pairs(ppq: u16, events: Vec<PlaybackMidiEvent>) -> (out: Vec<
    PlaybackMidiEvent,
>)
    ensures
        is_stable_sort_of::<PlaybackMidiEvent, PlaybackOrder>(out@, paired_events(ppq, events@)),
{
    if events.len() == 0 {
        proof {
            assert(events@.to_multiset() =~= events@.to_multiset());
        }
        return events;
    }
    let default_len: Tick = if ppq == 0 {
        1
    } else {
        ppq as i64
    };
    let mut out: Vec<PlaybackMidiEvent> = Vec::new();
    let mut active: Vec<u8> = Vec::new();
    let mut p: usize = 0;
    while p < HELD_PITCHES
        invariant
            p <= HELD_PITCHES,
            active@.len() == p,
            forall|j: int| 0 <= j < p ==> active@[j] == 0,
        decreases HELD_PITCHES - p,
    {
        active.push(0);
        p = p + 1;
    }
    let mut last_tick: Tick = 0;
    let mut i: usize = 0;
    assert(active@ =~= paired(events@.subrange(0, 0)).active);
    while i < events.len()
        invariant
            i <= events@.len(),
            active@.len() == HELD_PITCHES,
            paired(events@.subrange(0, i as int)) == (PairingState {
                active: active@,
                out: out@,
                last_tick,
            }),
        decreases events@.len() - i,
    {
        let event = events[i];
        proof {
            let next = events@.subrange(0, i + 1);
            assert(next.drop_last() =~= events@.subrange(0, i as int));
            assert(next.last() == event);
        }
        if event.tick > last_tick {
            last_tick = event.tick;
        }
        match event.event {
            MidiLikeEvent::NoteOn { note, .. } => {
                let idx = note as usize;
                if idx < HELD_PITCHES {
                    let count = active[idx];
                    push_note_offs(&mut out, count, event.tick, note, event.hand);
                    active[idx] = 1;
                }
                out.push(event);
            },
            MidiLikeEvent::NoteOff { note } => {
                let idx = note as usize;
                if idx < HELD_PITCHES && active[idx] > 0 {
                    active[idx] = active[idx] - 1;
                    out.push(event);
                }
            },
            MidiLikeEvent::Cc64 { .. } => {
                out.push(event);
            },
        }
        i = i + 1;
    }
    assert(events@.subrange(0, events@.len() as int) =~= events@);
    let end_tick = add_ticks(last_tick, default_len);
    let ghost kept = out@;
    let mut note: usize = 0;
    assert(kept + closing_note_offs(active@, 0, end_tick) =~= kept);
    while note < HELD_PITCHES
        invariant
            note <= HELD_PITCHES,
            active@.len() == HELD_PITCHES,
            out@ == kept + closing_note_offs(active@, note as int, end_tick),
        decreases HELD_PITCHES - note,
    {
        let ghost before = out@;
        push_note_offs(&mut out, active[note], end_tick, note as u8, None);
        proof {
            assert(kept + (closing_note_offs(active@, note as int, end_tick) + note_offs(
                active@[note as int] as int,
                end_tick,
                note as u8,
                None,
            )) =~= out@);
        }
        note = note + 1;
    }
    stable_sort::<PlaybackMidiEvent, PlaybackOrder>(&mut out);
    out
}


/// What the tracks of a file hold for a score: the playback events and the
/// starts of the notes, track by track, and the tempo changes.
pub struct Gathered {
    pub playback: Seq<PlaybackMidiEvent>,
    pub note_ons: Seq<NoteOnAt>,
    pub tempi: Map<Tick, u32>,
}

/// The tick of the `n`-th event of `track`: the sum of the delta times up
/// to it.
pub open spec fn track_tick(track: Seq<SmfEvent>, n: int) -> Tick
    decreases n,
{
    if n <= 0 {
        0
    } else {
        sat_add_tick(track_tick(track, n - 1), track[n - 1].delta as i64)
    }
}

/// What is gathered with one more event, of the kind `kind` at `tick`: a
/// note on of velocity 0 counts as a note off; of the controllers only the
/// damper pedal is kept; a tempo replaces what stood at its tick.
pub open spec fn gather_event(g: Gathered, kind: SmfEventKind, tick: Tick) -> Gathered {
    match kind {
        SmfEventKind::NoteOn(key, vel) => if vel == 0 {
            Gathered {
                playback: g.playback.push(
                    PlaybackMidiEvent {
                        tick,
                        event: MidiLikeEvent::NoteOff { note: key },
                        hand: None,
                    },
                ),
                ..g
            }
        } else {
            Gathered {
                playback: g.playback.push(
                    PlaybackMidiEvent {
                        tick,
                        event: MidiLikeEvent::NoteOn { note: key, velocity: vel },
                        hand: None,
                    },
                ),
                note_ons: g.note_ons.push(NoteOnAt { tick, note: key }),
                ..g
            }
        },
        SmfEventKind::NoteOff(key) => Gathered {
            playback: g.playback.push(
                PlaybackMidiEvent { tick, event: MidiLikeEvent::NoteOff { note: key }, hand: None },
            ),
            ..g
        },
        SmfEventKind::Controller(controller, value) => if controller == 64 {
            Gathered {
                playback: g.playback.push(
                    PlaybackMidiEvent { tick, event: MidiLikeEvent::Cc64 { value }, hand: None },
                ),
                ..g
            }
        } else {
            g
        },
        SmfEventKind::Tempo(us_per_quarter) => Gathered {
            tempi: g.tempi.insert(tick, us_per_quarter),
            ..g
        },
        SmfEventKind::Other => g,
    }
}

/// What is gathered with the first `n` events of `track`.
pub open spec fn gather_track(g: Gathered, track: Seq<SmfEvent>, n: int) -> Gathered
    decreases n,
{
    if n <= 0 {
        g
    } else {
        gather_event(gather_track(g, track, n - 1), track[n - 1].kind, track_tick(track, n))
    }
}

/// What is gathered from the first `t` of the tracks.
pub open spec fn gather_tracks(tracks: Seq<Seq<SmfEvent>>, t: int) -> Gathered
    decreases t,
{
    if t <= 0 {
        Gathered { playback: Seq::empty(), note_ons: Seq::empty(), tempi: Map::empty() }
    } else {
        gather_track(gather_tracks(tracks, t - 1), tracks[t - 1], tracks[t - 1].len() as int)
    }
}

/// `score` is the score of a file with the content `content`: one merged
/// track without a title; the resolution of the file; the tempo that time
/// code fixes, or the tempo changes by rising tick behind the default at
/// tick 0; the targets of the sorted starts of notes; and the playback
/// events, sorted, with every note ended, and sorted again.
pub open spec fn is_midi_score(score: Score, content: SmfContent) -> bool {
    let g = gather_tracks(content.tracks, content.tracks.len() as int);
    &&& score.meta.title is None
    &&& score.meta.source == ScoreSource::Midi
    &&& score.ppq == timing_ppq(content.timing)
    &&& match timing_tempo(content.timing) {
        Some(us_per_quarter) => score.tempo_map@ == seq![TempoPoint { tick: 0, us_per_quarter }],
        None => lists_changes(score.tempo_map@, with_default_tempo(g.tempi)),
    }
    &&& score.tracks@.len() == 1
    &&& score.tracks@[0].id == 0
    &&& score.tracks@[0].name@ == "Merged"@
    &&& score.tracks@[0].hand is None
    &&& exists|sorted: Seq<NoteOnAt>| #[trigger]
        is_stable_sort_of::<NoteOnAt, NoteOnOrder>(sorted, g.note_ons) && are_targets(
            score.tracks@[0].targets@,
            targets_of(sorted),
        )
    &&& exists|sorted: Seq<PlaybackMidiEvent>| #[trigger]
        is_stable_sort_of::<PlaybackMidiEvent, PlaybackOrder>(sorted, g.playback)
            && is_stable_sort_of::<PlaybackMidiEvent, PlaybackOrder>(
            score.tracks@[0].playback_events@,
            paired_events(score.ppq, sorted),
        )
}

/// No tick of a track is negative.
pub proof fn lemma_track_tick_nonnegative(track: Seq<SmfEvent>, n: int)
    ensures
        track_tick(track, n) >= 0,
    decreases n,
{
    if n > 0 {
        lemma_track_tick_nonnegative(track, n - 1);
    }
}

/// The content of a parsed file, read out event by event.
fn read_smf(smf: &midly::Smf) -> (file: SmfFile)
    ensures
        file@ == (SmfContent { timing: smf_timing(*smf), tracks: smf_tracks(*smf) }),
{
    let timing = timing_of(smf);
    let count = track_count(smf);
    let mut tracks: Vec<Vec<SmfEvent>> = Vec::new();
    let mut t: usize = 0;
    while t < count
        invariant
            t <= count,
            count == smf_tracks(*smf).len(),
            tracks@.len() == t,
            forall|k: int| 0 <= k < t ==> (#[trigger] tracks@[k])@ == smf_tracks(*smf)[k],
        decreases count - t,
    {
        let len = event_count(smf, t);
        let mut events: Vec<SmfEvent> = Vec::new();
        let mut i: usize = 0;
        while i < len
            invariant
                t < count,
                count == smf_tracks(*smf).len(),
                i <= len,
                len == smf_tracks(*smf)[t as int].len(),
                events@ == smf_tracks(*smf)[t as int].subrange(0, i as int),
            decreases len - i,
        {
            events.push(event_at(smf, t, i));
            assert(events@ =~= smf_tracks(*smf)[t as int].subrange(0, i + 1));
            i = i + 1;
        }
        assert(smf_tracks(*smf)[t as int].subrange(0, len as int) =~= smf_tracks(*smf)[t as int]);
        tracks.push(events);
        t = t + 1;
    }
    let file = SmfFile { timing, tracks };
    assert(file@.tracks =~= smf_tracks(*smf));
    file
}

/// The score of a file with the content `file`.
pub fn score_from_smf(file: &SmfFile) -> (score: Score)
    ensures
        is_midi_score(score, file@),
{
    let (ppq, tempo_override) = match file.timing {
        SmfTiming::Metrical(ticks) => (ticks, None),
        SmfTiming::Timecode { fps, ticks_per_frame } => {
            let (ppq, us_per_quarter) = timecode_ppq_and_tempo(fps, ticks_per_frame);
            (ppq, Some(us_per_quarter))
        },
    };
    let mut tempo_points: Vec<TempoPoint> = Vec::new();
    let mut playback_events: Vec<PlaybackMidiEvent> = Vec::new();
    let mut note_on_events: Vec<NoteOnAt> = Vec::new();
    let ghost content = file@;
    let mut t: usize = 0;
    while t < file.tracks.len()
        invariant
            t <= file.tracks@.len(),
            content == file@,
            playback_events@ == gather_tracks(content.tracks, t as int).playback,
            note_on_events@ == gather_tracks(content.tracks, t as int).note_ons,
            lists_changes(tempo_points@, gather_tracks(content.tracks, t as int).tempi),
            forall|tick: Tick| #[trigger]
                gather_tracks(content.tracks, t as int).tempi.contains_key(tick) ==> tick >= 0,
        decreases file.tracks@.len() - t,
    {
        let track = &file.tracks[t];
        let ghost start = gather_tracks(content.tracks, t as int);
        let ghost events = content.tracks[t as int];
        assert(events == track@);
        let mut tick: Tick = 0;
        let mut i: usize = 0;
        while i < track.len()
            invariant
                i <= track@.len(),
                events == track@,
                tick == track_tick(events, i as int),
                playback_events@ == gather_track(start, events, i as int).playback,
                note_on_events@ == gather_track(start, events, i as int).note_ons,
                lists_changes(tempo_points@, gather_track(start, events, i as int).tempi),
                forall|k: Tick| #[trigger]
                    gather_track(start, events, i as int).tempi.contains_key(k) ==> k >= 0,
            decreases track@.len() - i,
        {
            let event = track[i];
            let ghost before = gather_track(start, events, i as int);
            tick = add_ticks(tick, event.delta as i64);
            proof {
                lemma_track_tick_nonnegative(events, i + 1);
            }
            match event.kind {
                SmfEventKind::NoteOn(key, vel) => {
                    if vel == 0 {
                        playback_events.push(
                            PlaybackMidiEvent {
                                tick,
                                event: MidiLikeEvent::NoteOff { note: key },
                                hand: None,
                            },
                        );
                    } else {
                        playback_events.push(
                            PlaybackMidiEvent {
                                tick,
                                event: MidiLikeEvent::NoteOn { note: key, velocity: vel },
                                hand: None,
                            },
                        );
                        note_on_events.push(NoteOnAt { tick, note: key });
                    }
                },
                SmfEventKind::NoteOff(key) => {
                    playback_events.push(
                        PlaybackMidiEvent {
                            tick,
                            event: MidiLikeEvent::NoteOff { note: key },
                            hand: None,
                        },
                    );
                },
                SmfEventKind::Controller(controller, value) => {
                    if controller == 64 {
                        playback_events.push(
                            PlaybackMidiEvent {
                                tick,
                                event: MidiLikeEvent::Cc64 { value },
                                hand: None,
                            },
                        );
                    }
                },
                SmfEventKind::Tempo(us_per_quarter) => {
                    set_tempo(&mut tempo_points, tick, us_per_quarter, Ghost(before.tempi));
                },
                SmfEventKind::Other => {},
            }
            i = i + 1;
        }
        t = t + 1;
    }
    let ghost g = gather_tracks(content.tracks, content.tracks.len() as int);
    let tempo_map = tempo_map_of_changes(tempo_points, tempo_override, Ghost(g.tempi));
    let targets = build_targets(note_on_events);
    stable_sort::<PlaybackMidiEvent, PlaybackOrder>(&mut playback_events);
    let ghost sorted = playback_events@;
    let playback_events = sanitize_note_pairs(ppq, playback_events);
    let mut tracks: Vec<Track> = Vec::new();
    tracks.push(Track { id: 0, name: "Merged".to_string(), hand: None, targets, playback_events });
    let score = Score {
        meta: ScoreMeta { title: None, source: ScoreSource::Midi },
        ppq,
        tempo_map,
        tracks,
    };
    proof {
        assert(is_stable_sort_of::<PlaybackMidiEvent, PlaybackOrder>(sorted, g.playback)
            && is_stable_sort_of::<PlaybackMidiEvent, PlaybackOrder>(
            score.tracks@[0].playback_events@,
            paired_events(score.ppq, sorted),
        ));
    }
    score
}

/// The score of the Standard MIDI File with the bytes `data`, where the
/// bytes can be parsed. A file with a header that gives -128 frames per
/// second is refused as one that cannot be parsed.
pub fn import_midi_bytes(data: &[u8]) -> (imported: Result<Score, MidiImportError>)
    ensures
        timecode_overflows(data@) ==> imported matches Err(MidiImportError::Parse(_)),
        !timecode_overflows(data@) ==> match smf_content(data@) {
            Some(content) => imported matches Ok(score) && is_midi_score(score, content),
            None => imported matches Err(MidiImportError::Parse(_)),
        },
{
    if has_timecode_overflow(data) {
        return Err(MidiImportError::Parse("invalid smpte fps".to_string()));
    }
    match parse_smf(data) {
        Ok(smf) => {
            let file = read_smf(&smf);
            Ok(score_from_smf(&file))
        },
        Err(message) => Err(MidiImportError::Parse(message)),
    }
}

} // verus!
