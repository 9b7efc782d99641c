//! The piano roll of a score: the spans of its notes and of the pedal,
//! derived from the playback events.

use crate::engine::ipc::{PianoRollNoteDto, PianoRollPedalDto};
use crate::ports::midi::MidiLikeEvent;
use crate::ports::types::{add_ticks, sat_add_tick, Tick};
use crate::score::model::{Hand, PlaybackMidiEvent};
use crate::sorting::{is_stable_sort_of, stable_sort, Key, KeyOrder};
use vstd::prelude::*;

verus! {

/// The number of pitches that the piano roll shows.
pub const ROLL_PITCHES: usize = 128;

/// A change of the pedal's position.
#[derive(Clone, Copy, Debug, PartialEq, Eq, Structural)]
pub struct PedalChange {
    pub tick: Tick,
    pub down: bool,
}

/// Orders changes of the pedal by their tick.
pub struct PedalChangeByTick;

impl KeyOrder<PedalChange> for PedalChangeByTick {
    open spec fn key(t: PedalChange) -> Key {
        (t.tick as int, 0, 0)
    }

    fn le(a: &PedalChange, b: &PedalChange) -> (r: bool) {
        a.tick <= b.tick
    }
}

/// Orders the notes of the piano roll by start, then by pitch.
pub struct NoteByStart;

impl KeyOrder<PianoRollNoteDto> for NoteByStart {
    open spec fn key(t: PianoRollNoteDto) -> Key {
        (t.start_tick as int, t.note as int, 0)
    }

    fn le(a: &PianoRollNoteDto, b: &PianoRollNoteDto) -> (r: bool) {
        if a.start_tick != b.start_tick {
            a.start_tick < b.start_tick
        } else {
            a.note <= b.note
        }
    }
}

/// The pedal changes among `events`, in their order.
pub open spec fn pedal_changes(events: Seq<PlaybackMidiEvent>) -> Seq<PedalChange>
    decreases events.len(),
{
    if events.len() == 0 {
        Seq::empty()
    } else {
        let before = pedal_changes(events.drop_last());
        match events.last().event {
            MidiLikeEvent::Cc64 { value } => before.push(
                PedalChange { tick: events.last().tick, down: value >= 64 },
            ),
            _ => before,
        }
    }
}

/// The last tick of `events`, and no less than 0.
pub open spec fn last_tick(events: Seq<PlaybackMidiEvent>) -> Tick
    decreases events.len(),
{
    if events.len() == 0 {
        0
    } else {
        let before = last_tick(events.drop_last());
        if events.last().tick > before {
            events.last().tick
        } else {
            before
        }
    }
}

/// The pedal after a run of changes: the spans closed so far, whether the
/// pedal is down, and since when.
pub struct PedalState {
    pub spans: Seq<PianoRollPedalDto>,
    pub down: bool,
    pub start: Tick,
}

/// The pedal after `changes`: a span opens where the pedal goes down and
/// closes where it comes up; one that would be empty is left out.
pub open spec fn pedal_after(changes: Seq<PedalChange>) -> PedalState
    decreases changes.len(),
{
    if changes.len() == 0 {
        PedalState { spans: Seq::empty(), down: false, start: 0 }
    } else {
        let before = pedal_after(changes.drop_last());
        let change = changes.last();
        if change.down && !before.down {
            PedalState { spans: before.spans, down: true, start: change.tick }
        } else if !change.down && before.down {
            PedalState {
                spans: if change.tick > before.start {
                    before.spans.push(
                        PianoRollPedalDto { start_tick: before.start, end_tick: change.tick },
                    )
                } else {
                    before.spans
                },
                down: false,
                start: before.start,
            }
        } else {
            before
        }
    }
}

/// The spans of the pedal for changes ordered by tick: those closed by a
/// release and, where the pedal stays down, one that lasts a tick beyond
/// the last event.
pub open spec fn pedal_spans(changes: Seq<PedalChange>, last: Tick) -> Seq<PianoRollPedalDto> {
    let state = pedal_after(changes);
    if state.down {
        let end = if sat_add_tick(last, 1) > sat_add_tick(state.start, 1) {
            sat_add_tick(last, 1)
        } else {
            sat_add_tick(state.start, 1)
        };
        state.spans.push(PianoRollPedalDto { start_tick: state.start, end_tick: end })
    } else {
        state.spans
    }
}

/// The spans during which the pedal is down: the pedal changes of
/// `events`, sorted by tick with those of one tick in their order, are run
/// through from the first to the last.
pub fn derive_pedal_spans(events: &Vec<PlaybackMidiEvent>) -> (spans: Vec<PianoRollPedalDto>)
    ensures
        exists|sorted: Seq<PedalChange>| #[trigger]
            is_stable_sort_of::<PedalChange, PedalChangeByTick>(sorted, pedal_changes(events@))
                && spans@ == pedal_spans(sorted, last_tick(events@)),
{
    let mut cc: Vec<PedalChange> = Vec::new();
    let mut last: Tick = 0;
    let mut i: usize = 0;
    while i < events.len()
        invariant
            i <= events@.len(),
            cc@ == pedal_changes(events@.subrange(0, i as int)),
            last == last_tick(events@.subrange(0, i as int)),
        decreases events@.len() - i,
    {
        let event = events[i];
        proof {
            let next = events@.subrange(0, i + 1);
            assert(next.drop_last() =~= events@.subrange(0, i as int));
            assert(next.last() == event);
        }
        if event.tick > last {
            last = event.tick;
        }
        match event.event {
            MidiLikeEvent::Cc64 { value } => {
                cc.push(PedalChange { tick: event.tick, down: value >= 64 });
            },
            _ => {},
        }
        i = i + 1;
    }
    assert(events@.subrange(0, events@.len() as int) =~= events@);
    stable_sort::<PedalChange, PedalChangeByTick>(&mut cc);
    let ghost sorted = cc@;
    let mut spans: Vec<PianoRollPedalDto> = Vec::new();
    let mut down = false;
    let mut start: Tick = 0;
    let mut k: usize = 0;
    while k < cc.len()
        invariant
            k <= cc@.len(),
            cc@ == sorted,
            pedal_after(sorted.subrange(0, k as int)) == (PedalState { spans: spans@, down, start }),
        decreases cc@.len() - k,
    {
        let change = cc[k];
        proof {
            let next = sorted.subrange(0, k + 1);
            assert(next.drop_last() =~= sorted.subrange(0, k as int));
            assert(next.last() == change);
        }
        if change.down && !down {
            down = true;
            start = change.tick;
        } else if !change.down && down {
            down = false;
            if change.tick > start {
                spans.push(PianoRollPedalDto { start_tick: start, end_tick: change.tick });
            }
        }
        k = k + 1;
    }
    assert(sorted.subrange(0, sorted.len() as int) =~= sorted);
    if down {
        let a = add_ticks(last, 1);
        let b = add_ticks(start, 1);
        let end_tick = if a > b {
            a
        } else {
            b
        };
        spans.push(PianoRollPedalDto { start_tick: start, end_tick });
    }
    spans
}

/// The start of a note that is still held.
#[derive(Clone, Copy, Debug, PartialEq, Eq, Structural)]
pub struct NoteStart {
    pub tick: Tick,
    pub velocity: u8,
    pub hand: Option<Hand>,
}

/// The notes after a run of events: for each pitch the starts still held,
/// the last on top, and the spans closed so far.
pub struct RollState {
    pub held: Seq<Seq<NoteStart>>,
    pub notes: Seq<PianoRollNoteDto>,
}

/// The span of a note that started with `start` and is released at `tick`:
/// it lasts at least a tick.
pub open spec fn closed_span(note: u8, start: NoteStart, tick: Tick) -> PianoRollNoteDto {
    PianoRollNoteDto {
        note,
        start_tick: start.tick,
        end_tick: if tick <= start.tick {
            sat_add_tick(start.tick, 1)
        } else {
            tick
        },
        velocity: start.velocity,
        hand: start.hand,
    }
}

/// The span of a note that started with `start` and is never released.
pub open spec fn open_span(note: u8, start: NoteStart, default_len: Tick) -> PianoRollNoteDto {
    PianoRollNoteDto {
        note,
        start_tick: start.tick,
        end_tick: sat_add_tick(start.tick, default_len),
        velocity: start.velocity,
        hand: start.hand,
    }
}

/// The notes after `events`: a note on is held; a note off closes the note
/// of its pitch that was held last. Pitches beyond the roll are passed
/// over.
pub open spec fn roll_after(events: Seq<PlaybackMidiEvent>) -> RollState
    decreases events.len(),
{
    if events.len() == 0 {
        RollState {
            held: Seq::new(ROLL_PITCHES as nat, |i: int| Seq::<NoteStart>::empty()),
            notes: Seq::empty(),
        }
    } else {
        let before = roll_after(events.drop_last());
        let e = events.last();
        match e.event {
            MidiLikeEvent::NoteOn { note, velocity } => if note < ROLL_PITCHES {
                RollState {
                    held: before.held.update(
                        note as int,
                        before.held[note as int].push(
                            NoteStart { tick: e.tick, velocity, hand: e.hand },
                        ),
                    ),
                    notes: before.notes,
                }
            } else {
                before
            },
            MidiLikeEvent::NoteOff { note } => if note < ROLL_PITCHES
                && before.held[note as int].len() > 0 {
                RollState {
                    held: before.held.update(note as int, before.held[note as int].drop_last()),
                    notes: before.notes.push(
                        closed_span(note, before.held[note as int].last(), e.tick),
                    ),
                }
            } else {
                before
            },
            MidiLikeEvent::Cc64 { .. } => before,
        }
    }
}

/// The spans of the starts `held` of the pitch `note`, the last first.
pub open spec fn open_spans(note: u8, held: Seq<NoteStart>, default_len: Tick) -> Seq<
    PianoRollNoteDto,
>
    decreases held.len(),
{
    if held.len() == 0 {
        Seq::empty()
    } else {
        seq![open_span(note, held.last(), default_len)] + open_spans(
            note,
            held.drop_last(),
            default_len,
        )
    }
}

/// The spans of what is still held of the first `count` pitches, in the
/// order of the pitches.
pub open spec fn all_open_spans(held: Seq<Seq<NoteStart>>, count: int, default_len: Tick) -> Seq<
    PianoRollNoteDto,
>
    decreases count,
{
    if count <= 0 {
        Seq::empty()
    } else {
        all_open_spans(held, count - 1, default_len) + open_spans(
            (count - 1) as u8,
            held[count - 1],
            default_len,
        )
    }
}

/// The notes of the piano roll before they are sorted: the spans closed by
/// a note off, in the order of the releases, then those never released,
/// which last a quarter note.
pub open spec fn roll_notes(ppq: u16, events: Seq<PlaybackMidiEvent>) -> Seq<PianoRollNoteDto> {
    let state = roll_after(events);
    let default_len: Tick = if ppq == 0 {
        1
    } else {
        ppq as i64
    };
    state.notes + all_open_spans(state.held, ROLL_PITCHES as int, default_len)
}

/// The spans of the notes of `events`, sorted by start and then by pitch.
pub fn derive_note_spans(ppq: u16, events: &Vec<PlaybackMidiEvent>) -> (notes: Vec<
    PianoRollNoteDto,
>)
    ensures
        is_stable_sort_of::<PianoRollNoteDto, NoteByStart>(notes@, roll_notes(ppq, events@)),
{
    let default_len: Tick = if ppq == 0 {
        1
    } else {
        ppq as i64
    };
    let mut stacks: Vec<Vec<NoteStart>> = Vec::new();
    let mut p: usize = 0;
    while p < ROLL_PITCHES
        invariant
            p <= ROLL_PITCHES,
            stacks@.len() == p,
            forall|j: int| 0 <= j < p ==> (#[trigger] stacks@[j])@ == Seq::<NoteStart>::empty(),
        decreases ROLL_PITCHES - p,
    {
        stacks.push(Vec::new());
        p = p + 1;
    }
    let mut notes: Vec<PianoRollNoteDto> = Vec::new();
    let mut i: usize = 0;
    while i < events.len()
        invariant
            i <= events@.len(),
            stacks@.len() == ROLL_PITCHES,
            roll_after(events@.subrange(0, i as int)).held.len() == ROLL_PITCHES,
            forall|j: int|
                0 <= j < ROLL_PITCHES ==> (#[trigger] stacks@[j])@ == roll_after(
                    events@.subrange(0, i as int),
                ).held[j],
            notes@ == roll_after(events@.subrange(0, i as int)).notes,
        decreases events@.len() - i,
    {
        let event = events[i];
        proof {
            let next = events@.subrange(0, i + 1);
            assert(next.drop_last() =~= events@.subrange(0, i as int));
            assert(next.last() == event);
        }
        match event.event {
            MidiLikeEvent::NoteOn { note, velocity } => {
                let idx = note as usize;
                if idx < ROLL_PITCHES {
                    let mut stack: Vec<NoteStart> = Vec::new();
                    core::mem::swap(&mut stack, &mut stacks[idx]);
                    stack.push(NoteStart { tick: event.tick, velocity, hand: event.hand });
                    stacks[idx] = stack;
                }
            },
            MidiLikeEvent::NoteOff { note } => {
                let idx = note as usize;
                if idx < ROLL_PITCHES {
                    let mut stack: Vec<NoteStart> = Vec::new();
                    core::mem::swap(&mut stack, &mut stacks[idx]);
                    match stack.pop() {
                        Some(start) => {
                            let end_tick = if event.tick <= start.tick {
                                add_ticks(start.tick, 1)
                            } else {
                                event.tick
                            };
                            notes.push(
                                PianoRollNoteDto {
                                    note,
                                    start_tick: start.tick,
                                    end_tick,
                                    velocity: start.velocity,
                                    hand: start.hand,
                                },
                            );
                        },
                        None => {},
                    }
                    stacks[idx] = stack;
                }
            },
            MidiLikeEvent::Cc64 { .. } => {},
        }
        i = i + 1;
    }
    assert(events@.subrange(0, events@.len() as int) =~= events@);
    let ghost state = roll_after(events@);
    let mut note: usize = 0;
    while note < ROLL_PITCHES
        invariant
            note <= ROLL_PITCHES,
            stacks@.len() == ROLL_PITCHES,
            state.held.len() == ROLL_PITCHES,
            forall|j: int| note <= j < ROLL_PITCHES ==> (#[trigger] stacks@[j])@ == state.held[j],
            notes@ == state.notes + all_open_spans(state.held, note as int, default_len),
        decreases ROLL_PITCHES - note,
    {
        let ghost before = notes@;
        let mut stack: Vec<NoteStart> = Vec::new();
        core::mem::swap(&mut stack, &mut stacks[note]);
        let ghost whole = stack@;
        while stack.len() > 0
            invariant
                note < ROLL_PITCHES,
                notes@ + open_spans(note as u8, stack@, default_len) == before + open_spans(
                    note as u8,
                    whole,
                    default_len,
                ),
            decreases stack@.len(),
        {
            let ghost held = stack@;
            let ghost sofar = notes@;
            let start = stack.pop().unwrap();
            notes.push(
                PianoRollNoteDto {
                    note: note as u8,
                    start_tick: start.tick,
                    end_tick: add_ticks(start.tick, default_len),
                    velocity: start.velocity,
                    hand: start.hand,
                },
            );
            proof {
                assert(held.drop_last() =~= stack@);
                assert(sofar + (seq![open_span(note as u8, start, default_len)] + open_spans(
                    note as u8,
                    stack@,
                    default_len,
                )) =~= notes@ + open_spans(note as u8, stack@, default_len));
            }
        }
        proof {
            assert(notes@ + Seq::<PianoRollNoteDto>::empty() =~= notes@);
            assert(state.notes + (all_open_spans(state.held, note as int, default_len)
                + open_spans(note as u8, state.held[note as int], default_len)) =~= (state.notes
                + all_open_spans(state.held, note as int, default_len)) + open_spans(
                note as u8,
                state.held[note as int],
                default_len,
            ));
        }
        note = note + 1;
    }
    stable_sort::<PianoRollNoteDto, NoteByStart>(&mut notes);
    notes
}

} // verus!
