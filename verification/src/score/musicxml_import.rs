//! From the notes of a MusicXML score to a score: lengths in ticks,
//! pitches, hands, the gaps between repeated notes, the targets and the
//! playback events.

use crate::ports::midi::MidiLikeEvent;
use crate::ports::types::{add_ticks, sat_add_tick, Tick};
use crate::score::midi_import::PlaybackOrder;
use crate::score::model::{Hand, PlaybackMidiEvent, TargetEvent};
use crate::sorting::{is_stable_sort_of, stable_sort, Key, KeyOrder};
use vstd::prelude::*;

verus! {

#[derive(Clone, Debug)]
pub enum MusicXmlImportError {
    Io(String),
    Parse(String),
    Unsupported(String),
}

/// Pulses per quarter note of an imported score.
pub const MUSICXML_PPQ: u16 = 480;

/// A note of the score: where it starts, how long it lasts, and what is
/// known of it.
#[derive(Clone, Copy, Debug, PartialEq, Eq, Structural)]
pub struct NoteEvent {
    pub tick: Tick,
    pub duration_ticks: Tick,
    pub note: u8,
    pub velocity: u8,
    pub hand: Option<Hand>,
    pub measure_index: Option<u32>,
}

pub open spec fn clamp_tick(x: int) -> Tick {
    if x > i64::MAX {
        i64::MAX
    } else if x < i64::MIN {
        i64::MIN
    } else {
        x as i64
    }
}

/// Quotient rounded toward zero.
pub open spec fn quotient(n: int, d: int) -> int {
    if n >= 0 {
        n / d
    } else {
        -((-n) / d)
    }
}

fn clamp_to_tick(x: i128) -> (r: Tick)
    ensures
        r == clamp_tick(x as int),
{
    if x > i64::MAX as i128 {
        i64::MAX
    } else if x < i64::MIN as i128 {
        i64::MIN
    } else {
        x as i64
    }
}

fn divide(n: i128, d: i128) -> (q: i128)
    requires
        d > 0,
        n > i128::MIN,
    ensures
        q == quotient(n as int, d as int),
{
    if n >= 0 {
        n / d
    } else {
        let m: i128 = -n;
        let q: i128 = m / d;
        -q
    }
}

/// The length of a measure of `beats` beats of the kind `beat_type` in
/// ticks; nothing for a time signature that is not positive.
pub open spec fn measure_length_ticks_spec(ppq: u16, beats: i64, beat_type: i64) -> Tick {
    if beats <= 0 || beat_type <= 0 {
        0
    } else {
        (clamp_tick(ppq * 4 * beats) as int / beat_type as int) as i64
    }
}

pub fn measure_length_ticks(ppq: u16, beats: i64, beat_type: i64) -> (ticks: Tick)
    ensures
        ticks == measure_length_ticks_spec(ppq, beats, beat_type),
{
    if beats <= 0 || beat_type <= 0 {
        return 0;
    }
    assert(0 <= ppq * 4 * beats <= 0x4_0000 * 0x8000_0000_0000_0000) by (nonlinear_arith)
        requires
            0 <= ppq < 0x1_0000,
            0 < beats < 0x8000_0000_0000_0000,
    ;
    let whole: i64 = clamp_to_tick((ppq as i128) * 4 * (beats as i128));
    assert(0 <= whole / beat_type <= whole) by (nonlinear_arith)
        requires
            whole >= 0,
            beat_type > 0,
    ;
    whole / beat_type
}

/// The length in ticks of a duration written in divisions of a quarter
/// note, to the nearest tick; a duration that is there lasts a tick at
/// least.
pub open spec fn duration_ticks_spec(duration: i64, divisions: i64, ppq: u16) -> Tick {
    if divisions <= 0 {
        0
    } else {
        let ticks = clamp_tick(
            quotient(clamp_tick(duration * ppq) + divisions / 2, divisions as int),
        );
        if duration > 0 && ticks == 0 {
            1
        } else {
            ticks
        }
    }
}

pub fn duration_ticks(duration: i64, divisions: i64, ppq: u16) -> (ticks: Tick)
    ensures
        ticks == duration_ticks_spec(duration, divisions, ppq),
{
    if divisions <= 0 {
        return 0;
    }
    assert(-0x8000_0000_0000_0000 * 0x1_0000 <= duration * ppq <= 0x8000_0000_0000_0000 * 0x1_0000)
        by (nonlinear_arith)
        requires
            -0x8000_0000_0000_0000 <= duration < 0x8000_0000_0000_0000,
            0 <= ppq < 0x1_0000,
    ;
    let scaled: i64 = clamp_to_tick((duration as i128) * (ppq as i128));
    let ticks = clamp_to_tick(divide(scaled as i128 + (divisions / 2) as i128, divisions as i128));
    if duration > 0 && ticks == 0 {
        1
    } else {
        ticks
    }
}

/// The written kinds of note that have a length of their own.
#[derive(Clone, Copy, Debug, PartialEq, Eq, Structural)]
pub enum NoteType {
    Breve,
    Whole,
    Half,
    Quarter,
    Eighth,
    N16th,
    N32nd,
    N64th,
    N128th,
    N256th,
}

/// The length of a plain note of the kind `kind` in ticks, a tick at
/// least.
pub open spec fn plain_ticks(kind: NoteType, ppq: u16) -> Tick {
    let ticks: int = match kind {
        NoteType::Breve => ppq * 8,
        NoteType::Whole => ppq * 4,
        NoteType::Half => ppq * 2,
        NoteType::Quarter => ppq as int,
        NoteType::Eighth => (ppq / 2) as int,
        NoteType::N16th => (ppq / 4) as int,
        NoteType::N32nd => (ppq / 8) as int,
        NoteType::N64th => (ppq / 16) as int,
        NoteType::N128th => (ppq / 32) as int,
        NoteType::N256th => (ppq / 64) as int,
    };
    if ticks <= 0 {
        1
    } else {
        ticks as i64
    }
}

/// The length `dur` with `dots` dots: each dot adds half of what the one
/// before it added, as long as there is something to add.
pub open spec fn dotted(dur: Tick, add: Tick, dots: nat) -> Tick
    decreases dots,
{
    if dots == 0 || add <= 0 {
        dur
    } else {
        dotted(sat_add_tick(dur, add), (add / 2) as i64, (dots - 1) as nat)
    }
}

/// The length `dur` in a tuplet of `actual` notes in the time of `normal`,
/// to the nearest tick and a tick at least; as it is where the tuplet is
/// not written out.
pub open spec fn in_tuplet(dur: Tick, actual: i64, normal: i64) -> Tick {
    if actual > 0 && normal > 0 {
        let scaled = clamp_tick(quotient(clamp_tick(dur * normal) + actual / 2, actual as int));
        if scaled < 1 {
            1
        } else {
            scaled
        }
    } else {
        dur
    }
}

/// The length of a note of the kind `kind` with `dots` dots, in a tuplet of
/// `actual` notes in the time of `normal`.
pub open spec fn note_type_ticks_spec(
    kind: NoteType,
    dots: usize,
    actual: i64,
    normal: i64,
    ppq: u16,
) -> Tick {
    let plain = plain_ticks(kind, ppq);
    let scaled = in_tuplet(dotted(plain, (plain / 2) as i64, dots as nat), actual, normal);
    if scaled < 1 {
        1
    } else {
        scaled
    }
}

pub fn note_type_ticks(kind: NoteType, dots: usize, actual: i64, normal: i64, ppq: u16) -> (ticks:
    Tick)
    ensures
        ticks == note_type_ticks_spec(kind, dots, actual, normal, ppq),
        ticks >= 1,
{
    let unit: Tick = ppq as i64;
    let plain: Tick = match kind {
        NoteType::Breve => unit * 8,
        NoteType::Whole => unit * 4,
        NoteType::Half => unit * 2,
        NoteType::Quarter => unit,
        NoteType::Eighth => unit / 2,
        NoteType::N16th => unit / 4,
        NoteType::N32nd => unit / 8,
        NoteType::N64th => unit / 16,
        NoteType::N128th => unit / 32,
        NoteType::N256th => unit / 64,
    };
    let plain: Tick = if plain <= 0 {
        1
    } else {
        plain
    };
    let mut dur: Tick = plain;
    let mut add: Tick = plain / 2;
    let mut left: usize = dots;
    while left > 0 && add > 0
        invariant
            dotted(dur, add, left as nat) == dotted(plain, (plain / 2) as i64, dots as nat),
            add >= 0,
        decreases left,
    {
        dur = add_ticks(dur, add);
        add = add / 2;
        left = left - 1;
    }
    if actual > 0 && normal > 0 {
        assert(-0x8000_0000_0000_0000 * 0x8000_0000_0000_0000 <= dur * normal
            <= 0x8000_0000_0000_0000 * 0x8000_0000_0000_0000) by (nonlinear_arith)
            requires
                -0x8000_0000_0000_0000 <= dur < 0x8000_0000_0000_0000,
                0 < normal < 0x8000_0000_0000_0000,
        ;
        let scaled: i64 = clamp_to_tick((dur as i128) * (normal as i128));
        dur = clamp_to_tick(divide(scaled as i128 + (actual / 2) as i128, actual as i128));
        if dur < 1 {
            dur = 1;
        }
    }
    if dur < 1 {
        1
    } else {
        dur
    }
}

/// Semitones of a step above C, by its letter.
pub open spec fn step_semitones(step: u8) -> Option<int> {
    if step == 0x43 {
        Some(0int)
    } else if step == 0x44 {
        Some(2int)
    } else if step == 0x45 {
        Some(4int)
    } else if step == 0x46 {
        Some(5int)
    } else if step == 0x47 {
        Some(7int)
    } else if step == 0x41 {
        Some(9int)
    } else if step == 0x42 {
        Some(11int)
    } else {
        None
    }
}

/// The pitch of the step with the letter `step`, in the octave `octave`,
/// altered by `alter` semitones, if it is one of the 128 pitches.
pub open spec fn midi_note_spec(step: u8, octave: i32, alter: i32) -> Option<u8> {
    match step_semitones(step) {
        Some(base) => {
            let note = (octave + 1) * 12 + base + alter;
            if 0 <= note <= 127 {
                Some(note as u8)
            } else {
                None
            }
        },
        None => None,
    }
}

pub fn midi_note(step: u8, octave: i32, alter: i32) -> (note: Option<u8>)
    ensures
        note == midi_note_spec(step, octave, alter),
{
    let base: i64 = if step == 0x43 {
        0
    } else if step == 0x44 {
        2
    } else if step == 0x45 {
        4
    } else if step == 0x46 {
        5
    } else if step == 0x47 {
        7
    } else if step == 0x41 {
        9
    } else if step == 0x42 {
        11
    } else {
        return None;
    };
    let note: i64 = (octave as i64 + 1) * 12 + base + alter as i64;
    if 0 <= note && note <= 127 {
        Some(note as u8)
    } else {
        None
    }
}

/// The hand that plays a staff: the right hand the first, the left hand the
/// second.
pub fn hand_of_staff(staff: Option<u8>) -> (hand: Option<Hand>)
    ensures
        hand == (match staff {
            Some(n) => if n == 1 {
                Some(Hand::Right)
            } else if n == 2 {
                Some(Hand::Left)
            } else {
                None
            },
            None => None,
        }),
{
    match staff {
        Some(n) => {
            if n == 1 {
                Some(Hand::Right)
            } else if n == 2 {
                Some(Hand::Left)
            } else {
                None
            }
        },
        None => None,
    }
}

/// The hand of notes of which some name a hand: the one that they name, if
/// they agree.
pub open spec fn resolve_hand_spec(hands: Seq<Option<Hand>>) -> Option<Hand> {
    if exists|i: int, j: int|
        0 <= i < hands.len() && 0 <= j < hands.len() && hands[i] is Some && hands[j] is Some
            && hands[i] != hands[j] {
        None
    } else if exists|i: int| 0 <= i < hands.len() && hands[i] is Some {
        let i = choose|i: int| 0 <= i < hands.len() && hands[i] is Some;
        hands[i]
    } else {
        None
    }
}

pub fn resolve_hand(hands: &Vec<Option<Hand>>) -> (hand: Option<Hand>)
    ensures
        hand == resolve_hand_spec(hands@),
{
    let mut current: Option<Hand> = None;
    let mut i: usize = 0;
    while i < hands.len()
        invariant
            i <= hands@.len(),
            forall|a: int, b: int|
                0 <= a < i && 0 <= b < i && hands@[a] is Some && hands@[b] is Some ==> hands@[a]
                    == hands@[b],
            current is None ==> forall|a: int| 0 <= a < i ==> hands@[a] is None,
            current is Some ==> exists|a: int| 0 <= a < i && hands@[a] == current,
        decreases hands@.len() - i,
    {
        match hands[i] {
            Some(hand) => {
                match current {
                    Some(existing) => {
                        if existing != hand {
                            proof {
                                let a = choose|a: int| 0 <= a < i && hands@[a] == current;
                                assert(hands@[a] is Some && hands@[i as int] is Some && hands@[a]
                                    != hands@[i as int]);
                            }
                            return None;
                        }
                    },
                    None => {
                        current = Some(hand);
                    },
                }
            },
            None => {},
        }
        i = i + 1;
    }
    proof {
        if current is Some {
            let a = choose|a: int| 0 <= a < hands@.len() && hands@[a] == current;
            assert(hands@[a] is Some);
            let c = choose|c: int| 0 <= c < hands@.len() && hands@[c] is Some;
            assert(hands@[c] == hands@[a]);
        }
    }
    current
}

/// Notes down a change of the pedal at `tick`, if it is one: the pedal goes
/// where it was not.
pub fn emit_cc64_change(out: &mut Vec<PlaybackMidiEvent>, tick: Tick, pedal_down: &mut bool, down: bool)
    ensures
        *final(pedal_down) == down,
        *old(pedal_down) == down ==> final(out)@ == old(out)@,
        *old(pedal_down) != down ==> final(out)@ == old(out)@.push(
            PlaybackMidiEvent {
                tick,
                event: MidiLikeEvent::Cc64 {
                    value: if down {
                        127
                    } else {
                        0
                    },
                },
                hand: None,
            },
        ),
{
    if *pedal_down == down {
        return ;
    }
    *pedal_down = down;
    out.push(
        PlaybackMidiEvent {
            tick,
            event: MidiLikeEvent::Cc64 {
                value: if down {
                    127
                } else {
                    0
                },
            },
            hand: None,
        },
    );
}

/// The `k`-th playback event of the notes: each note starts, with a
/// velocity of 1 at least, and ends when its length is over.
pub open spec fn note_playback_event(notes: Seq<NoteEvent>, k: int) -> PlaybackMidiEvent {
    let n = notes[k / 2];
    if k % 2 == 0 {
        PlaybackMidiEvent {
            tick: n.tick,
            event: MidiLikeEvent::NoteOn {
                note: n.note,
                velocity: if n.velocity == 0 {
                    1
                } else {
                    n.velocity
                },
            },
            hand: n.hand,
        }
    } else {
        PlaybackMidiEvent {
            tick: sat_add_tick(n.tick, n.duration_ticks),
            event: MidiLikeEvent::NoteOff { note: n.note },
            hand: n.hand,
        }
    }
}

/// The playback events of the notes, note by note.
pub open spec fn note_playback_events(notes: Seq<NoteEvent>) -> Seq<PlaybackMidiEvent> {
    Seq::new(2 * notes.len(), |k: int| note_playback_event(notes, k))
}

pub fn build_note_playback_events(note_events: &Vec<NoteEvent>) -> (events: Vec<PlaybackMidiEvent>)
    ensures
        events@ == note_playback_events(note_events@),
{
    let mut events: Vec<PlaybackMidiEvent> = Vec::new();
    let mut i: usize = 0;
    while i < note_events.len()
        invariant
            i <= note_events@.len(),
            events@.len() == 2 * i,
            forall|k: int| 0 <= k < 2 * i ==> events@[k] == note_playback_event(note_events@, k),
        decreases note_events@.len() - i,
    {
        let n = note_events[i];
        events.push(
            PlaybackMidiEvent {
                tick: n.tick,
                event: MidiLikeEvent::NoteOn {
                    note: n.note,
                    velocity: if n.velocity == 0 {
                        1
                    } else {
                        n.velocity
                    },
                },
                hand: n.hand,
            },
        );
        events.push(
            PlaybackMidiEvent {
                tick: add_ticks(n.tick, n.duration_ticks),
                event: MidiLikeEvent::NoteOff { note: n.note },
                hand: n.hand,
            },
        );
        i = i + 1;
    }
    assert(events@ =~= note_playback_events(note_events@));
    events
}

/// The playback events of a score: those of its notes and the changes of
/// the pedal, sorted by tick, rank and pitch.
pub fn build_playback_events(note_events: &Vec<NoteEvent>, cc64_events: &Vec<PlaybackMidiEvent>)
    -> (events: Vec<PlaybackMidiEvent>)
    ensures
        is_stable_sort_of::<PlaybackMidiEvent, PlaybackOrder>(
            events@,
            note_playback_events(note_events@) + cc64_events@,
        ),
{
    let mut events = build_note_playback_events(note_events);
    let ghost notes = events@;
    let mut i: usize = 0;
    assert(events@ =~= notes + cc64_events@.subrange(0, 0));
    while i < cc64_events.len()
        invariant
            i <= cc64_events@.len(),
            events@ == notes + cc64_events@.subrange(0, i as int),
        decreases cc64_events@.len() - i,
    {
        events.push(cc64_events[i]);
        assert(events@ =~= notes + cc64_events@.subrange(0, i + 1));
        i = i + 1;
    }
    assert(cc64_events@.subrange(0, cc64_events@.len() as int) =~= cc64_events@);
    stable_sort::<PlaybackMidiEvent, PlaybackOrder>(&mut events);
    events
}

/// The note `j` is played by the same hand on the same key as the note `i`
/// and comes behind it: at a later tick, or at the same tick further on in
/// the list.
pub open spec fn follows(notes: Seq<NoteEvent>, i: int, j: int) -> bool {
    &&& 0 <= j < notes.len()
    &&& j != i
    &&& notes[j].note == notes[i].note
    &&& notes[j].hand == notes[i].hand
    &&& (notes[j].tick > notes[i].tick || (notes[j].tick == notes[i].tick && j > i))
}

/// The note `a` comes before the note `b`, by tick and then by place.
pub open spec fn comes_before(notes: Seq<NoteEvent>, a: int, b: int) -> bool {
    notes[a].tick < notes[b].tick || (notes[a].tick == notes[b].tick && a < b)
}

/// The note `j` is the next on the key and in the hand of the note `i`.
pub open spec fn is_successor(notes: Seq<NoteEvent>, i: int, j: int) -> bool {
    &&& follows(notes, i, j)
    &&& forall|k: int| follows(notes, i, k) && k != j ==> comes_before(notes, j, k)
}

/// The length of a note of the length `duration` at `tick` whose key is
/// struck again at `next`: where the next note starts later but before
/// this one is over, this one ends a tick before it, and lasts a tick at
/// least.
pub open spec fn gapped(tick: Tick, duration: Tick, next: Tick) -> Tick {
    if next > tick && next <= tick + duration {
        let room: int = if next - tick - 1 < 1 {
            1
        } else {
            next - tick - 1
        };
        if duration < room {
            duration
        } else {
            room as i64
        }
    } else {
        duration
    }
}

/// `after` holds the notes `before` with every note shortened whose key is
/// struck again by the same hand before it is over: such a note has the
/// gap to the next note on its key; every other has its length; nothing
/// else of a note differs.
pub open spec fn are_gapped(before: Seq<NoteEvent>, after: Seq<NoteEvent>) -> bool {
    &&& after.len() == before.len()
    &&& forall|i: int|
        0 <= i < before.len() ==> {
            let was = before[i];
            let is = #[trigger] after[i];
            &&& is == (NoteEvent { duration_ticks: is.duration_ticks, ..was })
            &&& forall|j: int|
                is_successor(before, i, j) ==> is.duration_ticks == gapped(
                    was.tick,
                    was.duration_ticks,
                    before[j].tick,
                )
            &&& (forall|j: int| !follows(before, i, j)) ==> is.duration_ticks
                == was.duration_ticks
        }
}

/// Shortens every note whose key is struck again by the same hand before
/// it is over, so that it ends before the next one starts. Nothing else
/// of a note changes.
pub fn apply_rearticulation_gaps(note_events: &mut Vec<NoteEvent>)
    ensures
        are_gapped(old(note_events)@, final(note_events)@),
{
    let ghost given = note_events@;
    let n = note_events.len();
    let mut i: usize = 0;
    while i < n
        invariant
            i <= n,
            n == given.len(),
            note_events@.len() == n,
            forall|k: int|
                0 <= k < n ==> (#[trigger] note_events@[k]) == (NoteEvent {
                    duration_ticks: note_events@[k].duration_ticks,
                    ..given[k]
                }),
            forall|k: int| i <= k < n ==> #[trigger] note_events@[k] == given[k],
            forall|k: int|
                0 <= k < i ==> {
                    let after = #[trigger] note_events@[k];
                    &&& forall|j: int|
                        is_successor(given, k, j) ==> after.duration_ticks == gapped(
                            given[k].tick,
                            given[k].duration_ticks,
                            given[j].tick,
                        )
                    &&& (forall|j: int| !follows(given, k, j)) ==> after.duration_ticks
                        == given[k].duration_ticks
                },
        decreases n - i,
    {
        let me = note_events[i];
        let mut best: Option<usize> = None;
        let mut j: usize = 0;
        while j < n
            invariant
                j <= n,
                i < n,
                n == given.len(),
                note_events@.len() == n,
                me == given[i as int],
                forall|k: int|
                    0 <= k < n ==> (#[trigger] note_events@[k]) == (NoteEvent {
                        duration_ticks: note_events@[k].duration_ticks,
                        ..given[k]
                    }),
                best matches Some(b) ==> b < j && follows(given, i as int, b as int) && forall|
                    k: int,
                |
                    0 <= k < j && follows(given, i as int, k) && k != b ==> comes_before(
                        given,
                        b as int,
                        k,
                    ),
                best is None ==> forall|k: int| 0 <= k < j ==> !follows(given, i as int, k),
            decreases n - j,
        {
            let other = note_events[j];
            let same_hand = match (other.hand, me.hand) {
                (Some(a), Some(b)) => a == b,
                (None, None) => true,
                _ => false,
            };
            if j != i && other.note == me.note && same_hand && (other.tick > me.tick || (other.tick
                == me.tick && j > i)) {
                let better = match best {
                    Some(b) => {
                        let held = note_events[b];
                        other.tick < held.tick
                    },
                    None => true,
                };
                if better {
                    best = Some(j);
                }
            }
            j = j + 1;
        }
        match best {
            Some(b) => {
                let next = note_events[b].tick;
                let tick: i128 = me.tick as i128;
                let end: i128 = tick + me.duration_ticks as i128;
                if next > me.tick && next as i128 <= end {
                    let room: i128 = next as i128 - tick - 1;
                    let room: i128 = if room < 1 {
                        1
                    } else {
                        room
                    };
                    let shorter: Tick = if (me.duration_ticks as i128) < room {
                        me.duration_ticks
                    } else {
                        room as i64
                    };
                    note_events[i] = NoteEvent {
                        tick: me.tick,
                        duration_ticks: shorter,
                        note: me.note,
                        velocity: me.velocity,
                        hand: me.hand,
                        measure_index: me.measure_index,
                    };
                }
                proof {
                    assert(is_successor(given, i as int, b as int));
                    assert forall|s: int| is_successor(given, i as int, s) implies s == b by {
                        if s != b {
                            assert(comes_before(given, b as int, s));
                            assert(comes_before(given, s, b as int));
                        }
                    }
                }
            },
            None => {
                proof {
                    assert forall|s: int| !follows(given, i as int, s) by {
                        if 0 <= s < n {
                            assert(!follows(given, i as int, s));
                        }
                    }
                }
            },
        }
        i = i + 1;
    }
}


/// Orders notes by the tick at which they start.
pub struct NoteByTick;

impl KeyOrder<NoteEvent> for NoteByTick {
    open spec fn key(t: NoteEvent) -> Key {
        (t.tick as int, 0, 0)
    }

    fn le(a: &NoteEvent, b: &NoteEvent) -> (r: bool) {
        a.tick <= b.tick
    }
}

/// The notes that start at one tick: their pitches, the hands that they
/// name in the order of the notes, and the measure of the first of them.
pub struct NoteGroup {
    pub tick: Tick,
    pub pitches: Set<u8>,
    pub hands: Seq<Option<Hand>>,
    pub measure_index: Option<u32>,
}

/// The groups of notes given by rising tick.
pub open spec fn groups_of(notes: Seq<NoteEvent>) -> Seq<NoteGroup>
    decreases notes.len(),
{
    if notes.len() == 0 {
        Seq::empty()
    } else {
        let before = groups_of(notes.drop_last());
        let n = notes.last();
        if before.len() > 0 && before.last().tick == n.tick {
            before.drop_last().push(
                NoteGroup {
                    tick: n.tick,
                    pitches: before.last().pitches.insert(n.note),
                    hands: before.last().hands.push(n.hand),
                    measure_index: before.last().measure_index,
                },
            )
        } else {
            before.push(
                NoteGroup {
                    tick: n.tick,
                    pitches: set![n.note],
                    hands: seq![n.hand],
                    measure_index: n.measure_index,
                },
            )
        }
    }
}

/// The pitches of `pitches` below `bound`, rising.
pub open spec fn pitches_below(pitches: Set<u8>, bound: int) -> Seq<u8>
    decreases bound,
{
    if bound <= 0 {
        Seq::empty()
    } else {
        let rest = pitches_below(pitches, bound - 1);
        if pitches.contains((bound - 1) as u8) {
            rest.push((bound - 1) as u8)
        } else {
            rest
        }
    }
}

/// The target `target` is that of the group `group`, the `id`-th: it
/// names the pitches of the group once each, rising, and the hand that
/// the notes of the group agree on.
pub open spec fn is_target_of(target: TargetEvent, group: NoteGroup, id: int) -> bool {
    &&& target.id == id
    &&& target.tick == group.tick
    &&& target.notes@ == pitches_below(group.pitches, 256)
    &&& target.hand == resolve_hand_spec(group.hands)
    &&& target.measure_index == group.measure_index
}

/// The targets `targets` are those of the groups `groups`, numbered from 1.
pub open spec fn are_targets_of(targets: Seq<TargetEvent>, groups: Seq<NoteGroup>) -> bool {
    &&& targets.len() == groups.len()
    &&& forall|i: int|
        0 <= i < targets.len() ==> is_target_of(#[trigger] targets[i], groups[i], i + 1)
}

/// The pitches marked in `present`.
pub open spec fn marked(present: Seq<bool>) -> Set<u8> {
    Set::new(|p: u8| present[p as int])
}

fn close_group(
    targets: &mut Vec<TargetEvent>,
    present: &mut Vec<bool>,
    hands: &mut Vec<Option<Hand>>,
    tick: Tick,
    measure_index: Option<u32>,
    group: Ghost<NoteGroup>,
)
    requires
        old(present)@.len() == 256,
        old(targets)@.len() < usize::MAX,
        group@.tick == tick,
        group@.measure_index == measure_index,
        group@.hands == old(hands)@,
        group@.pitches == marked(old(present)@),
    ensures
        final(targets)@.len() == old(targets)@.len() + 1,
        forall|i: int| 0 <= i < old(targets)@.len() ==> final(targets)@[i] == old(targets)@[i],
        is_target_of(final(targets)@.last(), group@, final(targets)@.len() as int),
        final(present)@.len() == 256,
        forall|i: int| 0 <= i < 256 ==> !final(present)@[i],
        final(hands)@.len() == 0,
{
    let mut notes: Vec<u8> = Vec::new();
    let mut p: usize = 0;
    while p < 256
        invariant
            p <= 256,
            present@.len() == 256,
            present@ == old(present)@,
            notes@ == pitches_below(marked(present@), p as int),
        decreases 256 - p,
    {
        if present[p] {
            notes.push(p as u8);
        }
        p = p + 1;
    }
    let hand = resolve_hand(hands);
    let id: u64 = targets.len() as u64 + 1;
    targets.push(TargetEvent { id, tick, notes, hand, measure_index });
    let mut q: usize = 0;
    while q < 256
        invariant
            q <= 256,
            present@.len() == 256,
            forall|i: int| 0 <= i < q ==> !present@[i],
        decreases 256 - q,
    {
        present[q] = false;
        q = q + 1;
    }
    hands.clear();
}

/// The targets of the notes: the notes are sorted by tick, those of one
/// tick in their order, and the notes of one tick make one target.
pub fn build_targets(note_events: &Vec<NoteEvent>) -> (targets: Vec<TargetEvent>)
    ensures
        exists|sorted: Seq<NoteEvent>| #[trigger]
            is_stable_sort_of::<NoteEvent, NoteByTick>(sorted, note_events@) && are_targets_of(
                targets@,
                groups_of(sorted),
            ),
{
    let mut sorted: Vec<NoteEvent> = Vec::new();
    let mut c: usize = 0;
    while c < note_events.len()
        invariant
            c <= note_events@.len(),
            sorted@ == note_events@.subrange(0, c as int),
        decreases note_events@.len() - c,
    {
        sorted.push(note_events[c]);
        assert(sorted@ =~= note_events@.subrange(0, c + 1));
        c = c + 1;
    }
    assert(note_events@.subrange(0, note_events@.len() as int) =~= note_events@);
    stable_sort::<NoteEvent, NoteByTick>(&mut sorted);
    let mut targets: Vec<TargetEvent> = Vec::new();
    let mut present: Vec<bool> = Vec::new();
    let mut b: usize = 0;
    while b < 256
        invariant
            b <= 256,
            present@.len() == b,
            forall|i: int| 0 <= i < b ==> !present@[i],
        decreases 256 - b,
    {
        present.push(false);
        b = b + 1;
    }
    let mut hands: Vec<Option<Hand>> = Vec::new();
    let mut tick: Tick = 0;
    let mut measure_index: Option<u32> = None;
    let mut i: usize = 0;
    while i < sorted.len()
        invariant
            i <= sorted@.len(),
            present@.len() == 256,
            i > 0 ==> targets@.len() < i,
            i == 0 ==> targets@.len() == 0 && hands@.len() == 0 && forall|k: int|
                0 <= k < 256 ==> !present@[k],
            i > 0 ==> {
                let groups = groups_of(sorted@.subrange(0, i as int));
                &&& groups.len() == targets@.len() + 1
                &&& are_targets_of(targets@, groups.drop_last())
                &&& groups.last() == (NoteGroup {
                    tick,
                    pitches: marked(present@),
                    hands: hands@,
                    measure_index,
                })
            },
        decreases sorted@.len() - i,
    {
        let n = sorted[i];
        proof {
            let next = sorted@.subrange(0, i + 1);
            assert(next.drop_last() =~= sorted@.subrange(0, i as int));
            assert(next.last() == n);
        }
        let ghost before = groups_of(sorted@.subrange(0, i as int));
        let ghost now = groups_of(sorted@.subrange(0, i + 1));
        if i > 0 && n.tick == tick {
            let ghost was = present@;
            present[n.note as usize] = true;
            hands.push(n.hand);
            proof {
                assert(marked(present@) =~= marked(was).insert(n.note));
                assert(now.drop_last() =~= before.drop_last());
            }
        } else {
            if i > 0 {
                let ghost closed = targets@;
                close_group(
                    &mut targets,
                    &mut present,
                    &mut hands,
                    tick,
                    measure_index,
                    Ghost(before.last()),
                );
                proof {
                    assert(before =~= before.drop_last().push(before.last()));
                    assert forall|k: int| 0 <= k < targets@.len() implies is_target_of(
                        #[trigger] targets@[k],
                        before[k],
                        k + 1,
                    ) by {
                        if k < closed.len() {
                            assert(targets@[k] == closed[k]);
                            assert(before.drop_last()[k] == before[k]);
                        }
                    }
                }
            }
            let ghost was = present@;
            present[n.note as usize] = true;
            hands.push(n.hand);
            tick = n.tick;
            measure_index = n.measure_index;
            proof {
                assert(marked(present@) =~= set![n.note]) by {
                    assert forall|p: u8| marked(present@).contains(p) <==> set![n.note].contains(
                        p,
                    ) by {
                        if p != n.note {
                            assert(present@[p as int] == was[p as int]);
                        }
                    }
                }
                assert(hands@ =~= seq![n.hand]);
                assert(now.drop_last() =~= before);
            }
        }
        i = i + 1;
    }
    assert(sorted@.subrange(0, sorted@.len() as int) =~= sorted@);
    if sorted.len() > 0 {
        let ghost all = groups_of(sorted@);
        let ghost closed = targets@;
        close_group(&mut targets, &mut present, &mut hands, tick, measure_index, Ghost(all.last()));
        proof {
            assert(all =~= all.drop_last().push(all.last()));
            assert forall|k: int| 0 <= k < targets@.len() implies is_target_of(
                #[trigger] targets@[k],
                all[k],
                k + 1,
            ) by {
                if k < closed.len() {
                    assert(targets@[k] == closed[k]);
                    assert(all.drop_last()[k] == all[k]);
                }
            }
        }
    }
    targets
}

} // verus!
