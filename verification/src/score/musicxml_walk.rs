//! The walk through the measures of a MusicXML score: where each note
//! starts and how long it lasts, what the pedal does, and where the tempo
//! changes. The measures are given as plain values, read from the
//! document by the caller.

use crate::ports::midi::MidiLikeEvent;
use crate::ports::types::{add_ticks, sat_add_tick, Tick};
use crate::score::midi_import::{
    lists_changes, tempo_map_of_changes, with_default_tempo, PlaybackOrder,
};
use crate::score::model::{
    Hand, PlaybackMidiEvent, Score, ScoreMeta, ScoreSource, TempoPoint, Track,
};
use crate::score::musicxml_import::{
    apply_rearticulation_gaps, are_gapped, are_targets_of, build_playback_events, build_targets,
    clamp_tick, duration_ticks, duration_ticks_spec, groups_of, hand_of_staff,
    measure_length_ticks, measure_length_ticks_spec, note_playback_events, note_type_ticks,
    note_type_ticks_spec, NoteByTick, NoteEvent, NoteType, MUSICXML_PPQ,
};
use crate::sorting::is_stable_sort_of;
use vstd::prelude::*;

verus! {

/// The velocity of notes before any dynamics are written.
pub const INITIAL_VELOCITY: u8 = 90;

/// The number of slots for ties: one for each pitch and hand.
pub const TIE_SLOTS: usize = 768;

/// A pedal mark, by its type.
#[derive(Clone, Copy, Debug, PartialEq, Eq, Structural)]
pub enum PedalMark {
    Start,
    Stop,
    Change,
    Other,
}

/// What words of a direction say of the pedal.
#[derive(Clone, Copy, Debug, PartialEq, Eq, Structural)]
pub enum PedalWord {
    Press,
    Release,
    Simile,
    Other,
}

/// The kind of a note as it is written, where it has no duration of its
/// own: its type, its dots and its tuplet.
#[derive(Clone, Copy, Debug, PartialEq, Eq, Structural)]
pub struct WrittenLength {
    pub kind: NoteType,
    pub dots: usize,
    pub actual: i64,
    pub normal: i64,
}

/// A time signature as it is written.
#[derive(Clone, Copy, Debug, PartialEq, Eq, Structural)]
pub struct TimeSignature {
    pub beats: i64,
    pub beat_type: i64,
}

#[derive(Clone, Copy, Debug, PartialEq, Eq, Structural)]
pub struct AttributesItem {
    /// Divisions of a quarter note, where they are written.
    pub divisions: Option<i64>,
    /// Beats and beat type, where both are written.
    pub time: Option<TimeSignature>,
}

#[derive(Clone, Debug)]
pub struct DirectionItem {
    /// Microseconds per quarter note, where a tempo is written.
    pub tempo: Option<u32>,
    pub sound_velocity: Option<u8>,
    pub sound_pedal: Option<bool>,
    pub mark_velocity: Option<u8>,
    pub pedal_marks: Vec<PedalMark>,
    pub pedal_words: Vec<PedalWord>,
}

#[derive(Clone, Copy, Debug, PartialEq, Eq, Structural)]
pub struct NoteItem {
    pub is_chord: bool,
    pub is_rest: bool,
    pub is_grace: bool,
    /// The duration in divisions, 0 where none is written.
    pub duration: i64,
    pub written: Option<WrittenLength>,
    pub pitch: Option<u8>,
    pub staff: Option<u8>,
    pub tie_start: bool,
    pub tie_stop: bool,
}

#[derive(Clone, Debug)]
pub enum MeasureItem {
    Attributes(AttributesItem),
    Direction(DirectionItem),
    /// The duration in divisions.
    Backup(i64),
    /// The duration in divisions.
    Forward(i64),
    Note(NoteItem),
}

#[derive(Clone, Debug)]
pub struct MeasureItems {
    pub implicit: bool,
    pub items: Vec<MeasureItem>,
}

#[derive(Clone, Debug)]
pub struct PartItems {
    pub measures: Vec<MeasureItems>,
}

/// A direction as a mathematical value.
pub struct DirectionView {
    pub tempo: Option<u32>,
    pub sound_velocity: Option<u8>,
    pub sound_pedal: Option<bool>,
    pub mark_velocity: Option<u8>,
    pub pedal_marks: Seq<PedalMark>,
    pub pedal_words: Seq<PedalWord>,
}

/// An item of a measure as a mathematical value.
pub enum MeasureItemView {
    Attributes(AttributesItem),
    Direction(DirectionView),
    Backup(i64),
    Forward(i64),
    Note(NoteItem),
}

/// A measure as a mathematical value.
pub struct MeasureView {
    pub implicit: bool,
    pub items: Seq<MeasureItemView>,
}

/// A part as a mathematical value.
pub struct PartView {
    pub measures: Seq<MeasureView>,
}

impl DirectionItem {
    pub open spec fn view(&self) -> DirectionView {
        DirectionView {
            tempo: self.tempo,
            sound_velocity: self.sound_velocity,
            sound_pedal: self.sound_pedal,
            mark_velocity: self.mark_velocity,
            pedal_marks: self.pedal_marks@,
            pedal_words: self.pedal_words@,
        }
    }
}

impl MeasureItem {
    pub open spec fn view(&self) -> MeasureItemView {
        match *self {
            MeasureItem::Attributes(a) => MeasureItemView::Attributes(a),
            MeasureItem::Direction(d) => MeasureItemView::Direction(d@),
            MeasureItem::Backup(duration) => MeasureItemView::Backup(duration),
            MeasureItem::Forward(duration) => MeasureItemView::Forward(duration),
            MeasureItem::Note(n) => MeasureItemView::Note(n),
        }
    }
}

impl MeasureItems {
    pub open spec fn view(&self) -> MeasureView {
        MeasureView {
            implicit: self.implicit,
            items: Seq::new(self.items@.len(), |i: int| self.items@[i]@),
        }
    }
}

impl PartItems {
    pub open spec fn view(&self) -> PartView {
        PartView { measures: Seq::new(self.measures@.len(), |i: int| self.measures@[i]@) }
    }
}

/// The parts of a list, as mathematical values.
pub open spec fn part_views(parts: Seq<PartItems>) -> Seq<PartView> {
    Seq::new(parts.len(), |i: int| parts[i]@)
}

pub open spec fn sat_sub_tick(a: Tick, b: Tick) -> Tick {
    clamp_tick(a - b)
}

pub open spec fn max_tick(a: Tick, b: Tick) -> Tick {
    if a >= b {
        a
    } else {
        b
    }
}

pub open spec fn min_tick(a: Tick, b: Tick) -> Tick {
    if a <= b {
        a
    } else {
        b
    }
}

fn sub_ticks(a: Tick, b: Tick) -> (r: Tick)
    ensures
        r == sat_sub_tick(a, b),
{
    let wide: i128 = a as i128 - b as i128;
    if wide > i64::MAX as i128 {
        i64::MAX
    } else if wide < i64::MIN as i128 {
        i64::MIN
    } else {
        wide as i64
    }
}

fn larger(a: Tick, b: Tick) -> (r: Tick)
    ensures
        r == max_tick(a, b),
{
    if a >= b {
        a
    } else {
        b
    }
}

/// The slot of the tie of the pitch `note` in the hand `hand`.
pub open spec fn tie_slot(note: u8, hand: Option<Hand>) -> int {
    note * 3 + (match hand {
        None => 0int,
        Some(Hand::Left) => 1int,
        Some(Hand::Right) => 2int,
    })
}

fn slot_of(note: u8, hand: Option<Hand>) -> (slot: usize)
    ensures
        slot == tie_slot(note, hand),
        slot < TIE_SLOTS,
{
    let code: usize = match hand {
        None => 0,
        Some(Hand::Left) => 1,
        Some(Hand::Right) => 2,
    };
    note as usize * 3 + code
}

/// The walk so far, as a mathematical value.
pub struct WalkView {
    pub notes: Seq<NoteEvent>,
    pub cc64: Seq<PlaybackMidiEvent>,
    pub tempo: Map<Tick, u32>,
    // The part.
    pub current_tick: Tick,
    pub divisions: i64,
    pub velocity: u8,
    pub pedal_down: bool,
    pub beats: i64,
    pub beat_type: i64,
    pub measure_index: u32,
    /// For each pitch and hand, the note that a tie holds open.
    pub ties: Seq<Option<usize>>,
    pub max_note_end: Tick,
    // The measure.
    pub measure_start: Tick,
    pub cursor: Tick,
    pub measure_end: Tick,
    pub last_note_start: Option<Tick>,
    pub expected_end: Option<Tick>,
}

/// Where a measure of the length `len` that starts at `start` is expected
/// to end; nowhere for a measure without a length.
pub open spec fn expected_end_of(start: Tick, len: Tick) -> Option<Tick> {
    if len > 0 {
        Some(sat_add_tick(start, len))
    } else {
        None
    }
}

pub open spec fn no_ties() -> Seq<Option<usize>> {
    Seq::new(TIE_SLOTS as nat, |i: int| None::<usize>)
}

impl WalkView {
    pub open spec fn wf(self) -> bool {
        &&& self.ties.len() == TIE_SLOTS
        &&& forall|s: int|
            0 <= s < TIE_SLOTS ==> (#[trigger] self.ties[s] matches Some(idx) ==> idx
                < self.notes.len())
    }

    /// Before the first part.
    pub open spec fn start() -> WalkView {
        WalkView {
            notes: Seq::empty(),
            cc64: Seq::empty(),
            tempo: Map::empty(),
            current_tick: 0,
            divisions: 1,
            velocity: INITIAL_VELOCITY,
            pedal_down: false,
            beats: 4,
            beat_type: 4,
            measure_index: 0,
            ties: no_ties(),
            max_note_end: 0,
            measure_start: 0,
            cursor: 0,
            measure_end: 0,
            last_note_start: None,
            expected_end: None,
        }
    }

    /// At the start of a part: in common time at tick 0, with nothing
    /// held.
    pub open spec fn begin_part(self) -> WalkView {
        WalkView {
            current_tick: 0,
            divisions: 1,
            velocity: INITIAL_VELOCITY,
            pedal_down: false,
            beats: 4,
            beat_type: 4,
            measure_index: 0,
            ties: no_ties(),
            max_note_end: 0,
            ..self
        }
    }

    /// At the start of a measure.
    pub open spec fn begin_measure(self) -> WalkView {
        let start = max_tick(self.current_tick, 0);
        WalkView {
            measure_start: start,
            cursor: start,
            measure_end: start,
            last_note_start: None,
            expected_end: expected_end_of(
                start,
                measure_length_ticks_spec(MUSICXML_PPQ, self.beats, self.beat_type),
            ),
            ..self
        }
    }

    /// Divisions and time signature are taken over where they are written
    /// and positive.
    pub open spec fn attributes(self, item: AttributesItem) -> WalkView {
        let divisions = match item.divisions {
            Some(d) => if d < 1 {
                1
            } else {
                d
            },
            None => self.divisions,
        };
        match item.time {
            Some(time) => if time.beats > 0 && time.beat_type > 0 {
                WalkView {
                    divisions,
                    beats: time.beats,
                    beat_type: time.beat_type,
                    expected_end: expected_end_of(
                        self.measure_start,
                        measure_length_ticks_spec(MUSICXML_PPQ, time.beats, time.beat_type),
                    ),
                    ..self
                }
            } else {
                WalkView { divisions, ..self }
            },
            None => WalkView { divisions, ..self },
        }
    }

    /// The pedal goes `down` at `tick`, if it is not there.
    pub open spec fn pedal(self, tick: Tick, down: bool) -> WalkView {
        if self.pedal_down == down {
            self
        } else {
            WalkView {
                pedal_down: down,
                cc64: self.cc64.push(
                    PlaybackMidiEvent {
                        tick,
                        event: MidiLikeEvent::Cc64 {
                            value: if down {
                                127
                            } else {
                                0
                            },
                        },
                        hand: None,
                    },
                ),
                ..self
            }
        }
    }

    /// The pedal after the first `n` of the marks, each at `tick`.
    pub open spec fn pedal_marks(self, marks: Seq<PedalMark>, n: int, tick: Tick) -> WalkView
        decreases n,
    {
        if n <= 0 {
            self
        } else {
            let before = self.pedal_marks(marks, n - 1, tick);
            match marks[n - 1] {
                PedalMark::Start => before.pedal(tick, true),
                PedalMark::Stop => before.pedal(tick, false),
                PedalMark::Change => before.pedal(tick, !before.pedal_down),
                PedalMark::Other => before,
            }
        }
    }

    /// What the words from the `from`-th on say of the pedal: the first
    /// that says something decides.
    pub open spec fn pedal_words(self, words: Seq<PedalWord>, from: int) -> Option<bool>
        decreases words.len() - from,
    {
        if from < 0 || from >= words.len() {
            None
        } else {
            match words[from] {
                PedalWord::Press => Some(true),
                PedalWord::Release => Some(false),
                PedalWord::Simile => if self.pedal_down {
                    Some(true)
                } else {
                    self.pedal_words(words, from + 1)
                },
                PedalWord::Other => self.pedal_words(words, from + 1),
            }
        }
    }

    /// A direction at the cursor: tempo, dynamics and pedal of the sound,
    /// then the dynamics mark, the pedal marks and the words.
    pub open spec fn direction(self, item: DirectionView) -> WalkView {
        let tick = max_tick(self.cursor, 0);
        let with_tempo = match item.tempo {
            Some(us_per_quarter) => WalkView {
                tempo: self.tempo.insert(tick, us_per_quarter),
                ..self
            },
            None => self,
        };
        let with_velocity = match item.sound_velocity {
            Some(v) => WalkView { velocity: v, ..with_tempo },
            None => with_tempo,
        };
        let with_sound = match item.sound_pedal {
            Some(down) => with_velocity.pedal(tick, down),
            None => with_velocity,
        };
        let with_mark = match item.mark_velocity {
            Some(v) => WalkView { velocity: v, ..with_sound },
            None => with_sound,
        };
        let with_marks = with_mark.pedal_marks(
            item.pedal_marks,
            item.pedal_marks.len() as int,
            tick,
        );
        match with_marks.pedal_words(item.pedal_words, 0) {
            Some(down) => with_marks.pedal(tick, down),
            None => with_marks,
        }
    }

    /// The cursor goes back, not before the start of the measure.
    pub open spec fn backup(self, duration: i64) -> WalkView {
        let ticks = max_tick(duration_ticks_spec(duration, self.divisions, MUSICXML_PPQ), 0);
        WalkView {
            cursor: max_tick(sat_sub_tick(self.cursor, ticks), self.measure_start),
            last_note_start: None,
            ..self
        }
    }

    /// The cursor goes on.
    pub open spec fn forward(self, duration: i64) -> WalkView {
        let ticks = max_tick(duration_ticks_spec(duration, self.divisions, MUSICXML_PPQ), 0);
        let cursor = sat_add_tick(self.cursor, ticks);
        WalkView {
            cursor,
            measure_end: max_tick(self.measure_end, cursor),
            last_note_start: None,
            ..self
        }
    }

    /// The length of a note as it is written, in ticks, and whether none
    /// is written at all.
    pub open spec fn written_length(self, item: NoteItem) -> (Tick, bool) {
        let raw = duration_ticks_spec(item.duration, self.divisions, MUSICXML_PPQ);
        if raw == 0 {
            match item.written {
                Some(w) => (
                    note_type_ticks_spec(w.kind, w.dots, w.actual, w.normal, MUSICXML_PPQ),
                    false,
                ),
                None => (raw, true),
            }
        } else {
            (raw, false)
        }
    }

    /// Where a note starts: a note of a chord with the note before it.
    pub open spec fn base_tick(self, item: NoteItem) -> Tick {
        if item.is_chord {
            match self.last_note_start {
                Some(tick) => tick,
                None => self.cursor,
            }
        } else {
            self.cursor
        }
    }

    /// The room up to the expected end of the measure, where there is
    /// one.
    pub open spec fn room(self, item: NoteItem) -> Option<Tick> {
        match self.expected_end {
            Some(end) => Some(max_tick(sat_sub_tick(end, self.base_tick(item)), 0)),
            None => None,
        }
    }

    /// The length of a note within the measure.
    pub open spec fn length_in_measure(self, item: NoteItem) -> Tick {
        let duration = max_tick(self.written_length(item).0, 0);
        match self.room(item) {
            Some(room) => min_tick(duration, room),
            None => duration,
        }
    }

    /// A sounding note is taken down: a note that ends a tie lengthens the
    /// note that the tie holds open; any other is a note of its own.
    pub open spec fn sound(self, item: NoteItem, note: u8) -> WalkView {
        let hand = match item.staff {
            Some(n) => if n == 1 {
                Some(Hand::Right)
            } else if n == 2 {
                Some(Hand::Left)
            } else {
                None
            },
            None => None,
        };
        let slot = tie_slot(note, hand);
        let base = self.base_tick(item);
        let length = max_tick(self.length_in_measure(item), 1);
        if item.tie_stop && self.ties[slot] is Some {
            let idx = self.ties[slot].unwrap() as int;
            let held = self.notes[idx];
            let longer = NoteEvent {
                duration_ticks: sat_add_tick(held.duration_ticks, length),
                ..held
            };
            WalkView {
                notes: self.notes.update(idx, longer),
                max_note_end: max_tick(
                    self.max_note_end,
                    sat_add_tick(longer.tick, longer.duration_ticks),
                ),
                ties: if item.tie_start {
                    self.ties
                } else {
                    self.ties.update(slot, None)
                },
                ..self
            }
        } else {
            WalkView {
                notes: self.notes.push(
                    NoteEvent {
                        tick: max_tick(base, 0),
                        duration_ticks: length,
                        note,
                        velocity: self.velocity,
                        hand,
                        measure_index: Some(self.measure_index),
                    },
                ),
                max_note_end: max_tick(self.max_note_end, sat_add_tick(base, length)),
                ties: if item.tie_start {
                    self.ties.update(slot, Some(self.notes.len() as usize))
                } else {
                    self.ties
                },
                ..self
            }
        }
    }

    /// How far the cursor goes on behind a note that is not of a chord:
    /// by its length, and by a tick where no length is written and there is
    /// room.
    pub open spec fn advance(self, item: NoteItem) -> Tick {
        let length = self.length_in_measure(item);
        if length == 0 && self.written_length(item).1 {
            match self.room(item) {
                Some(room) => if room > 0 {
                    1
                } else {
                    0
                },
                None => 1,
            }
        } else {
            length
        }
    }

    /// A note: a grace note is passed over; a note that sounds is taken
    /// down; behind a note that is not of a chord the cursor goes on.
    pub open spec fn note(self, item: NoteItem) -> WalkView {
        if item.is_grace {
            self
        } else {
            let sounded = if !item.is_rest && item.pitch is Some {
                self.sound(item, item.pitch.unwrap())
            } else {
                self
            };
            if item.is_chord {
                sounded
            } else {
                let cursor = sat_add_tick(self.cursor, self.advance(item));
                WalkView {
                    last_note_start: if item.is_rest {
                        None
                    } else {
                        Some(max_tick(self.base_tick(item), 0))
                    },
                    cursor,
                    measure_end: max_tick(self.measure_end, cursor),
                    ..sounded
                }
            }
        }
    }

    pub open spec fn item(self, item: MeasureItemView) -> WalkView {
        match item {
            MeasureItemView::Attributes(a) => self.attributes(a),
            MeasureItemView::Direction(d) => self.direction(d),
            MeasureItemView::Backup(duration) => self.backup(duration),
            MeasureItemView::Forward(duration) => self.forward(duration),
            MeasureItemView::Note(n) => self.note(n),
        }
    }

    /// After the first `n` of the items of a measure.
    pub open spec fn items(self, items: Seq<MeasureItemView>, n: int) -> WalkView
        decreases n,
    {
        if n <= 0 {
            self
        } else {
            self.items(items, n - 1).item(items[n - 1])
        }
    }

    /// At the end of a measure: a measure that is not a pickup lasts as
    /// long as its time signature says, at least.
    pub open spec fn end_measure(self, implicit: bool) -> WalkView {
        let end = match self.expected_end {
            Some(expected) => if !implicit {
                max_tick(self.measure_end, expected)
            } else {
                self.measure_end
            },
            None => self.measure_end,
        };
        WalkView {
            measure_end: end,
            current_tick: end,
            measure_index: if self.measure_index == u32::MAX {
                u32::MAX
            } else {
                (self.measure_index + 1) as u32
            },
            ..self
        }
    }

    pub open spec fn measure(self, m: MeasureView) -> WalkView {
        self.begin_measure().items(m.items, m.items.len() as int).end_measure(m.implicit)
    }

    /// After the first `n` of the measures of a part.
    pub open spec fn measures(self, measures: Seq<MeasureView>, n: int) -> WalkView
        decreases n,
    {
        if n <= 0 {
            self
        } else {
            self.measures(measures, n - 1).measure(measures[n - 1])
        }
    }

    /// At the end of a part: a pedal that is down is let go behind the
    /// last note.
    pub open spec fn end_part(self) -> WalkView {
        if self.pedal_down {
            self.pedal(max_tick(self.max_note_end, self.current_tick), false)
        } else {
            self
        }
    }

    pub open spec fn part(self, p: PartView) -> WalkView {
        self.begin_part().measures(p.measures, p.measures.len() as int).end_part()
    }

    /// After the first `n` of the parts.
    pub open spec fn parts(self, parts: Seq<PartView>, n: int) -> WalkView
        decreases n,
    {
        if n <= 0 {
            self
        } else {
            self.parts(parts, n - 1).part(parts[n - 1])
        }
    }
}


/// The walk through the measures of a score.
pub struct Walk {
    notes: Vec<NoteEvent>,
    cc64: Vec<PlaybackMidiEvent>,
    tempo_points: Vec<crate::score::model::TempoPoint>,
    tempo: Ghost<Map<Tick, u32>>,
    current_tick: Tick,
    divisions: i64,
    velocity: u8,
    pedal_down: bool,
    beats: i64,
    beat_type: i64,
    measure_index: u32,
    ties: Vec<Option<usize>>,
    max_note_end: Tick,
    measure_start: Tick,
    cursor: Tick,
    measure_end: Tick,
    last_note_start: Option<Tick>,
    expected_end: Option<Tick>,
}

fn fresh_ties() -> (ties: Vec<Option<usize>>)
    ensures
        ties@ == no_ties(),
{
    let mut ties: Vec<Option<usize>> = Vec::new();
    let mut i: usize = 0;
    while i < TIE_SLOTS
        invariant
            i <= TIE_SLOTS,
            ties@.len() == i,
            forall|j: int| 0 <= j < i ==> ties@[j] is None,
        decreases TIE_SLOTS - i,
    {
        ties.push(None);
        i = i + 1;
    }
    assert(ties@ =~= no_ties());
    ties
}

impl Walk {
    pub closed spec fn view(&self) -> WalkView {
        WalkView {
            notes: self.notes@,
            cc64: self.cc64@,
            tempo: self.tempo@,
            current_tick: self.current_tick,
            divisions: self.divisions,
            velocity: self.velocity,
            pedal_down: self.pedal_down,
            beats: self.beats,
            beat_type: self.beat_type,
            measure_index: self.measure_index,
            ties: self.ties@,
            max_note_end: self.max_note_end,
            measure_start: self.measure_start,
            cursor: self.cursor,
            measure_end: self.measure_end,
            last_note_start: self.last_note_start,
            expected_end: self.expected_end,
        }
    }

    /// The tempo changes are listed by rising tick, and none lies before
    /// tick 0.
    pub closed spec fn wf(&self) -> bool {
        &&& self@.wf()
        &&& crate::score::midi_import::lists_changes(self.tempo_points@, self.tempo@)
        &&& forall|tick: Tick| #[trigger] self.tempo@.contains_key(tick) ==> tick >= 0
    }

    pub fn new() -> (walk: Walk)
        ensures
            walk.wf(),
            walk@ == WalkView::start(),
    {
        Walk {
            notes: Vec::new(),
            cc64: Vec::new(),
            tempo_points: Vec::new(),
            tempo: Ghost(Map::empty()),
            current_tick: 0,
            divisions: 1,
            velocity: INITIAL_VELOCITY,
            pedal_down: false,
            beats: 4,
            beat_type: 4,
            measure_index: 0,
            ties: fresh_ties(),
            max_note_end: 0,
            measure_start: 0,
            cursor: 0,
            measure_end: 0,
            last_note_start: None,
            expected_end: None,
        }
    }

    fn expected_end_for(start: Tick, beats: i64, beat_type: i64) -> (end: Option<Tick>)
        ensures
            end == expected_end_of(start, measure_length_ticks_spec(MUSICXML_PPQ, beats, beat_type)),
    {
        let len = measure_length_ticks(MUSICXML_PPQ, beats, beat_type);
        if len > 0 {
            Some(add_ticks(start, len))
        } else {
            None
        }
    }

    fn begin_part(&mut self)
        requires
            old(self).wf(),
        ensures
            final(self).wf(),
            final(self)@ == old(self)@.begin_part(),
    {
        self.current_tick = 0;
        self.divisions = 1;
        self.velocity = INITIAL_VELOCITY;
        self.pedal_down = false;
        self.beats = 4;
        self.beat_type = 4;
        self.measure_index = 0;
        self.ties = fresh_ties();
        self.max_note_end = 0;
    }

    fn begin_measure(&mut self)
        requires
            old(self).wf(),
        ensures
            final(self).wf(),
            final(self)@ == old(self)@.begin_measure(),
    {
        let start = larger(self.current_tick, 0);
        self.measure_start = start;
        self.cursor = start;
        self.measure_end = start;
        self.last_note_start = None;
        self.expected_end = Self::expected_end_for(start, self.beats, self.beat_type);
    }

    fn attributes(&mut self, item: AttributesItem)
        requires
            old(self).wf(),
        ensures
            final(self).wf(),
            final(self)@ == old(self)@.attributes(item),
    {
        match item.divisions {
            Some(d) => {
                self.divisions = if d < 1 {
                    1
                } else {
                    d
                };
            },
            None => {},
        }
        match item.time {
            Some(time) => {
                if time.beats > 0 && time.beat_type > 0 {
                    self.beats = time.beats;
                    self.beat_type = time.beat_type;
                    self.expected_end =
                    Self::expected_end_for(self.measure_start, time.beats, time.beat_type);
                }
            },
            None => {},
        }
    }

    fn pedal(&mut self, tick: Tick, down: bool)
        requires
            old(self).wf(),
        ensures
            final(self).wf(),
            final(self)@ == old(self)@.pedal(tick, down),
    {
        if self.pedal_down == down {
            return ;
        }
        self.pedal_down = down;
        self.cc64.push(
            PlaybackMidiEvent {
                tick,
                event: MidiLikeEvent::Cc64 {
                    value: if down {
                        127
                    } else {
                        0
                    },
                },
                hand: None,
            },
        );
    }

    fn pedal_words(&self, words: &Vec<PedalWord>) -> (said: Option<bool>)
        ensures
            said == self@.pedal_words(words@, 0),
    {
        let mut i: usize = 0;
        while i < words.len()
            invariant
                i <= words@.len(),
                self@.pedal_words(words@, 0) == self@.pedal_words(words@, i as int),
            decreases words@.len() - i,
        {
            match words[i] {
                PedalWord::Press => {
                    return Some(true);
                },
                PedalWord::Release => {
                    return Some(false);
                },
                PedalWord::Simile => {
                    if self.pedal_down {
                        return Some(true);
                    }
                },
                PedalWord::Other => {},
            }
            i = i + 1;
        }
        None
    }

    fn direction(&mut self, item: &DirectionItem)
        requires
            old(self).wf(),
        ensures
            final(self).wf(),
            final(self)@ == old(self)@.direction(item@),
    {
        let tick = larger(self.cursor, 0);
        match item.tempo {
            Some(us_per_quarter) => {
                crate::score::midi_import::set_tempo(
                    &mut self.tempo_points,
                    tick,
                    us_per_quarter,
                    self.tempo,
                );
                self.tempo = Ghost(self.tempo@.insert(tick, us_per_quarter));
            },
            None => {},
        }
        match item.sound_velocity {
            Some(v) => {
                self.velocity = v;
            },
            None => {},
        }
        match item.sound_pedal {
            Some(down) => {
                self.pedal(tick, down);
            },
            None => {},
        }
        match item.mark_velocity {
            Some(v) => {
                self.velocity = v;
            },
            None => {},
        }
        let ghost marked = self@;
        let mut i: usize = 0;
        while i < item.pedal_marks.len()
            invariant
                i <= item.pedal_marks@.len(),
                self.wf(),
                self@ == marked.pedal_marks(item.pedal_marks@, i as int, tick),
            decreases item.pedal_marks@.len() - i,
        {
            match item.pedal_marks[i] {
                PedalMark::Start => {
                    self.pedal(tick, true);
                },
                PedalMark::Stop => {
                    self.pedal(tick, false);
                },
                PedalMark::Change => {
                    let down = !self.pedal_down;
                    self.pedal(tick, down);
                },
                PedalMark::Other => {},
            }
            i = i + 1;
        }
        match self.pedal_words(&item.pedal_words) {
            Some(down) => {
                self.pedal(tick, down);
            },
            None => {},
        }
    }

    fn moved_by(&self, duration: i64) -> (ticks: Tick)
        ensures
            ticks == max_tick(duration_ticks_spec(duration, self@.divisions, MUSICXML_PPQ), 0),
    {
        larger(duration_ticks(duration, self.divisions, MUSICXML_PPQ), 0)
    }

    fn backup(&mut self, duration: i64)
        requires
            old(self).wf(),
        ensures
            final(self).wf(),
            final(self)@ == old(self)@.backup(duration),
    {
        let ticks = self.moved_by(duration);
        self.cursor = larger(sub_ticks(self.cursor, ticks), self.measure_start);
        self.last_note_start = None;
    }

    fn forward(&mut self, duration: i64)
        requires
            old(self).wf(),
        ensures
            final(self).wf(),
            final(self)@ == old(self)@.forward(duration),
    {
        let ticks = self.moved_by(duration);
        self.cursor = add_ticks(self.cursor, ticks);
        self.measure_end = larger(self.measure_end, self.cursor);
        self.last_note_start = None;
    }

    fn written_length(&self, item: &NoteItem) -> (r: (Tick, bool))
        ensures
            r == self@.written_length(*item),
    {
        let raw = duration_ticks(item.duration, self.divisions, MUSICXML_PPQ);
        if raw == 0 {
            match item.written {
                Some(w) => (note_type_ticks(w.kind, w.dots, w.actual, w.normal, MUSICXML_PPQ), false),
                None => (raw, true),
            }
        } else {
            (raw, false)
        }
    }

    fn base_tick(&self, item: &NoteItem) -> (tick: Tick)
        ensures
            tick == self@.base_tick(*item),
    {
        if item.is_chord {
            match self.last_note_start {
                Some(tick) => tick,
                None => self.cursor,
            }
        } else {
            self.cursor
        }
    }

    fn room(&self, item: &NoteItem) -> (room: Option<Tick>)
        ensures
            room == self@.room(*item),
    {
        match self.expected_end {
            Some(end) => Some(larger(sub_ticks(end, self.base_tick(item)), 0)),
            None => None,
        }
    }

    fn length_in_measure(&self, item: &NoteItem) -> (length: Tick)
        ensures
            length == self@.length_in_measure(*item),
    {
        let duration = larger(self.written_length(item).0, 0);
        match self.room(item) {
            Some(room) => {
                if duration <= room {
                    duration
                } else {
                    room
                }
            },
            None => duration,
        }
    }

    fn sound(&mut self, item: &NoteItem, note: u8)
        requires
            old(self).wf(),
        ensures
            final(self).wf(),
            final(self)@ == old(self)@.sound(*item, note),
    {
        let hand = hand_of_staff(item.staff);
        let slot = slot_of(note, hand);
        let base = self.base_tick(item);
        let length = larger(self.length_in_measure(item), 1);
        let held = if item.tie_stop {
            self.ties[slot]
        } else {
            None
        };
        match held {
            Some(idx) => {
                let before = self.notes[idx];
                let longer = NoteEvent {
                    tick: before.tick,
                    duration_ticks: add_ticks(before.duration_ticks, length),
                    note: before.note,
                    velocity: before.velocity,
                    hand: before.hand,
                    measure_index: before.measure_index,
                };
                self.notes[idx] = longer;
                self.max_note_end =
                larger(self.max_note_end, add_ticks(longer.tick, longer.duration_ticks));
                if !item.tie_start {
                    self.ties[slot] = None;
                }
            },
            None => {
                let idx = self.notes.len();
                self.notes.push(
                    NoteEvent {
                        tick: larger(base, 0),
                        duration_ticks: length,
                        note,
                        velocity: self.velocity,
                        hand,
                        measure_index: Some(self.measure_index),
                    },
                );
                self.max_note_end = larger(self.max_note_end, add_ticks(base, length));
                if item.tie_start {
                    self.ties[slot] = Some(idx);
                }
            },
        }
    }

    fn advance(&self, item: &NoteItem) -> (ticks: Tick)
        ensures
            ticks == self@.advance(*item),
    {
        let length = self.length_in_measure(item);
        if length == 0 && self.written_length(item).1 {
            match self.room(item) {
                Some(room) => {
                    if room > 0 {
                        1
                    } else {
                        0
                    }
                },
                None => 1,
            }
        } else {
            length
        }
    }

    fn note(&mut self, item: &NoteItem)
        requires
            old(self).wf(),
        ensures
            final(self).wf(),
            final(self)@ == old(self)@.note(*item),
    {
        if item.is_grace {
            return ;
        }
        let base = self.base_tick(item);
        let advance = self.advance(item);
        let cursor = add_ticks(self.cursor, advance);
        if !item.is_rest {
            match item.pitch {
                Some(note) => {
                    self.sound(item, note);
                },
                None => {},
            }
        }
        if !item.is_chord {
            self.last_note_start = if item.is_rest {
                None
            } else {
                Some(larger(base, 0))
            };
            self.cursor = cursor;
            self.measure_end = larger(self.measure_end, cursor);
        }
    }

    fn end_measure(&mut self, implicit: bool)
        requires
            old(self).wf(),
        ensures
            final(self).wf(),
            final(self)@ == old(self)@.end_measure(implicit),
    {
        match self.expected_end {
            Some(expected) => {
                if !implicit {
                    self.measure_end = larger(self.measure_end, expected);
                }
            },
            None => {},
        }
        self.current_tick = self.measure_end;
        if self.measure_index < u32::MAX {
            self.measure_index = self.measure_index + 1;
        }
    }

    fn measure(&mut self, m: &MeasureItems)
        requires
            old(self).wf(),
        ensures
            final(self).wf(),
            final(self)@ == old(self)@.measure(m@),
    {
        self.begin_measure();
        let ghost begun = self@;
        let mut i: usize = 0;
        while i < m.items.len()
            invariant
                i <= m.items@.len(),
                self.wf(),
                self@ == begun.items(m@.items, i as int),
            decreases m.items@.len() - i,
        {
            match &m.items[i] {
                MeasureItem::Attributes(a) => {
                    self.attributes(*a);
                },
                MeasureItem::Direction(d) => {
                    self.direction(d);
                },
                MeasureItem::Backup(duration) => {
                    self.backup(*duration);
                },
                MeasureItem::Forward(duration) => {
                    self.forward(*duration);
                },
                MeasureItem::Note(n) => {
                    self.note(n);
                },
            }
            i = i + 1;
        }
        self.end_measure(m.implicit);
    }

    /// Walks through a part from its first measure to its last.
    pub fn part(&mut self, p: &PartItems)
        requires
            old(self).wf(),
        ensures
            final(self).wf(),
            final(self)@ == old(self)@.part(p@),
    {
        self.begin_part();
        let ghost begun = self@;
        let mut i: usize = 0;
        while i < p.measures.len()
            invariant
                i <= p.measures@.len(),
                self.wf(),
                self@ == begun.measures(p@.measures, i as int),
            decreases p.measures@.len() - i,
        {
            self.measure(&p.measures[i]);
            i = i + 1;
        }
        if self.pedal_down {
            let end_tick = larger(self.max_note_end, self.current_tick);
            self.pedal(end_tick, false);
        }
    }
}


/// `score` is the score of the parts `parts` with the title `title`: one
/// merged track at 480 pulses per quarter note; the tempo changes of the
/// walk by rising tick behind the default at tick 0; the notes of the walk
/// with their gaps, as playback events together with the pedal, sorted;
/// and the targets of those notes.
pub open spec fn is_musicxml_score(score: Score, title: Option<String>, parts: Seq<PartView>)
    -> bool {
    let walked = WalkView::start().parts(parts, parts.len() as int);
    &&& score.meta.title == title
    &&& score.meta.source == ScoreSource::MusicXml
    &&& score.ppq == MUSICXML_PPQ
    &&& lists_changes(score.tempo_map@, with_default_tempo(walked.tempo))
    &&& score.tracks@.len() == 1
    &&& score.tracks@[0].id == 0
    &&& score.tracks@[0].name@ == "Merged"@
    &&& score.tracks@[0].hand is None
    &&& exists|notes: Seq<NoteEvent>, sorted: Seq<NoteEvent>| #[trigger]
        is_stable_sort_of::<NoteEvent, NoteByTick>(sorted, notes) && are_gapped(
            walked.notes,
            notes,
        ) && are_targets_of(score.tracks@[0].targets@, groups_of(sorted)) && is_stable_sort_of::<
            PlaybackMidiEvent,
            PlaybackOrder,
        >(score.tracks@[0].playback_events@, note_playback_events(notes) + walked.cc64)
}

/// The score of the parts of a MusicXML document with the title `title`.
pub fn score_from_parts(title: Option<String>, parts: &Vec<PartItems>) -> (score: Score)
    ensures
        is_musicxml_score(score, title, part_views(parts@)),
{
    let mut walk = Walk::new();
    let mut i: usize = 0;
    while i < parts.len()
        invariant
            i <= parts@.len(),
            walk.wf(),
            walk@ == WalkView::start().parts(part_views(parts@), i as int),
        decreases parts@.len() - i,
    {
        walk.part(&parts[i]);
        i = i + 1;
    }
    let ghost walked = walk@;
    let Walk { notes, cc64, tempo_points, tempo, .. } = walk;
    let mut notes = notes;
    let tempo_map = tempo_map_of_changes(tempo_points, None, tempo);
    apply_rearticulation_gaps(&mut notes);
    let playback_events = build_playback_events(&notes, &cc64);
    let targets = build_targets(&notes);
    let ghost gapped = notes@;
    let mut tracks: Vec<Track> = Vec::new();
    tracks.push(Track { id: 0, name: "Merged".to_string(), hand: None, targets, playback_events });
    let score = Score {
        meta: ScoreMeta { title, source: ScoreSource::MusicXml },
        ppq: MUSICXML_PPQ,
        tempo_map,
        tracks,
    };
    proof {
        let sorted = choose|sorted: Seq<NoteEvent>| #[trigger]
            is_stable_sort_of::<NoteEvent, NoteByTick>(sorted, gapped) && are_targets_of(
                score.tracks@[0].targets@,
                groups_of(sorted),
            );
        assert(is_stable_sort_of::<NoteEvent, NoteByTick>(sorted, gapped) && are_gapped(
            walked.notes,
            gapped,
        ) && are_targets_of(score.tracks@[0].targets@, groups_of(sorted)) && is_stable_sort_of::<
            PlaybackMidiEvent,
            PlaybackOrder,
        >(score.tracks@[0].playback_events@, note_playback_events(gapped) + walked.cc64));
    }
    score
}

} // verus!
