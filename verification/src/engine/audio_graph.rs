use crate::engine::queue::{
    added, events_polled, lemma_present_add, lemma_present_push, pop_event, present,
};
use crate::engine::transport::sat_add_u64;
use crate::ports::midi::MidiLikeEvent;
use crate::ports::playback::ScheduledEvent;
use crate::ports::types::{Bus, SampleTime};
use crate::sorting::{is_stable_sort_of, lemma_sort_keeps_all, stable_sort, Key, KeyOrder};
use vstd::prelude::*;

verus! {

/// Sample time of the end of the last block rendered.
#[derive(Clone, Copy, Debug)]
pub struct AudioClock {
    sample_time: SampleTime,
}

impl AudioClock {
    /// The sample time held.
    pub closed spec fn view(&self) -> SampleTime {
        self.sample_time
    }

    pub fn new() -> (clock: AudioClock)
        ensures
            clock@ == 0,
    {
        AudioClock { sample_time: 0 }
    }

    pub fn set(&mut self, sample_time: SampleTime)
        ensures
            final(self)@ == sample_time,
    {
        self.sample_time = sample_time;
    }

    pub fn get(&self) -> (sample_time: SampleTime)
        ensures
            sample_time == self@,
    {
        self.sample_time
    }
}

impl Default for AudioClock {
    fn default() -> (clock: AudioClock)
        ensures
            clock@ == 0,
    {
        AudioClock::new()
    }
}

/// Rank of an event among those of one sample: pedal down first, then note
/// off, then note on, pedal up last.
pub open spec fn event_rank(event: MidiLikeEvent) -> u8 {
    match event {
        MidiLikeEvent::Cc64 { value } => if value >= 64 {
            0
        } else {
            3
        },
        MidiLikeEvent::NoteOff { .. } => 1,
        MidiLikeEvent::NoteOn { .. } => 2,
    }
}

/// The pitch of a note event, 0 for a pedal event.
pub open spec fn event_note_key(event: MidiLikeEvent) -> u8 {
    match event {
        MidiLikeEvent::NoteOn { note, .. } => note,
        MidiLikeEvent::NoteOff { note } => note,
        MidiLikeEvent::Cc64 { .. } => 0,
    }
}

pub fn midi_event_rank(event: &MidiLikeEvent) -> (rank: u8)
    ensures
        rank == event_rank(*event),
{
    match event {
        MidiLikeEvent::Cc64 { value } => {
            if *value >= 64 {
                0
            } else {
                3
            }
        },
        MidiLikeEvent::NoteOff { .. } => 1,
        MidiLikeEvent::NoteOn { .. } => 2,
    }
}

pub fn midi_event_note_key(event: &MidiLikeEvent) -> (key: u8)
    ensures
        key == event_note_key(*event),
{
    match event {
        MidiLikeEvent::NoteOn { note, .. } => *note,
        MidiLikeEvent::NoteOff { note } => *note,
        MidiLikeEvent::Cc64 { .. } => 0,
    }
}

/// The order in which the events of a block reach the synthesizer: by
/// sample time, then by rank, then by pitch.
pub struct DispatchOrder;

impl KeyOrder<ScheduledEvent> for DispatchOrder {
    open spec fn key(t: ScheduledEvent) -> Key {
        (t.sample_time as int, event_rank(t.event) as int, event_note_key(t.event) as int)
    }

    fn le(a: &ScheduledEvent, b: &ScheduledEvent) -> (r: bool) {
        if a.sample_time != b.sample_time {
            return a.sample_time < b.sample_time;
        }
        let rank_a = midi_event_rank(&a.event);
        let rank_b = midi_event_rank(&b.event);
        if rank_a != rank_b {
            return rank_a < rank_b;
        }
        midi_event_note_key(&a.event) <= midi_event_note_key(&b.event)
    }
}

/// One step of a block: render a stretch of frames, or hand an event to the
/// synthesizer of a bus, with the sample time that the event was scheduled
/// for.
#[derive(Clone, Copy, Debug, PartialEq, Eq, Structural)]
pub enum BlockStep {
    Render { frames: usize },
    Dispatch { bus: Bus, event: MidiLikeEvent, at: SampleTime },
}

/// The global mute: while playback is disabled, a note on for a
/// score-driven bus is not played.
pub open spec fn is_muted(playback_enabled: bool, e: ScheduledEvent) -> bool {
    !playback_enabled && e.bus.is_score_driven() && e.event is NoteOn
}

/// A block of `frames` frames that starts at sample `start`.
pub struct Block {
    pub start: SampleTime,
    pub frames: usize,
    pub playback_enabled: bool,
}

impl Block {
    /// The sample behind the last of the block.
    pub open spec fn end(self) -> SampleTime {
        sat_add_u64(self.start, self.frames as u64)
    }

    /// The event is handed on in this block.
    pub open spec fn plays(self, e: ScheduledEvent) -> bool {
        e.sample_time < self.end() && !is_muted(self.playback_enabled, e)
    }

    /// The stretch to render from the sample `cursor` up to the sample `to`:
    /// nothing where `to` is not behind `cursor`.
    pub open spec fn stretch(cursor: SampleTime, to: SampleTime) -> Seq<BlockStep> {
        if to > cursor {
            seq![(BlockStep::Render { frames: (to - cursor) as usize })]
        } else {
            Seq::empty()
        }
    }

    /// What is left to render once every event is handed on.
    pub open spec fn tail(self, cursor: SampleTime) -> Seq<BlockStep> {
        let done = cursor - self.start;
        if done < self.frames {
            seq![(BlockStep::Render { frames: (self.frames - done) as usize })]
        } else {
            Seq::empty()
        }
    }

    /// The steps for the events from index `i` on, with everything up to the
    /// sample `cursor` rendered: for each event that plays, the stretch up
    /// to its sample time is rendered, nothing where the event is overdue,
    /// and the event is handed on with its own sample time.
    pub open spec fn walk(self, events: Seq<ScheduledEvent>, i: int, cursor: SampleTime) -> Seq<
        BlockStep,
    >
        decreases events.len() - i,
    {
        if i < 0 || i >= events.len() {
            self.tail(cursor)
        } else if !self.plays(events[i]) {
            self.walk(events, i + 1, cursor)
        } else {
            let e = events[i];
            let reached = if e.sample_time > cursor {
                e.sample_time
            } else {
                cursor
            };
            Self::stretch(cursor, reached) + seq![
                (BlockStep::Dispatch { bus: e.bus, event: e.event, at: e.sample_time }),
            ] + self.walk(events, i + 1, reached)
        }
    }

    /// The steps of the whole block.
    pub open spec fn plan(self, events: Seq<ScheduledEvent>) -> Seq<BlockStep> {
        self.walk(events, 0, self.start)
    }
}

/// Writes the steps of the block of `frames` frames from `start` into
/// `steps`, for the events `events` in the order given.
pub fn plan_block(
    events: &Vec<ScheduledEvent>,
    start: SampleTime,
    frames: usize,
    playback_enabled: bool,
    steps: &mut Vec<BlockStep>,
)
    ensures
        final(steps)@ == (Block { start, frames, playback_enabled }).plan(events@),
{
    let ghost block = Block { start, frames, playback_enabled };
    let end: u64 = start.saturating_add(frames as u64);
    steps.clear();
    let mut cursor_sample: u64 = start;
    let mut cursor_frame: usize = 0;
    let n = events.len();
    let mut idx: usize = 0;
    while idx < n
        invariant
            n == events@.len(),
            idx <= n,
            block == (Block { start, frames, playback_enabled }),
            end == block.end(),
            start <= cursor_sample <= end,
            cursor_frame == cursor_sample - start,
            cursor_frame <= frames,
            steps@ + block.walk(events@, idx as int, cursor_sample) == block.plan(events@),
        decreases n - idx,
    {
        let event = events[idx];
        let muted = !playback_enabled && event.bus.score_driven() && match event.event {
            MidiLikeEvent::NoteOn { .. } => true,
            _ => false,
        };
        if event.sample_time < end && !muted {
            let event_sample: u64 = if event.sample_time > cursor_sample {
                event.sample_time
            } else {
                cursor_sample
            };
            let ghost before = steps@;
            let ghost lead = Block::stretch(cursor_sample, event_sample);
            let ghost hand_on = BlockStep::Dispatch {
                bus: event.bus,
                event: event.event,
                at: event.sample_time,
            };
            let event_frame: usize = (event_sample - cursor_sample) as usize;
            if event_frame > 0 {
                steps.push(BlockStep::Render { frames: event_frame });
                cursor_frame = cursor_frame + event_frame;
                cursor_sample = event_sample;
            }
            assert(steps@ =~= before + lead);
            steps.push(
                BlockStep::Dispatch { bus: event.bus, event: event.event, at: event.sample_time },
            );
            proof {
                let rest = block.walk(events@, idx + 1, event_sample);
                assert(steps@ =~= before + lead + seq![hand_on]);
                assert(before + (lead + seq![hand_on] + rest) =~= before + lead + seq![hand_on]
                    + rest);
            }
        }
        idx = idx + 1;
    }
    let ghost before = steps@;
    if cursor_frame < frames {
        steps.push(BlockStep::Render { frames: frames - cursor_frame });
    }
    assert(steps@ =~= before + block.tail(cursor_sample));
}

/// The events that the steps hand on, each with the sample time that it is
/// handed on with.
pub open spec fn dispatched(steps: Seq<BlockStep>) -> Seq<ScheduledEvent>
    decreases steps.len(),
{
    if steps.len() == 0 {
        Seq::empty()
    } else {
        match steps.first() {
            BlockStep::Dispatch { bus, event, at } => seq![
                (ScheduledEvent { sample_time: at, bus, event }),
            ] + dispatched(steps.drop_first()),
            BlockStep::Render { .. } => dispatched(steps.drop_first()),
        }
    }
}

/// The number of frames that the steps render.
pub open spec fn rendered_frames(steps: Seq<BlockStep>) -> int
    decreases steps.len(),
{
    if steps.len() == 0 {
        0
    } else {
        match steps.first() {
            BlockStep::Render { frames } => frames + rendered_frames(steps.drop_first()),
            BlockStep::Dispatch { .. } => rendered_frames(steps.drop_first()),
        }
    }
}

/// A held event as the first of the block that ends before the sample
/// `end`, if it is due in that block.
pub open spec fn due_held(held: Option<ScheduledEvent>, end: SampleTime) -> Seq<ScheduledEvent> {
    match held {
        Some(event) => if event.sample_time < end {
            seq![event]
        } else {
            Seq::empty()
        },
        None => Seq::empty(),
    }
}

/// An event is held that is not yet due in the block that ends before the
/// sample `end`: such a block takes nothing out of the queue.
pub open spec fn holds_back(held: Option<ScheduledEvent>, end: SampleTime) -> bool {
    held matches Some(event) && event.sample_time >= end
}

/// The events of a block before they are put in order: the event `held`
/// from an earlier block, if it is due, and then what was taken out of the
/// queue for this block, `got`, but for the last of it where that is kept
/// for a later block, as `kept` says.
pub open spec fn gathered(
    held: Option<ScheduledEvent>,
    got: Seq<ScheduledEvent>,
    kept: Option<ScheduledEvent>,
    end: SampleTime,
) -> Seq<ScheduledEvent> {
    due_held(held, end) + if kept is Some && !holds_back(held, end) {
        got.drop_last()
    } else {
        got
    }
}

/// The poll gave an event that is due before the sample `end`.
pub open spec fn is_due(poll: Option<ScheduledEvent>, end: SampleTime) -> bool {
    poll matches Some(event) && event.sample_time < end
}

/// Every poll gave an event that is due before the sample `end`.
pub open spec fn all_due(polls: Seq<Option<ScheduledEvent>>, end: SampleTime) -> bool {
    forall|i: int| 0 <= i < polls.len() ==> is_due(#[trigger] polls[i], end)
}

/// The queue was drained for the block that ends before the sample `end`:
/// every poll but the last gave an event that is due, and the last gave
/// nothing or an event that is not due.
pub open spec fn drained_until(polls: Seq<Option<ScheduledEvent>>, end: SampleTime) -> bool {
    &&& polls.len() > 0
    &&& !is_due(polls.last(), end)
    &&& all_due(polls.drop_last(), end)
}

/// The audio callback's view of the events: what the queue has delivered
/// for the block in hand, one event held back for a later block, and the
/// clock.
pub struct AudioGraph {
    clock: AudioClock,
    consumer: rtrb::Consumer<ScheduledEvent>,
    events: Vec<ScheduledEvent>,
    pending: Option<ScheduledEvent>,
    steps: Vec<BlockStep>,
}

/// The graph as a mathematical value. How it has polled its queue, and
/// what it has taken out of it, is told by `AudioGraph::polled` and
/// `AudioGraph::taken`.
pub struct AudioGraphView {
    pub clock: SampleTime,
    /// The events of the last block, in the order in which they were handed
    /// on.
    pub events: Seq<ScheduledEvent>,
    /// The event taken from the queue that belongs to a later block.
    pub pending: Option<ScheduledEvent>,
    /// The steps of the last block.
    pub steps: Seq<BlockStep>,
}

/// The number of events that a graph holds without allocating.
pub const EVENT_CAPACITY: usize = 512;

impl AudioGraph {
    pub closed spec fn view(&self) -> AudioGraphView {
        AudioGraphView {
            clock: self.clock@,
            events: self.events@,
            pending: self.pending,
            steps: self.steps@,
        }
    }

    /// What each poll of the queue has given through the end that the
    /// graph holds, oldest first: an event, or nothing.
    pub closed spec fn polled(&self) -> Seq<Option<ScheduledEvent>> {
        events_polled(self.consumer)
    }

    /// The events that have come out of the queue through the end that
    /// the graph holds, oldest first: what the polls have given.
    pub open spec fn taken(&self) -> Seq<ScheduledEvent> {
        present(self.polled())
    }

    pub fn new(consumer: rtrb::Consumer<ScheduledEvent>, clock: AudioClock) -> (graph: AudioGraph)
        ensures
            graph@ == (AudioGraphView {
                clock: clock@,
                events: Seq::empty(),
                pending: None,
                steps: Seq::empty(),
            }),
            graph.polled() == events_polled(consumer),
    {
        AudioGraph {
            clock,
            consumer,
            events: Vec::with_capacity(EVENT_CAPACITY),
            pending: None,
            steps: Vec::with_capacity(EVENT_CAPACITY),
        }
    }

    /// The sample time of the end of the last block.
    pub fn clock(&self) -> (clock: AudioClock)
        ensures
            clock@ == self@.clock,
    {
        self.clock
    }

    /// The steps of the last block.
    pub fn steps(&self) -> (steps: &Vec<BlockStep>)
        ensures
            steps@ == self@.steps,
    {
        &self.steps
    }

    /// The events of the last block, in the order in which they were handed
    /// on.
    pub fn events(&self) -> (events: &Vec<ScheduledEvent>)
        ensures
            events@ == self@.events,
    {
        &self.events
    }

    /// Gathers the events of the block that ends before the sample `end`:
    /// the event held back, if it is due, and then what the queue delivers.
    /// The queue is polled until it gives nothing or an event that is not
    /// due, which is held back in turn; a queue that never does either is
    /// left after as many polls as a machine word counts. An event held
    /// back that is still not due leaves the queue unpolled.
    /// The events gathered are put in the order in which they are handed on,
    /// events of one sample time, rank and pitch in the order in which they
    /// came.
    pub fn collect_events(&mut self, end: SampleTime)
        ensures
            ({
                let before = old(self)@;
                let after = final(self)@;
                let polls = added(old(self).polled(), final(self).polled());
                let got = added(old(self).taken(), final(self).taken());
                &&& final(self).polled() == old(self).polled() + polls
                &&& holds_back(before.pending, end) ==> polls.len() == 0
                &&& !holds_back(before.pending, end) ==> drained_until(polls, end) || (polls.len()
                    == usize::MAX && all_due(polls, end))
                &&& got == present(polls)
                &&& final(self).taken() == old(self).taken() + got
                &&& holds_back(before.pending, end) ==> got.len() == 0 && after.pending
                    == before.pending
                &&& !holds_back(before.pending, end) && after.pending is Some ==> got.len() > 0
                    && after.pending == Some(got.last())
                &&& is_stable_sort_of::<ScheduledEvent, DispatchOrder>(
                    after.events,
                    gathered(before.pending, got, after.pending, end),
                )
                &&& forall|i: int|
                    0 <= i < after.events.len() ==> (#[trigger] after.events[i]).sample_time < end
                &&& after.pending matches Some(held) ==> held.sample_time >= end
                &&& after.clock == before.clock
                &&& after.steps == before.steps
            }),
    {
        self.events.clear();
        let mut draining = true;
        match self.pending {
            Some(event) => {
                if event.sample_time < end {
                    self.events.push(event);
                    self.pending = None;
                } else {
                    draining = false;
                }
            },
            None => {},
        }
        let ghost held = old(self).pending;
        let ghost first = self.events@;
        let ghost polled_before = events_polled(self.consumer);
        let ghost mut polls: Seq<Option<ScheduledEvent>> = Seq::empty();
        let ghost mut got: Seq<ScheduledEvent> = Seq::empty();
        proof {
            assert(first =~= due_held(held, end));
            assert(polled_before + polls =~= polled_before);
            assert(first + got =~= first);
        }
        let mut budget: usize = usize::MAX;
        while draining && budget > 0
            invariant
                held == old(self).pending,
                first == due_held(held, end),
                polled_before == old(self).polled(),
                events_polled(self.consumer) == polled_before + polls,
                got == present(polls),
                holds_back(held, end) ==> polls.len() == 0,
                draining ==> all_due(polls, end) && polls.len() == usize::MAX - budget,
                !draining && !holds_back(held, end) ==> drained_until(polls, end),
                forall|i: int|
                    0 <= i < self.events@.len() ==> (#[trigger] self.events@[i]).sample_time < end,
                self.pending matches Some(kept) ==> kept.sample_time >= end,
                self.clock == old(self).clock,
                self.steps == old(self).steps,
                holds_back(held, end) ==> !draining && got.len() == 0 && self.pending == held,
                draining ==> self.pending is None,
                !holds_back(held, end) && self.pending is Some ==> got.len() > 0 && self.pending
                    == Some(got.last()),
                self.events@ == gathered(held, got, self.pending, end),
            decreases budget,
        {
            budget = budget - 1;
            let popped = pop_event(&mut self.consumer);
            proof {
                lemma_present_push(polls, popped);
                assert((polled_before + polls).push(popped) =~= polled_before + polls.push(popped));
                assert(polls.push(popped).drop_last() =~= polls);
                polls = polls.push(popped);
            }
            match popped {
                Some(event) => {
                    proof {
                        assert(got.push(event).drop_last() =~= got);
                        assert((first + got).push(event) =~= first + got.push(event));
                        got = got.push(event);
                    }
                    if event.sample_time < end {
                        self.events.push(event);
                    } else {
                        self.pending = Some(event);
                        draining = false;
                    }
                },
                None => {
                    draining = false;
                },
            }
        }
        let ghost unsorted = self.events@;
        stable_sort::<ScheduledEvent, DispatchOrder>(&mut self.events);
        proof {
            lemma_present_add(polled_before, polls);
            assert(added(polled_before, polled_before + polls) =~= polls);
            assert(added(present(polled_before), present(polled_before) + got) =~= got);
            lemma_sort_keeps_all::<ScheduledEvent, DispatchOrder>(
                self.events@,
                unsorted,
                |e: ScheduledEvent| e.sample_time < end,
            );
        }
    }

    /// One block: gathers its events, lays out its steps and moves the
    /// clock to its end. The events of the block are the event held back
    /// by an earlier block, if it is due, and what this block takes out of
    /// the queue, but for an event that is not yet due, which is held back
    /// in turn; they are handed on in dispatch order.
    pub fn render(&mut self, sample_time_start: SampleTime, frames: usize, playback_enabled: bool)
        ensures
            ({
                let before = old(self)@;
                let after = final(self)@;
                let block = Block { start: sample_time_start, frames, playback_enabled };
                let polls = added(old(self).polled(), final(self).polled());
                let got = added(old(self).taken(), final(self).taken());
                &&& after.steps == block.plan(after.events)
                &&& after.clock == block.end()
                &&& sample_time_start >= before.clock ==> after.clock >= before.clock
                &&& final(self).polled() == old(self).polled() + polls
                &&& holds_back(before.pending, block.end()) ==> polls.len() == 0
                &&& !holds_back(before.pending, block.end()) ==> drained_until(polls, block.end())
                    || (polls.len() == usize::MAX && all_due(polls, block.end()))
                &&& got == present(polls)
                &&& final(self).taken() == old(self).taken() + got
                &&& holds_back(before.pending, block.end()) ==> got.len() == 0 && after.pending
                    == before.pending
                &&& !holds_back(before.pending, block.end()) && after.pending is Some ==> got.len()
                    > 0 && after.pending == Some(got.last())
                &&& is_stable_sort_of::<ScheduledEvent, DispatchOrder>(
                    after.events,
                    gathered(before.pending, got, after.pending, block.end()),
                )
                &&& forall|i: int|
                    0 <= i < after.events.len() ==> (#[trigger] after.events[i]).sample_time
                        < block.end()
                &&& after.pending matches Some(held) ==> held.sample_time >= block.end()
            }),
    {
        let end: u64 = sample_time_start.saturating_add(frames as u64);
        self.collect_events(end);
        plan_block(&self.events, sample_time_start, frames, playback_enabled, &mut self.steps);
        self.clock.set(end);
    }
}

} // verus!
