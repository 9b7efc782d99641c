//! Laws of a block's plan: every frame is rendered once, and every event
//! that plays is handed on once, with its own sample time, in the order of
//! the events.

use crate::engine::audio_graph::{
    dispatched, is_muted, rendered_frames, Block, BlockStep, DispatchOrder,
};
use crate::ports::playback::ScheduledEvent;
use crate::ports::types::SampleTime;
use crate::sorting::{is_stable_sort_of, lemma_sort_keeps_all};
use vstd::prelude::*;

verus! {

/// The frames rendered by steps put one behind the other add up.
pub proof fn lemma_rendered_frames_add(a: Seq<BlockStep>, b: Seq<BlockStep>)
    ensures
        rendered_frames(a + b) == rendered_frames(a) + rendered_frames(b),
    decreases a.len(),
{
    if a.len() == 0 {
        assert(a + b =~= b);
    } else {
        assert((a + b).drop_first() =~= a.drop_first() + b);
        assert((a + b).first() == a.first());
        lemma_rendered_frames_add(a.drop_first(), b);
    }
}

/// The events handed on by steps put one behind the other follow one
/// another.
pub proof fn lemma_dispatched_add(a: Seq<BlockStep>, b: Seq<BlockStep>)
    ensures
        dispatched(a + b) == dispatched(a) + dispatched(b),
    decreases a.len(),
{
    if a.len() == 0 {
        assert(a + b =~= b);
        assert(dispatched(a) + dispatched(b) =~= dispatched(b));
    } else {
        assert((a + b).drop_first() =~= a.drop_first() + b);
        assert((a + b).first() == a.first());
        lemma_dispatched_add(a.drop_first(), b);
        match a.first() {
            BlockStep::Dispatch { bus, event, at } => {
                let head = seq![(ScheduledEvent { sample_time: at, bus, event })];
                assert(head + (dispatched(a.drop_first()) + dispatched(b)) =~= (head + dispatched(
                    a.drop_first(),
                )) + dispatched(b));
            },
            BlockStep::Render { .. } => {},
        }
    }
}

/// A single step renders its frames, or hands on its event.
proof fn lemma_single_step(step: BlockStep)
    ensures
        rendered_frames(seq![step]) == (match step {
            BlockStep::Render { frames } => frames as int,
            BlockStep::Dispatch { .. } => 0,
        }),
        dispatched(seq![step]) == (match step {
            BlockStep::Render { .. } => Seq::<ScheduledEvent>::empty(),
            BlockStep::Dispatch { bus, event, at } => seq![
                (ScheduledEvent { sample_time: at, bus, event }),
            ],
        }),
{
    let s = seq![step];
    assert(s.drop_first() =~= Seq::<BlockStep>::empty());
    assert(s.first() == step);
    assert(rendered_frames(s.drop_first()) == 0);
    assert(dispatched(s.drop_first()) =~= Seq::<ScheduledEvent>::empty());
    match step {
        BlockStep::Dispatch { bus, event, at } => {
            assert(seq![(ScheduledEvent { sample_time: at, bus, event })] + Seq::<
                ScheduledEvent,
            >::empty() =~= seq![(ScheduledEvent { sample_time: at, bus, event })]);
        },
        BlockStep::Render { .. } => {},
    }
}

/// The test for "this event is handed on in the block".
pub open spec fn plays_in(block: Block) -> spec_fn(ScheduledEvent) -> bool {
    |e: ScheduledEvent| block.plays(e)
}

/// From a cursor within the block, the steps for the events that are left
/// render what is left of the block.
pub proof fn lemma_walk_renders_the_rest(
    block: Block,
    events: Seq<ScheduledEvent>,
    i: int,
    cursor: SampleTime,
)
    requires
        0 <= i <= events.len(),
        block.start <= cursor <= block.end(),
    ensures
        rendered_frames(block.walk(events, i, cursor)) == block.frames - (cursor - block.start),
    decreases events.len() - i,
{
    if i >= events.len() {
        let tail = block.tail(cursor);
        if tail.len() > 0 {
            lemma_single_step(tail[0]);
            assert(tail =~= seq![tail[0]]);
        }
    } else if !block.plays(events[i]) {
        lemma_walk_renders_the_rest(block, events, i + 1, cursor);
    } else {
        let e = events[i];
        let reached = if e.sample_time > cursor {
            e.sample_time
        } else {
            cursor
        };
        let lead = Block::stretch(cursor, reached);
        let hand_on = seq![
            (BlockStep::Dispatch { bus: e.bus, event: e.event, at: e.sample_time }),
        ];
        let rest = block.walk(events, i + 1, reached);
        lemma_walk_renders_the_rest(block, events, i + 1, reached);
        lemma_rendered_frames_add(lead + hand_on, rest);
        lemma_rendered_frames_add(lead, hand_on);
        lemma_single_step(hand_on[0]);
        assert(hand_on =~= seq![hand_on[0]]);
        if lead.len() > 0 {
            lemma_single_step(lead[0]);
            assert(lead =~= seq![lead[0]]);
        }
    }
}

/// The plan of a block renders exactly the frames of the block.
pub proof fn lemma_plan_renders_every_frame(block: Block, events: Seq<ScheduledEvent>)
    ensures
        rendered_frames(block.plan(events)) == block.frames,
{
    lemma_walk_renders_the_rest(block, events, 0, block.start);
}

/// From any cursor, the steps hand on the events left that play, in their
/// order, each with its own sample time.
pub proof fn lemma_walk_dispatches_the_rest(
    block: Block,
    events: Seq<ScheduledEvent>,
    i: int,
    cursor: SampleTime,
)
    requires
        0 <= i <= events.len(),
    ensures
        dispatched(block.walk(events, i, cursor)) == events.subrange(
            i,
            events.len() as int,
        ).filter(plays_in(block)),
    decreases events.len() - i,
{
    let left = events.subrange(i, events.len() as int);
    reveal_with_fuel(Seq::filter, 2);
    if i >= events.len() {
        let tail = block.tail(cursor);
        if tail.len() > 0 {
            lemma_single_step(tail[0]);
            assert(tail =~= seq![tail[0]]);
        }
        assert(left =~= Seq::<ScheduledEvent>::empty());
    } else {
        let e = events[i];
        let after = events.subrange(i + 1, events.len() as int);
        assert(left =~= seq![e] + after);
        Seq::filter_distributes_over_add(seq![e], after, plays_in(block));
        assert(seq![e].drop_last() =~= Seq::<ScheduledEvent>::empty());
        if !block.plays(e) {
            lemma_walk_dispatches_the_rest(block, events, i + 1, cursor);
            assert(seq![e].filter(plays_in(block)) =~= Seq::<ScheduledEvent>::empty());
            assert(Seq::<ScheduledEvent>::empty() + after.filter(plays_in(block))
                =~= after.filter(plays_in(block)));
        } else {
            let reached = if e.sample_time > cursor {
                e.sample_time
            } else {
                cursor
            };
            lemma_walk_dispatches_the_rest(block, events, i + 1, reached);
            let lead = Block::stretch(cursor, reached);
            let hand_on = seq![
                (BlockStep::Dispatch { bus: e.bus, event: e.event, at: e.sample_time }),
            ];
            let rest = block.walk(events, i + 1, reached);
            lemma_dispatched_add(lead + hand_on, rest);
            lemma_dispatched_add(lead, hand_on);
            lemma_single_step(hand_on[0]);
            assert(hand_on =~= seq![hand_on[0]]);
            if lead.len() > 0 {
                lemma_single_step(lead[0]);
                assert(lead =~= seq![lead[0]]);
            }
            assert(seq![e].filter(plays_in(block)) =~= seq![e]);
            assert(Seq::<ScheduledEvent>::empty() + seq![e] =~= seq![e]);
        }
    }
}

/// The plan of a block hands on every event that plays, once, in the order
/// of the events, each with its bus and its own sample time; an event that
/// does not play is not handed on.
pub proof fn lemma_plan_dispatches_in_order(block: Block, events: Seq<ScheduledEvent>)
    ensures
        dispatched(block.plan(events)) == events.filter(plays_in(block)),
{
    lemma_walk_dispatches_the_rest(block, events, 0, block.start);
    assert(events.subrange(0, events.len() as int) =~= events);
}

/// Where every event plays, the plan hands on exactly the events given: as
/// many, in the same order, with their own sample times.
pub proof fn lemma_plan_dispatches_all(block: Block, events: Seq<ScheduledEvent>)
    requires
        forall|i: int| 0 <= i < events.len() ==> block.plays(#[trigger] events[i]),
    ensures
        dispatched(block.plan(events)) == events,
{
    lemma_plan_dispatches_in_order(block, events);
    lemma_all_kept(events, plays_in(block));
}

/// A block hands on the events gathered for it and no others, where none
/// of them is muted: each once, with its bus and its own sample time,
/// ordered by sample time, then rank, then pitch, and events that agree in
/// all three in the order in which they were gathered. Here `queued` are
/// the events gathered and `events` the same in dispatch order, all of them
/// due before the end of the block, as `AudioGraph::render` leaves them.
pub proof fn lemma_block_hands_on_what_it_gathered(
    block: Block,
    queued: Seq<ScheduledEvent>,
    events: Seq<ScheduledEvent>,
)
    requires
        is_stable_sort_of::<ScheduledEvent, DispatchOrder>(events, queued),
        forall|i: int| 0 <= i < events.len() ==> (#[trigger] events[i]).sample_time < block.end(),
        forall|i: int|
            0 <= i < queued.len() ==> !is_muted(block.playback_enabled, #[trigger] queued[i]),
    ensures
        dispatched(block.plan(events)) == events,
        dispatched(block.plan(events)).len() == queued.len(),
        is_stable_sort_of::<ScheduledEvent, DispatchOrder>(dispatched(block.plan(events)), queued),
{
    lemma_sort_keeps_all::<ScheduledEvent, DispatchOrder>(
        events,
        queued,
        |e: ScheduledEvent| !is_muted(block.playback_enabled, e),
    );
    lemma_plan_dispatches_all(block, events);
}

/// A filter that every item passes keeps the sequence.
pub proof fn lemma_all_kept<T>(s: Seq<T>, pred: spec_fn(T) -> bool)
    requires
        forall|i: int| 0 <= i < s.len() ==> pred(#[trigger] s[i]),
    ensures
        s.filter(pred) == s,
    decreases s.len(),
{
    reveal(Seq::filter);
    if s.len() > 0 {
        lemma_all_kept(s.drop_last(), pred);
        assert(s.drop_last().push(s.last()) =~= s);
    }
}

} // verus!
