//! Laws of the scheduler: what successive passes emit, taken together; in
//! which order; and how a loop bounds it.

use crate::engine::scheduler::{
    bind, first_at_or_after, is_routed, past_loop_end, route_bus, scan_stop, scheduled,
    PlaybackEventByTick, SchedulerView,
};
use crate::engine::timing_laws::lemma_tick_to_sample_monotone;
use crate::engine::transport::TransportView;
use crate::ports::playback::LoopRange;
use crate::ports::types::Tick;
use crate::score::model::PlaybackMidiEvent;
use crate::sorting::{lex_le, sorted_by, KeyOrder};
use vstd::prelude::*;

verus! {

/// Two transports that place every tick on the same sample.
pub open spec fn same_mapping(a: TransportView, b: TransportView) -> bool {
    &&& a.origin_sample == b.origin_sample
    &&& a.sample_rate_hz == b.sample_rate_hz
    &&& a.multiplier_ppm == b.multiplier_ppm
    &&& a.tempo_map == b.tempo_map
}

/// A pass stops within the score, at or behind the cursor; every event it
/// passes starts within the limit and before the end of the loop; and it
/// stops at the end of the score or on an event of which that is not true.
pub proof fn lemma_scan_stop(
    events: Seq<PlaybackMidiEvent>,
    from: int,
    limit: Tick,
    loop_range: Option<LoopRange>,
)
    requires
        0 <= from <= events.len(),
    ensures
        from <= scan_stop(events, from, limit, loop_range) <= events.len(),
        forall|i: int|
            from <= i < scan_stop(events, from, limit, loop_range) ==> (#[trigger] events[i]).tick
                <= limit && !past_loop_end(loop_range, events[i].tick),
        scan_stop(events, from, limit, loop_range) < events.len() ==> events[scan_stop(
            events,
            from,
            limit,
            loop_range,
        )].tick > limit || past_loop_end(
            loop_range,
            events[scan_stop(events, from, limit, loop_range)].tick,
        ),
    decreases events.len() - from,
{
    if from < events.len() && events[from].tick <= limit && !past_loop_end(
        loop_range,
        events[from].tick,
    ) {
        lemma_scan_stop(events, from + 1, limit, loop_range);
    }
}

/// With a loop `[a, b)` set, a pass emits nothing for an event at or
/// behind `b`: each scheduled event it emits stems from an accepted event of
/// the score that starts before `b` and within the window. A pass that
/// meets such an event within the window leaves the transport at `a` and
/// the cursor on the first event at or behind `a`.
pub proof fn lemma_pass_stays_inside_loop(s: SchedulerView, tr: TransportView)
    requires
        s.wf(),
    ensures
        ({
            let passed = s.events.subrange(s.cursor, s.pass_stop(tr));
            let accepted = passed.filter(is_routed(s.settings));
            &&& s.cursor <= s.pass_stop(tr) <= s.events.len()
            &&& s.pass_output(tr).len() == accepted.len()
            &&& forall|k: int|
                0 <= k < accepted.len() ==> {
                    &&& passed.contains(#[trigger] accepted[k])
                    &&& route_bus(s.settings, accepted[k].hand) is Some
                    &&& accepted[k].tick <= s.window_end_tick(tr)
                    &&& !past_loop_end(s.loop_range, accepted[k].tick)
                    &&& s.pass_output(tr)[k] == bind(s.settings, tr)(accepted[k])
                }
            &&& s.pass_wraps(tr) ==> {
                &&& s.transport_after_pass(tr).position_tick == s.loop_range.unwrap().start_tick
                &&& s.after_pass(tr).cursor == first_at_or_after(
                    s.events,
                    0,
                    s.loop_range.unwrap().start_tick,
                )
            }
        }),
{
    lemma_scan_stop(s.events, s.cursor, s.window_end_tick(tr), s.loop_range);
    let passed = s.events.subrange(s.cursor, s.pass_stop(tr));
    let accepted = passed.filter(is_routed(s.settings));
    assert forall|k: int| 0 <= k < accepted.len() implies {
        &&& passed.contains(#[trigger] accepted[k])
        &&& route_bus(s.settings, accepted[k].hand) is Some
        &&& accepted[k].tick <= s.window_end_tick(tr)
        &&& !past_loop_end(s.loop_range, accepted[k].tick)
        &&& s.pass_output(tr)[k] == bind(s.settings, tr)(accepted[k])
    } by {
        passed.lemma_filter_pred(is_routed(s.settings), k);
        assert(accepted.contains(accepted[k]));
        passed.lemma_filter_contains_rev(is_routed(s.settings), accepted[k]);
        let i = choose|i: int| 0 <= i < passed.len() && passed[i] == accepted[k];
        assert(passed[i] == s.events[s.cursor + i]);
    }
}

/// What is emitted for two adjoining stretches of the score, one behind
/// the other, is what is emitted for the two taken as one.
pub proof fn lemma_scheduled_concatenates(
    events: Seq<PlaybackMidiEvent>,
    a: int,
    b: int,
    c: int,
    s: SchedulerView,
    tr: TransportView,
)
    requires
        0 <= a <= b <= c <= events.len(),
    ensures
        scheduled(events.subrange(a, b), s.settings, tr) + scheduled(
            events.subrange(b, c),
            s.settings,
            tr,
        ) == scheduled(events.subrange(a, c), s.settings, tr),
{
    let first = events.subrange(a, b);
    let second = events.subrange(b, c);
    assert(events.subrange(a, c) =~= first + second);
    Seq::filter_distributes_over_add(first, second, is_routed(s.settings));
    let f1 = first.filter(is_routed(s.settings));
    let f2 = second.filter(is_routed(s.settings));
    assert((f1 + f2).map_values(bind(s.settings, tr)) =~= f1.map_values(bind(s.settings, tr))
        + f2.map_values(bind(s.settings, tr)));
}

/// Two passes that follow one another without a jump back, under
/// transports that place every tick on the same sample, emit between them
/// exactly what is scheduled for the events from the first cursor to the
/// last: every accepted event once, in score order, at the sample of its
/// tick.
pub proof fn lemma_successive_passes(s: SchedulerView, tr1: TransportView, tr2: TransportView)
    requires
        s.wf(),
        !s.pass_wraps(tr1),
        same_mapping(tr1, tr2),
    ensures
        ({
            let next = s.after_pass(tr1);
            &&& next.wf()
            &&& s.cursor <= next.cursor <= next.pass_stop(tr2) <= s.events.len()
            &&& s.pass_output(tr1) + next.pass_output(tr2) == scheduled(
                s.events.subrange(s.cursor, next.pass_stop(tr2)),
                s.settings,
                tr1,
            )
        }),
{
    let next = s.after_pass(tr1);
    lemma_scan_stop(s.events, s.cursor, s.window_end_tick(tr1), s.loop_range);
    lemma_scan_stop(next.events, next.cursor, next.window_end_tick(tr2), next.loop_range);
    let a = s.cursor;
    let b = next.cursor;
    let c = next.pass_stop(tr2);
    lemma_scheduled_concatenates(s.events, a, b, c, s, tr1);
    assert(bind(s.settings, tr1) == bind(s.settings, tr2)) by {
        assert forall|e: PlaybackMidiEvent| #[trigger]
            bind(s.settings, tr1)(e) == bind(s.settings, tr2)(e) by {
            assert(tr1.tick_to_sample(e.tick) == tr2.tick_to_sample(e.tick));
        }
        assert(bind(s.settings, tr1) =~= bind(s.settings, tr2));
    }
}

/// What is emitted for a score ordered by tick is ordered by sample time.
pub proof fn lemma_scheduled_is_ordered(
    events: Seq<PlaybackMidiEvent>,
    s: SchedulerView,
    tr: TransportView,
)
    requires
        tr.wf(),
        sorted_by::<PlaybackMidiEvent, PlaybackEventByTick>(events),
    ensures
        forall|i: int, j: int|
            0 <= i <= j < scheduled(events, s.settings, tr).len() ==> (#[trigger] scheduled(
                events,
                s.settings,
                tr,
            )[i]).sample_time <= (#[trigger] scheduled(events, s.settings, tr)[j]).sample_time,
    decreases events.len(),
{
    reveal(Seq::filter);
    let out = scheduled(events, s.settings, tr);
    if events.len() > 0 {
        let rest = events.drop_last();
        let last = events.last();
        assert forall|i: int, j: int| 0 <= i < j < rest.len() implies lex_le(
            PlaybackEventByTick::key(rest[i]),
            PlaybackEventByTick::key(rest[j]),
        ) by {
            assert(lex_le(
                PlaybackEventByTick::key(events[i]),
                PlaybackEventByTick::key(events[j]),
            ));
        }
        lemma_scheduled_is_ordered(rest, s, tr);
        let kept = rest.filter(is_routed(s.settings));
        let before = scheduled(rest, s.settings, tr);
        if route_bus(s.settings, last.hand) is Some {
            assert(events.filter(is_routed(s.settings)) == kept.push(last));
            assert(out =~= before.push(bind(s.settings, tr)(last)));
            assert forall|i: int, j: int| 0 <= i <= j < out.len() implies (
            #[trigger] out[i]).sample_time <= (#[trigger] out[j]).sample_time by {
                if j == out.len() - 1 && i < j {
                    assert(kept.contains(kept[i]));
                    rest.lemma_filter_contains_rev(is_routed(s.settings), kept[i]);
                    let k = choose|k: int| 0 <= k < rest.len() && rest[k] == kept[i];
                    assert(lex_le(
                        PlaybackEventByTick::key(events[k]),
                        PlaybackEventByTick::key(events[events.len() - 1]),
                    ));
                    lemma_tick_to_sample_monotone(tr, kept[i].tick, last.tick);
                    assert(out[i] == bind(s.settings, tr)(kept[i]));
                } else if i < j {
                    assert(out[i] == before[i]);
                    assert(out[j] == before[j]);
                }
            }
        } else {
            assert(events.filter(is_routed(s.settings)) == kept);
        }
    }
}

} // verus!
