//! The two lock-free queues of the core: scheduled events from the control
//! thread to the audio callback, and the player's events from the thread of
//! the MIDI device to the control thread. Each end of a queue is owned by
//! one thread; what is said here of an end is what that thread can know.

use crate::ports::midi::PlayerEvent;
use crate::ports::playback::ScheduledEvent;
use vstd::prelude::*;

verus! {

#[verifier::external_type_specification]
#[verifier::external_body]
#[verifier::reject_recursive_types(T)]
pub struct ExConsumer<T>(rtrb::Consumer<T>);

#[verifier::external_type_specification]
#[verifier::external_body]
#[verifier::reject_recursive_types(T)]
pub struct ExProducer<T>(rtrb::Producer<T>);

/// The slots of the queue that this end feeds, as `RingBuffer::capacity`
/// gives them.
pub uninterp spec fn event_slots(producer: rtrb::Producer<ScheduledEvent>) -> usize;

/// The events that have gone into the queue through this end since the
/// queue was made, oldest first.
pub uninterp spec fn events_sent(producer: rtrb::Producer<ScheduledEvent>) -> Seq<ScheduledEvent>;

/// What each poll of this end has given since the queue was made, oldest
/// first: the event that came out, or nothing where the queue was empty.
pub uninterp spec fn events_polled(consumer: rtrb::Consumer<ScheduledEvent>) -> Seq<
    Option<ScheduledEvent>,
>;

/// The events that polls have given, in their order.
pub open spec fn present<T>(polls: Seq<Option<T>>) -> Seq<T>
    decreases polls.len(),
{
    if polls.len() == 0 {
        Seq::empty()
    } else {
        match polls.last() {
            Some(event) => present(polls.drop_last()).push(event),
            None => present(polls.drop_last()),
        }
    }
}

/// The events that have come out of the queue through this end since the
/// queue was made, oldest first.
pub open spec fn events_taken(consumer: rtrb::Consumer<ScheduledEvent>) -> Seq<ScheduledEvent> {
    present(events_polled(consumer))
}

/// What polls give one after the other is what the first give, followed
/// by what the later give.
pub proof fn lemma_present_add<T>(a: Seq<Option<T>>, b: Seq<Option<T>>)
    ensures
        present(a + b) == present(a) + present(b),
    decreases b.len(),
{
    if b.len() == 0 {
        assert(a + b =~= a);
        assert(present(a) + present(b) =~= present(a));
    } else {
        assert((a + b).drop_last() =~= a + b.drop_last());
        assert((a + b).last() == b.last());
        lemma_present_add(a, b.drop_last());
        match b.last() {
            Some(event) => {
                assert((present(a) + present(b.drop_last())).push(event) =~= present(a) + present(
                    b.drop_last(),
                ).push(event));
            },
            None => {},
        }
    }
}

/// A poll adds its event to what polls have given, if it gave one.
pub proof fn lemma_present_push<T>(polls: Seq<Option<T>>, poll: Option<T>)
    ensures
        present(polls.push(poll)) == match poll {
            Some(event) => present(polls).push(event),
            None => present(polls),
        },
{
    assert(polls.push(poll).drop_last() =~= polls);
    assert(polls.push(poll).last() == poll);
}

/// The slots of the queue that this end feeds, as `RingBuffer::capacity`
/// gives them.
pub uninterp spec fn player_slots(producer: rtrb::Producer<PlayerEvent>) -> usize;

/// What each poll of this end has given since the queue was made, oldest
/// first: the event of the player that came out, or nothing where the
/// queue was empty.
pub uninterp spec fn player_events_polled(consumer: rtrb::Consumer<PlayerEvent>) -> Seq<
    Option<PlayerEvent>,
>;

/// The events of the player that have come out of the queue through this
/// end since the queue was made, oldest first.
pub open spec fn player_events_taken(consumer: rtrb::Consumer<PlayerEvent>) -> Seq<PlayerEvent> {
    present(player_events_polled(consumer))
}

/// Polls the queue once by `rtrb::Consumer::pop`: takes the oldest event
/// out of it, if there is one. What the poll gave, an event or nothing, is
/// the last of what the polls of this end have given; which of the two,
/// and which event, is decided by the thread that fills the queue.
#[verifier::external_body]
pub(crate) fn pop_event(consumer: &mut rtrb::Consumer<ScheduledEvent>) -> (popped: Option<
    ScheduledEvent,
>)
    ensures
        events_polled(*final(consumer)) == events_polled(*old(consumer)).push(popped),
{
    consumer.pop().ok()
}

/// Puts an event into the queue by `rtrb::Producer::push` and says whether
/// there was room for it. An event that found room has gone into the queue
/// behind all that went before it; one that found none has changed
/// nothing. `push` refuses only a queue that holds as many events as it has
/// slots, and the queue holds no event that did not come through this end:
/// so there is room as long as fewer events than slots have gone in.
/// Beyond that the thread that empties the queue decides.
#[verifier::external_body]
pub(crate) fn push_event(producer: &mut rtrb::Producer<ScheduledEvent>, event: ScheduledEvent) -> (pushed:
    bool)
    ensures
        event_slots(*final(producer)) == event_slots(*old(producer)),
        events_sent(*final(producer)) == if pushed {
            events_sent(*old(producer)).push(event)
        } else {
            events_sent(*old(producer))
        },
        events_sent(*old(producer)).len() < event_slots(*old(producer)) ==> pushed,
{
    producer.push(event).is_ok()
}

/// Polls the queue once by `rtrb::Consumer::pop`: takes the oldest event
/// of the player out of it, if there is one. What the poll gave, an event
/// or nothing, is the last of what the polls of this end have given; which
/// of the two, and which event, is decided by the thread of the device.
#[verifier::external_body]
pub(crate) fn pop_player_event(consumer: &mut rtrb::Consumer<PlayerEvent>) -> (popped: Option<
    PlayerEvent,
>)
    ensures
        player_events_polled(*final(consumer)) == player_events_polled(*old(consumer)).push(
            popped,
        ),
{
    consumer.pop().ok()
}

/// The most slots a queue is made with: its storage must fit in memory.
pub const MAX_QUEUE_CAPACITY: usize = 0x10_0000;

/// Makes a queue of scheduled events with `capacity` slots, by
/// `rtrb::RingBuffer::new`, and hands out its two ends. Nothing has gone
/// in yet, and the queue has not been polled.
#[verifier::external_body]
pub(crate) fn new_event_queue(capacity: usize) -> (ends: (
    rtrb::Producer<ScheduledEvent>,
    rtrb::Consumer<ScheduledEvent>,
))
    requires
        capacity <= MAX_QUEUE_CAPACITY,
    ensures
        event_slots(ends.0) == capacity,
        events_sent(ends.0) == Seq::<ScheduledEvent>::empty(),
        events_polled(ends.1) == Seq::<Option<ScheduledEvent>>::empty(),
{
    rtrb::RingBuffer::new(capacity)
}

/// Makes a queue of the player's events with `capacity` slots, by
/// `rtrb::RingBuffer::new`, and hands out its two ends. The queue has not
/// been polled yet.
#[verifier::external_body]
pub(crate) fn new_player_queue(capacity: usize) -> (ends: (
    rtrb::Producer<PlayerEvent>,
    rtrb::Consumer<PlayerEvent>,
))
    requires
        capacity <= MAX_QUEUE_CAPACITY,
    ensures
        player_slots(ends.0) == capacity,
        player_events_polled(ends.1) == Seq::<Option<PlayerEvent>>::empty(),
{
    rtrb::RingBuffer::new(capacity)
}

/// `sub` is made of items of `all` in the order in which they stand
/// there, each taken once at most.
pub open spec fn is_selection_of<T>(sub: Seq<T>, all: Seq<T>) -> bool
    decreases all.len(),
{
    if all.len() == 0 {
        sub.len() == 0
    } else {
        ||| is_selection_of(sub, all.drop_last())
        ||| (sub.len() > 0 && sub.last() == all.last() && is_selection_of(
            sub.drop_last(),
            all.drop_last(),
        ))
    }
}

/// What `after` holds behind its first items, as many as `before` has.
pub open spec fn added<T>(before: Seq<T>, after: Seq<T>) -> Seq<T> {
    after.subrange(before.len() as int, after.len() as int)
}

/// Offers `events` to the queue in order and counts those that found room;
/// the others are dropped. What found room has gone into the queue in the
/// order given, behind what was sent before. All of them find room where
/// the events that have ever gone in, these among them, are no more than
/// the queue has slots.
pub fn send_all(producer: &mut rtrb::Producer<ScheduledEvent>, events: &Vec<ScheduledEvent>) -> (accepted:
    usize)
    ensures
        event_slots(*final(producer)) == event_slots(*old(producer)),
        events_sent(*final(producer)) == events_sent(*old(producer)) + added(
            events_sent(*old(producer)),
            events_sent(*final(producer)),
        ),
        is_selection_of(
            added(events_sent(*old(producer)), events_sent(*final(producer))),
            events@,
        ),
        accepted == added(events_sent(*old(producer)), events_sent(*final(producer))).len(),
        events_sent(*old(producer)).len() + events@.len() <= event_slots(*old(producer)) ==> added(
            events_sent(*old(producer)),
            events_sent(*final(producer)),
        ) == events@,
{
    let ghost before = events_sent(*producer);
    let ghost slots = event_slots(*producer);
    let ghost mut kept: Seq<ScheduledEvent> = Seq::empty();
    let mut accepted: usize = 0;
    let mut i: usize = 0;
    proof {
        assert(events@.subrange(0, 0) =~= Seq::<ScheduledEvent>::empty());
        assert(before + kept =~= before);
    }
    while i < events.len()
        invariant
            accepted <= i <= events@.len(),
            before == events_sent(*old(producer)),
            slots == event_slots(*old(producer)),
            event_slots(*producer) == slots,
            events_sent(*producer) == before + kept,
            kept.len() == accepted,
            is_selection_of(kept, events@.subrange(0, i as int)),
            before.len() + events@.len() <= slots ==> kept == events@.subrange(0, i as int),
        decreases events@.len() - i,
    {
        let ghost seen = events@.subrange(0, i as int);
        let ghost next = events@.subrange(0, i + 1);
        proof {
            assert(next.drop_last() =~= seen);
            assert(next.last() == events@[i as int]);
        }
        if push_event(producer, events[i]) {
            proof {
                assert(kept.push(events@[i as int]).drop_last() =~= kept);
                assert((before + kept).push(events@[i as int]) =~= before + kept.push(
                    events@[i as int],
                ));
                if before.len() + events@.len() <= slots {
                    assert(kept.push(events@[i as int]) =~= next);
                }
                kept = kept.push(events@[i as int]);
            }
            accepted = accepted + 1;
        }
        i = i + 1;
    }
    proof {
        assert(events@.subrange(0, events@.len() as int) =~= events@);
        assert(added(before, before + kept) =~= kept);
    }
    accepted
}

/// Every poll but the last gave an event, and the last gave nothing: the
/// queue was emptied.
pub open spec fn ends_empty<T>(polls: Seq<Option<T>>) -> bool {
    &&& polls.len() > 0
    &&& polls.last() is None
    &&& forall|i: int| 0 <= i < polls.len() - 1 ==> (#[trigger] polls[i]) is Some
}

/// Every poll gave an event.
pub open spec fn all_given<T>(polls: Seq<Option<T>>) -> bool {
    forall|i: int| 0 <= i < polls.len() ==> (#[trigger] polls[i]) is Some
}

/// Takes out of the queue what the device has delivered, oldest first, up
/// to `limit` events: the queue is polled until it gives nothing, or until
/// `limit` events have come out. What is handed back is what the polls
/// gave, in their order.
pub fn drain_player_events(consumer: &mut rtrb::Consumer<PlayerEvent>, limit: usize) -> (taken: Vec<
    PlayerEvent,
>)
    ensures
        taken@.len() <= limit,
        player_events_taken(*final(consumer)) == player_events_taken(*old(consumer)) + taken@,
        ({
            let polls = added(
                player_events_polled(*old(consumer)),
                player_events_polled(*final(consumer)),
            );
            &&& player_events_polled(*final(consumer)) == player_events_polled(*old(consumer))
                + polls
            &&& taken@ == present(polls)
            &&& if taken@.len() == limit {
                all_given(polls) && polls.len() == limit
            } else {
                ends_empty(polls)
            }
        }),
{
    let ghost before = player_events_polled(*consumer);
    let ghost mut polls: Seq<Option<PlayerEvent>> = Seq::empty();
    let mut taken: Vec<PlayerEvent> = Vec::new();
    let mut emptied = false;
    proof {
        assert(before + polls =~= before);
    }
    while taken.len() < limit && !emptied
        invariant
            taken@.len() <= limit,
            before == player_events_polled(*old(consumer)),
            player_events_polled(*consumer) == before + polls,
            taken@ == present(polls),
            if emptied {
                ends_empty(polls) && taken@.len() < limit
            } else {
                all_given(polls) && polls.len() == taken@.len()
            },
        decreases limit - taken@.len() + (if emptied { 0int } else { 1int }),
    {
        let popped = pop_player_event(consumer);
        proof {
            lemma_present_push(polls, popped);
            assert((before + polls).push(popped) =~= before + polls.push(popped));
            polls = polls.push(popped);
        }
        match popped {
            Some(event) => {
                taken.push(event);
            },
            None => {
                emptied = true;
            },
        }
    }
    proof {
        assert(added(before, before + polls) =~= polls);
        lemma_present_add(before, polls);
    }
    taken
}

/// A queue for the scheduled events of one audio stream, with the slots
/// that the control thread needs between two callbacks. It is new:
/// nothing has gone in, and it has not been polled.
pub fn audio_queue() -> (ends: (rtrb::Producer<ScheduledEvent>, rtrb::Consumer<ScheduledEvent>))
    ensures
        event_slots(ends.0) == AUDIO_QUEUE_CAPACITY,
        events_sent(ends.0) == Seq::<ScheduledEvent>::empty(),
        events_polled(ends.1) == Seq::<Option<ScheduledEvent>>::empty(),
{
    new_event_queue(AUDIO_QUEUE_CAPACITY)
}

/// A queue for the events of one MIDI input. It is new: it has not been
/// polled.
pub fn player_queue() -> (ends: (rtrb::Producer<PlayerEvent>, rtrb::Consumer<PlayerEvent>))
    ensures
        player_slots(ends.0) == MIDI_QUEUE_CAPACITY,
        player_events_polled(ends.1) == Seq::<Option<PlayerEvent>>::empty(),
{
    new_player_queue(MIDI_QUEUE_CAPACITY)
}

/// Slots of the queue from the control thread to the audio callback.
pub const AUDIO_QUEUE_CAPACITY: usize = 4096;

/// Slots of the queue from a MIDI input to the control thread.
pub const MIDI_QUEUE_CAPACITY: usize = 2048;

} // verus!
