//! The timestamps of pictures.

use crate::protocol::{EventView, PacketView};
use std::time::Instant;
use vstd::prelude::*;

verus! {

/// `event` without its timestamp.
pub open spec fn unstamped(event: EventView) -> EventView {
    match event {
        EventView::Control(message) => EventView::Control(message),
        EventView::Video(packet) => EventView::Video(PacketView { timestamp_us: 0, ..packet }),
    }
}

/// The last timestamp after `events`, when it was `before` in front of them.
pub open spec fn last_stamp(before: u64, events: Seq<EventView>) -> u64
    decreases events.len(),
{
    if events.len() == 0 {
        before
    } else {
        match events.last() {
            EventView::Control(_) => last_stamp(before, events.drop_last()),
            EventView::Video(packet) => packet.timestamp_us,
        }
    }
}

/// Whether each timestamp of `events` follows the one in front of it by `clock`, and
/// the first one follows `before`.
pub open spec fn timed(clock: Instant, before: u64, events: Seq<EventView>) -> bool
    decreases events.len(),
{
    if events.len() == 0 {
        true
    } else {
        &&& timed(clock, before, events.drop_last())
        &&& events.last() matches EventView::Video(packet) ==> crate::clock::follows(
            clock,
            last_stamp(before, events.drop_last()),
            packet.timestamp_us,
        )
    }
}

/// Whether `after` is `before` and then the `planned` events, each picture with a
/// timestamp of its own: by `clock` they follow each other from `stamp` on, and they
/// end at `last`.
pub open spec fn emitted(
    clock: Instant,
    stamp: u64,
    last: u64,
    before: Seq<EventView>,
    after: Seq<EventView>,
    planned: Seq<EventView>,
) -> bool {
    let fresh = after.skip(before.len() as int);
    &&& after.len() == before.len() + planned.len()
    &&& forall|i: int| 0 <= i < before.len() ==> after[i] == #[trigger] before[i]
    &&& forall|i: int|
        before.len() <= i < after.len() ==> unstamped(#[trigger] after[i]) == planned[i
            - before.len()]
    &&& timed(clock, stamp, fresh)
    &&& last == last_stamp(stamp, fresh)
}

/// Timestamps of two runs of events that follow each other.
proof fn lemma_stamps_join(
    clock: Instant,
    before: u64,
    first: Seq<EventView>,
    second: Seq<EventView>,
)
    ensures
        last_stamp(before, first + second) == last_stamp(last_stamp(before, first), second),
        timed(clock, before, first + second) == (timed(clock, before, first) && timed(
            clock,
            last_stamp(before, first),
            second,
        )),
    decreases second.len(),
{
    if second.len() == 0 {
        assert(first + second =~= first);
    } else {
        assert((first + second).drop_last() =~= first + second.drop_last());
        lemma_stamps_join(clock, before, first, second.drop_last());
    }
}

/// Nothing was emitted.
pub proof fn lemma_emitted_none(clock: Instant, stamp: u64, events: Seq<EventView>)
    ensures
        emitted(clock, stamp, stamp, events, events, Seq::empty()),
{
    assert(events.skip(events.len() as int).len() == 0);
}

/// One event was emitted.
pub proof fn lemma_emitted_one(
    clock: Instant,
    stamp: u64,
    last: u64,
    before: Seq<EventView>,
    event: EventView,
)
    requires
        match event {
            EventView::Control(_) => last == stamp,
            EventView::Video(packet) => packet.timestamp_us == last && crate::clock::follows(
                clock,
                stamp,
                last,
            ),
        },
    ensures
        emitted(clock, stamp, last, before, before.push(event), seq![unstamped(event)]),
{
    let after = before.push(event);
    let fresh = after.skip(before.len() as int);
    assert(fresh =~= seq![event]);
    assert(fresh.drop_last() =~= Seq::<EventView>::empty());
    reveal_with_fuel(last_stamp, 2);
    reveal_with_fuel(timed, 2);
}

/// Two runs of events were emitted, one after the other.
pub proof fn lemma_emitted_join(
    clock: Instant,
    stamps: (u64, u64, u64),
    before: Seq<EventView>,
    between: Seq<EventView>,
    after: Seq<EventView>,
    first: Seq<EventView>,
    second: Seq<EventView>,
)
    requires
        emitted(clock, stamps.0, stamps.1, before, between, first),
        emitted(clock, stamps.1, stamps.2, between, after, second),
    ensures
        emitted(clock, stamps.0, stamps.2, before, after, first + second),
{
    let early = between.skip(before.len() as int);
    let late = after.skip(between.len() as int);
    assert(after.skip(before.len() as int) =~= early + late) by {
        assert forall|i: int| before.len() <= i < between.len() implies after[i]
            == between[i] by {}
    }
    lemma_stamps_join(clock, stamps.0, early, late);
    assert forall|i: int| before.len() <= i < after.len() implies unstamped(#[trigger] after[i])
        == (first + second)[i - before.len()] by {
        if i < between.len() {
            assert(after[i] == between[i]);
        }
    }
    assert forall|i: int| 0 <= i < before.len() implies after[i] == #[trigger] before[i] by {
        assert(after[i] == between[i]);
    }
}

/// The timestamps of pictures rise: of two pictures, the later one has the larger
/// timestamp, as long as larger numbers are left.
pub proof fn law_timestamps_rise(
    clock: Instant,
    before: u64,
    events: Seq<EventView>,
    first: int,
    second: int,
)
    requires
        timed(clock, before, events),
        0 <= first < second < events.len(),
        events[first] is Video,
        events[second] is Video,
    ensures
        before < events[first]->Video_0.timestamp_us || events[first]->Video_0.timestamp_us
            == u64::MAX,
        events[first]->Video_0.timestamp_us < events[second]->Video_0.timestamp_us
            || events[second]->Video_0.timestamp_us == u64::MAX,
    decreases events.len(),
{
    lemma_stamp_bounds(clock, before, events.drop_last(), first);
    if second < events.len() - 1 {
        law_timestamps_rise(clock, before, events.drop_last(), first, second);
    }
}

/// A timestamp is above the one in front of the events and at most the last one,
/// as long as larger numbers are left.
proof fn lemma_stamp_bounds(clock: Instant, before: u64, events: Seq<EventView>, at: int)
    requires
        timed(clock, before, events),
        0 <= at < events.len(),
        events[at] is Video,
    ensures
        before < events[at]->Video_0.timestamp_us || events[at]->Video_0.timestamp_us == u64::MAX,
        events[at]->Video_0.timestamp_us <= last_stamp(before, events),
        before <= last_stamp(before, events),
    decreases events.len(),
{
    let front = events.drop_last();
    lemma_last_stamp_grows(clock, before, front);
    if at < events.len() - 1 {
        lemma_stamp_bounds(clock, before, front, at);
    }
}

/// Timestamps never fall.
proof fn lemma_last_stamp_grows(clock: Instant, before: u64, events: Seq<EventView>)
    requires
        timed(clock, before, events),
    ensures
        before <= last_stamp(before, events),
    decreases events.len(),
{
    if events.len() > 0 {
        lemma_last_stamp_grows(clock, before, events.drop_last());
    }
}

/// What was emitted stands behind what was there before: as many events as were planned, a
/// control message as planned, and a picture as planned in everything but the timestamp.
pub proof fn law_emitted_events_are_those_planned(
    clock: Instant,
    stamp: u64,
    last: u64,
    before: Seq<EventView>,
    after: Seq<EventView>,
    planned: Seq<EventView>,
    at: int,
)
    requires
        emitted(clock, stamp, last, before, after, planned),
    ensures
        after.len() == before.len() + planned.len(),
        0 <= at < before.len() ==> after[at] == before[at],
        0 <= at < planned.len() ==> match planned[at] {
            EventView::Control(message) => after[before.len() + at] == EventView::Control(message),
            EventView::Video(packet) => {
                &&& after[before.len() + at] matches EventView::Video(sent)
                &&& sent.codec == packet.codec && sent.key_frame == packet.key_frame
                &&& sent.surface_id == packet.surface_id
                &&& sent.x == packet.x && sent.y == packet.y
                &&& sent.width == packet.width && sent.height == packet.height
                &&& sent.output_x == packet.output_x && sent.output_y == packet.output_y
                &&& sent.data == packet.data
            },
        },
{
    if 0 <= at < planned.len() {
        let event = after[before.len() + at];
        assert(unstamped(event) == planned[at]);
    }
}

/// The timestamps of what was emitted rise by the clock: a picture with no other in front
/// of it follows the last timestamp before, any other one follows the picture in front of
/// it, and the last one is remembered. Without a picture, the last timestamp stays.
pub proof fn law_emitted_pictures_are_timed(
    clock: Instant,
    stamp: u64,
    last: u64,
    before: Seq<EventView>,
    after: Seq<EventView>,
    planned: Seq<EventView>,
    at: int,
    next: int,
)
    requires
        emitted(clock, stamp, last, before, after, planned),
        before.len() <= at <= next <= after.len(),
        forall|i: int| at < i < next ==> (#[trigger] after[i]) is Control,
    ensures
        at == before.len() && at < after.len() && after[at] is Control && next < after.len()
            && after[next] is Video ==> crate::clock::follows(
            clock,
            stamp,
            after[next]->Video_0.timestamp_us,
        ),
        at == before.len() && at < after.len() && after[at] is Video ==> crate::clock::follows(
            clock,
            stamp,
            after[at]->Video_0.timestamp_us,
        ),
        at < next < after.len() && after[at] is Video && after[next] is Video
            ==> crate::clock::follows(
            clock,
            after[at]->Video_0.timestamp_us,
            after[next]->Video_0.timestamp_us,
        ),
        at < after.len() && next == after.len() && after[at] is Video ==> last
            == after[at]->Video_0.timestamp_us,
        at == before.len() && next == after.len() && (at < after.len() ==> after[at] is Control)
            ==> last == stamp,
{
    let fresh = after.skip(before.len() as int);
    let from = at - before.len();
    let to = next - before.len();
    assert forall|i: int| 0 <= i < fresh.len() implies #[trigger] fresh[i] == after[i
        + before.len()] by {}
    if from < to {
        lemma_last_stamp_over_controls(stamp, fresh, from, to);
    }
    if from < fresh.len() {
        lemma_timed_at(clock, stamp, fresh, from);
    }
    if to < fresh.len() {
        lemma_timed_at(clock, stamp, fresh, to);
    }
    assert(fresh.take(0) =~= Seq::<EventView>::empty());
    assert(fresh.take(fresh.len() as int) =~= fresh);
}

/// The last timestamp is not changed by control messages.
proof fn lemma_last_stamp_over_controls(stamp: u64, events: Seq<EventView>, from: int, to: int)
    requires
        0 <= from < to <= events.len(),
        forall|i: int| from < i < to ==> (#[trigger] events[i]) is Control,
    ensures
        last_stamp(stamp, events.take(to)) == match events[from] {
            EventView::Video(packet) => packet.timestamp_us,
            EventView::Control(_) => last_stamp(stamp, events.take(from)),
        },
    decreases to,
{
    let front = events.take(to);
    assert(front.drop_last() =~= events.take(to - 1));
    assert(front.last() == events[to - 1]);
    if to - 1 > from {
        assert(events[to - 1] is Control);
        lemma_last_stamp_over_controls(stamp, events, from, to - 1);
    }
}

/// Each picture of timed events follows what was in front of it.
proof fn lemma_timed_at(clock: Instant, stamp: u64, events: Seq<EventView>, at: int)
    requires
        timed(clock, stamp, events),
        0 <= at < events.len(),
    ensures
        events[at] matches EventView::Video(packet) ==> crate::clock::follows(
            clock,
            last_stamp(stamp, events.take(at)),
            packet.timestamp_us,
        ),
    decreases events.len(),
{
    if at == events.len() - 1 {
        assert(events.take(at) =~= events.drop_last());
    } else {
        lemma_timed_at(clock, stamp, events.drop_last(), at);
        assert(events.drop_last().take(at) =~= events.take(at));
    }
}

} // verus!
