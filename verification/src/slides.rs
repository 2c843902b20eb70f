//! Putting SUS slides together from their slider tokens: a slide opens on a
//! channel with a start token, gathers relay points in time order and closes
//! with an end token.

use std::collections::HashMap;

use vstd::prelude::*;

use crate::note::{Lane, SlidePoint, SlidePointKind};
use crate::position::Position;
use crate::sus::{slide_point_code, slide_point_kind, SusError};

verus! {

broadcast use vstd::std_specs::hash::group_hash_axioms;

/// A slider token of a SUS data line: its line, channel, position and lane,
/// and its first byte: `1` opens a slide, `2` closes it, any other byte is a
/// relay point.
#[derive(Clone, Copy, Debug, PartialEq, Eq, Structural)]
pub struct SliderEvent {
    pub line: usize,
    pub channel: char,
    pub position: Position,
    pub lane: Lane,
    pub kind: u8,
}

/// Event `a` comes before event `b`: at an earlier position, or at the same
/// position on an earlier line.
pub open spec fn event_precedes(a: SliderEvent, b: SliderEvent) -> bool {
    a.position.is_before(b.position) || (a.position == b.position && a.line < b.line)
}

/// `order` with event `i` put after every event that `i` does not come before.
pub open spec fn insert_event(events: Seq<SliderEvent>, order: Seq<int>, i: int) -> Seq<int>
    decreases order.len(),
{
    if order.len() == 0 || !event_precedes(events[i], events[order.last()]) {
        order.push(i)
    } else {
        insert_event(events, order.drop_last(), i).push(order.last())
    }
}

/// The first `k` events sorted by position and line, with events that tie
/// kept in their given order.
pub open spec fn event_order(events: Seq<SliderEvent>, k: nat) -> Seq<int>
    decreases k,
{
    if k == 0 {
        Seq::empty()
    } else {
        insert_event(events, event_order(events, (k - 1) as nat), k - 1)
    }
}

/// Each event is listed no earlier than the events before it in the list,
/// and events that tie are listed by their index.
pub open spec fn sorted_by_time(events: Seq<SliderEvent>, order: Seq<int>) -> bool {
    forall|a: int, b: int|
        #![trigger order[a], order[b]]
        0 <= a < b < order.len() ==> {
            &&& !event_precedes(events[order[b]], events[order[a]])
            &&& (!event_precedes(events[order[a]], events[order[b]]) ==> order[a] < order[b])
        }
}

/// The positions of the events are valid positions.
pub open spec fn valid_events(events: Seq<SliderEvent>) -> bool {
    forall|i: int| 0 <= i < events.len() ==> (#[trigger] events[i]).position.wf()
}

/// Coming before is a strict order of events by position and line.
proof fn lemma_precedes_order(a: SliderEvent, b: SliderEvent, c: SliderEvent)
    requires
        a.position.wf(),
        b.position.wf(),
        c.position.wf(),
    ensures
        !event_precedes(a, a),
        event_precedes(a, b) ==> !event_precedes(b, a),
        event_precedes(a, b) && event_precedes(b, c) ==> event_precedes(a, c),
        event_precedes(a, c) ==> event_precedes(a, b) || event_precedes(b, c),
        !event_precedes(a, b) && !event_precedes(b, a) ==> a.position == b.position && a.line == b.line,
{
    let (p, q, r) = (a.position, b.position, c.position);
    crate::position::lemma_order_is_total(p, q, r);
    crate::position::lemma_order_is_total(q, r, p);
    crate::position::lemma_order_is_total(r, p, q);
    crate::position::lemma_order_is_total(q, p, r);
    crate::position::lemma_order_is_total(p, r, q);
    crate::position::lemma_order_is_total(r, q, p);
    crate::position::lemma_order_is_total(p, q, p);
    crate::position::lemma_order_is_total(q, p, q);
}

/// Inserting event `i`, later in the list than every event of a sorted
/// order, keeps the order sorted and adds `i` to it.
proof fn lemma_insert_event(events: Seq<SliderEvent>, order: Seq<int>, i: int)
    requires
        valid_events(events),
        0 <= i < events.len(),
        sorted_by_time(events, order),
        order.no_duplicates(),
        forall|a: int| 0 <= a < order.len() ==> 0 <= #[trigger] order[a] < i,
    ensures
        ({
            let inserted = insert_event(events, order, i);
            &&& inserted.len() == order.len() + 1
            &&& sorted_by_time(events, inserted)
            &&& inserted.no_duplicates()
            &&& forall|a: int|
                0 <= a < inserted.len() ==> #[trigger] inserted[a] == i || order.contains(inserted[a])
            &&& inserted.contains(i)
            &&& forall|a: int| 0 <= a < order.len() ==> inserted.contains(#[trigger] order[a])
        }),
    decreases order.len(),
{
    let inserted = insert_event(events, order, i);
    if order.len() == 0 || !event_precedes(events[i], events[order.last()]) {
        assert(inserted == order.push(i));
        assert(inserted[order.len() as int] == i);
        assert forall|a: int, b: int|
            #![trigger inserted[a], inserted[b]]
            0 <= a < b < inserted.len() implies {
            &&& !event_precedes(events[inserted[b]], events[inserted[a]])
            &&& (!event_precedes(events[inserted[a]], events[inserted[b]]) ==> inserted[a] < inserted[b])
        } by {
            if b == order.len() {
                let last = order.last();
                let x = order[a];
                assert(inserted[a] == x);
                if a < order.len() - 1 {
                    assert(!event_precedes(events[order[order.len() - 1]], events[order[a]]));
                }
                lemma_precedes_order(events[i], events[last], events[x]);
            } else {
                assert(inserted[a] == order[a]);
                assert(inserted[b] == order[b]);
            }
        }
        assert forall|a: int, b: int|
            0 <= a < inserted.len() && 0 <= b < inserted.len() && a != b implies inserted[a] != inserted[b] by {
            if a < order.len() && b < order.len() {
                assert(inserted[a] == order[a]);
                assert(inserted[b] == order[b]);
            } else if a < order.len() {
                assert(inserted[a] == order[a]);
            } else if b < order.len() {
                assert(inserted[b] == order[b]);
            }
        }
        assert forall|a: int| 0 <= a < inserted.len() implies #[trigger] inserted[a] == i || order.contains(
            inserted[a],
        ) by {
            if a < order.len() {
                assert(inserted[a] == order[a]);
            }
        }
        assert forall|a: int| 0 <= a < order.len() implies inserted.contains(#[trigger] order[a]) by {
            assert(inserted[a] == order[a]);
        }
    } else {
        let last = order.last();
        let front = order.drop_last();
        assert forall|a: int, b: int|
            #![trigger front[a], front[b]]
            0 <= a < b < front.len() implies {
            &&& !event_precedes(events[front[b]], events[front[a]])
            &&& (!event_precedes(events[front[a]], events[front[b]]) ==> front[a] < front[b])
        } by {
            assert(front[a] == order[a]);
            assert(front[b] == order[b]);
        }
        assert forall|a: int| 0 <= a < front.len() implies 0 <= #[trigger] front[a] < i by {
            assert(front[a] == order[a]);
        }
        lemma_insert_event(events, front, i);
        let rest = insert_event(events, front, i);
        assert(inserted == rest.push(last));
        let n = rest.len() as int;
        assert forall|a: int| 0 <= a < n implies #[trigger] rest[a] == i || order.contains(rest[a]) by {
            if rest[a] != i {
                let j = choose|j: int| 0 <= j < front.len() && front[j] == rest[a];
                assert(order[j] == rest[a]);
            }
        }
        assert forall|a: int| 0 <= a < n implies #[trigger] rest[a] != last by {
            if rest[a] != i {
                let j = choose|j: int| 0 <= j < front.len() && front[j] == rest[a];
                assert(order[j] == front[j]);
                assert(order[order.len() - 1] == last);
            }
        }
        assert forall|a: int, b: int|
            #![trigger inserted[a], inserted[b]]
            0 <= a < b < inserted.len() implies {
            &&& !event_precedes(events[inserted[b]], events[inserted[a]])
            &&& (!event_precedes(events[inserted[a]], events[inserted[b]]) ==> inserted[a] < inserted[b])
        } by {
            assert(inserted[a] == rest[a]);
            if b == n {
                assert(inserted[b] == last);
                let y = rest[a];
                if y == i {
                    lemma_precedes_order(events[i], events[last], events[i]);
                } else {
                    let j = choose|j: int| 0 <= j < front.len() && front[j] == y;
                    assert(order[j] == y);
                    assert(!event_precedes(events[order[order.len() - 1]], events[order[j]]));
                }
            } else {
                assert(inserted[b] == rest[b]);
            }
        }
        assert forall|a: int, b: int|
            0 <= a < inserted.len() && 0 <= b < inserted.len() && a != b implies inserted[a] != inserted[b] by {
            if a < n && b < n {
                assert(inserted[a] == rest[a]);
                assert(inserted[b] == rest[b]);
            } else if a < n {
                assert(inserted[a] == rest[a]);
            } else if b < n {
                assert(inserted[b] == rest[b]);
            }
        }
        assert forall|a: int| 0 <= a < inserted.len() implies #[trigger] inserted[a] == i || order.contains(
            inserted[a],
        ) by {
            if a < n {
                assert(inserted[a] == rest[a]);
            } else {
                assert(order[order.len() - 1] == last);
            }
        }
        let k = choose|k: int| 0 <= k < n && rest[k] == i;
        assert(inserted[k] == i);
        assert forall|a: int| 0 <= a < order.len() implies inserted.contains(#[trigger] order[a]) by {
            if a < order.len() - 1 {
                assert(front[a] == order[a]);
                let j = choose|j: int| 0 <= j < n && rest[j] == front[a];
                assert(inserted[j] == order[a]);
            } else {
                assert(inserted[n] == order[a]);
            }
        }
    }
}

/// The first `k` events in their time order: each index below `k` once,
/// sorted by position and line, ties by index.
proof fn lemma_event_order(events: Seq<SliderEvent>, k: nat)
    requires
        valid_events(events),
        k <= events.len(),
    ensures
        ({
            let order = event_order(events, k);
            &&& order.len() == k
            &&& order.no_duplicates()
            &&& forall|a: int| 0 <= a < order.len() ==> 0 <= #[trigger] order[a] < k
            &&& sorted_by_time(events, order)
        }),
    decreases k,
{
    if k > 0 {
        lemma_event_order(events, (k - 1) as nat);
        let before = event_order(events, (k - 1) as nat);
        lemma_insert_event(events, before, k - 1);
        let order = event_order(events, k);
        assert forall|a: int| 0 <= a < order.len() implies 0 <= #[trigger] order[a] < k by {
            if order[a] != k - 1 {
                let j = choose|j: int| 0 <= j < before.len() && before[j] == order[a];
            }
        }
    }
}

/// The events are taken in time order: every event once, by position, then
/// by line, then by their place in the list.
pub proof fn lemma_events_taken_in_time_order(events: Seq<SliderEvent>)
    requires
        valid_events(events),
    ensures
        ({
            let order = event_order(events, events.len());
            &&& order.len() == events.len()
            &&& order.no_duplicates()
            &&& forall|a: int| 0 <= a < order.len() ==> 0 <= #[trigger] order[a] < events.len()
            &&& sorted_by_time(events, order)
        }),
{
    lemma_event_order(events, events.len());
}

/// The points of a path come in time order: none is before an earlier one.
pub open spec fn points_in_time_order(points: Seq<SlidePoint>) -> bool {
    forall|a: int, b: int|
        #![trigger points[a], points[b]]
        0 <= a < b < points.len() ==> !points[b].position_spec().is_before(points[a].position_spec())
}

/// No event from the `k`-th on in `order` comes before `position`.
pub open spec fn no_later_than(events: Seq<SliderEvent>, order: Seq<int>, k: int, position: Position) -> bool {
    forall|j: int| k <= j < order.len() ==> !(#[trigger] events[order[j]]).position.is_before(position)
}

/// An open slide: at least one point, in time order, on valid positions,
/// none after an event still to come.
pub open spec fn open_slide_ok(events: Seq<SliderEvent>, order: Seq<int>, k: int, points: Seq<SlidePoint>) -> bool {
    &&& points.len() >= 1
    &&& points_in_time_order(points)
    &&& forall|a: int| 0 <= a < points.len() ==> (#[trigger] points[a]).position_spec().wf()
    &&& no_later_than(events, order, k, points.last().position_spec())
}

/// Adding the point of an event no earlier than the last point keeps the
/// points in time order.
proof fn lemma_push_in_time_order(points: Seq<SlidePoint>, point: SlidePoint)
    requires
        points.len() >= 1,
        points_in_time_order(points),
        forall|a: int| 0 <= a < points.len() ==> (#[trigger] points[a]).position_spec().wf(),
        point.position_spec().wf(),
        !point.position_spec().is_before(points.last().position_spec()),
    ensures
        points_in_time_order(points.push(point)),
        forall|a: int| 0 <= a < points.push(point).len() ==> (#[trigger] points.push(point)[a]).position_spec().wf(),
{
    let longer = points.push(point);
    let last = points.last();
    assert forall|a: int, b: int|
        #![trigger longer[a], longer[b]]
        0 <= a < b < longer.len() implies !longer[b].position_spec().is_before(longer[a].position_spec()) by {
        if b < points.len() {
            assert(longer[a] == points[a]);
            assert(longer[b] == points[b]);
        } else {
            assert(longer[a] == points[a]);
            assert(longer[b] == point);
            if a < points.len() - 1 {
                assert(!points[points.len() - 1].position_spec().is_before(points[a].position_spec()));
            }
            crate::position::lemma_order_is_total(
                point.position_spec(),
                last.position_spec(),
                points[a].position_spec(),
            );
            crate::position::lemma_order_is_total(
                last.position_spec(),
                points[a].position_spec(),
                point.position_spec(),
            );
            crate::position::lemma_order_is_total(
                last.position_spec(),
                point.position_spec(),
                points[a].position_spec(),
            );
        }
    }
    assert forall|a: int| 0 <= a < longer.len() implies (#[trigger] longer[a]).position_spec().wf() by {
        if a < points.len() {
            assert(longer[a] == points[a]);
        }
    }
}

/// Taking the events from the `k`-th on keeps every open slide in order and
/// closes only slides with two points or more in time order.
proof fn lemma_slides_from_in_time_order(
    events: Seq<SliderEvent>,
    order: Seq<int>,
    k: int,
    open: Map<u32, Seq<SlidePoint>>,
    done: Seq<(int, Seq<SlidePoint>)>,
)
    requires
        valid_events(events),
        sorted_by_time(events, order),
        forall|a: int| 0 <= a < order.len() ==> 0 <= #[trigger] order[a] < events.len(),
        0 <= k <= order.len(),
        forall|c: u32| #[trigger] open.contains_key(c) ==> open_slide_ok(events, order, k, open[c]),
        forall|s: int|
            0 <= s < done.len() ==> (#[trigger] done[s]).1.len() >= 2 && points_in_time_order(done[s].1),
        slides_from(events, order, k, open, done) is Ok,
    ensures
        ({
            let closed = slides_from(events, order, k, open, done)->Ok_0.1;
            forall|s: int|
                0 <= s < closed.len() ==> (#[trigger] closed[s]).1.len() >= 2 && points_in_time_order(closed[s].1)
        }),
    decreases order.len() - k,
{
    if k < order.len() {
        let i = order[k];
        let e = events[i];
        let c = e.channel as u32;
        let point = event_point(e);
        let kind = if e.kind == 49 || e.kind == 50 {
            SlidePointKind::Visible
        } else {
            slide_point_code(e.kind)
        };
        SlidePoint::lemma_parts(e.position, e.lane, kind);
        assert(point.position_spec() == e.position);
        assert(e.position.wf());
        assert forall|j: int| k + 1 <= j < order.len() implies !(#[trigger] events[order[j]]).position.is_before(
            e.position,
        ) by {
            assert(!event_precedes(events[order[j]], events[order[k]]));
        }
        assert forall|c2: u32| #[trigger] open.contains_key(c2) implies open_slide_ok(
            events,
            order,
            k + 1,
            open[c2],
        ) by {
            assert(open_slide_ok(events, order, k, open[c2]));
        }
        if e.kind == 49 {
            let next = open.insert(c, seq![point]);
            assert forall|c2: u32| #[trigger] next.contains_key(c2) implies open_slide_ok(
                events,
                order,
                k + 1,
                next[c2],
            ) by {
                if c2 == c {
                    assert(next[c2] == seq![point]);
                    assert(seq![point].last() == point);
                    assert(seq![point][0] == point);
                } else {
                    assert(open.contains_key(c2));
                }
            }
            lemma_slides_from_in_time_order(events, order, k + 1, next, done);
        } else if open.contains_key(c) {
            let points = open[c];
            assert(open_slide_ok(events, order, k, points));
            assert(!events[order[k]].position.is_before(points.last().position_spec()));
            lemma_push_in_time_order(points, point);
            let longer = points.push(point);
            if e.kind == 50 {
                let next = open.remove(c);
                let closed = done.push((i, longer));
                assert forall|s: int|
                    0 <= s < closed.len() implies (#[trigger] closed[s]).1.len() >= 2 && points_in_time_order(
                    closed[s].1,
                ) by {
                    if s < done.len() {
                        assert(closed[s] == done[s]);
                    }
                }
                assert forall|c2: u32| #[trigger] next.contains_key(c2) implies open_slide_ok(
                    events,
                    order,
                    k + 1,
                    next[c2],
                ) by {
                    assert(open.contains_key(c2));
                }
                lemma_slides_from_in_time_order(events, order, k + 1, next, closed);
            } else {
                let next = open.insert(c, longer);
                assert forall|c2: u32| #[trigger] next.contains_key(c2) implies open_slide_ok(
                    events,
                    order,
                    k + 1,
                    next[c2],
                ) by {
                    if c2 == c {
                        assert(longer.last() == point);
                    } else {
                        assert(open.contains_key(c2));
                    }
                }
                lemma_slides_from_in_time_order(events, order, k + 1, next, done);
            }
        }
    }
}

/// Every slide put together has at least a start and an end point, and its
/// points come in time order.
pub proof fn lemma_slides_in_time_order(events: Seq<SliderEvent>)
    requires
        valid_events(events),
        slides_spec(events) is Ok,
    ensures
        ({
            let closed = slides_spec(events)->Ok_0.1;
            forall|s: int|
                0 <= s < closed.len() ==> (#[trigger] closed[s]).1.len() >= 2 && points_in_time_order(closed[s].1)
        }),
{
    lemma_event_order(events, events.len());
    lemma_slides_from_in_time_order(
        events,
        event_order(events, events.len()),
        0,
        Map::empty(),
        Seq::empty(),
    );
}

/// The indices as integers.
pub open spec fn ints(indices: Seq<usize>) -> Seq<int> {
    indices.map_values(|i: usize| i as int)
}

/// Whether event `a` comes before event `b`.
fn precedes(a: &SliderEvent, b: &SliderEvent) -> (before: bool)
    ensures
        before == event_precedes(*a, *b),
{
    a.position < b.position || (a.position == b.position && a.line < b.line)
}

/// The indices of the events sorted by position and line, with events that
/// tie kept in their given order.
fn sorted_events(events: &Vec<SliderEvent>) -> (order: Vec<usize>)
    ensures
        ints(order@) == event_order(events@, events@.len()),
        forall|j: int| 0 <= j < order@.len() ==> #[trigger] order@[j] < events@.len(),
{
    let mut order: Vec<usize> = Vec::new();
    let mut k: usize = 0;
    proof {
        assert(ints(order@) =~= Seq::<int>::empty());
    }
    while k < events.len()
        invariant
            k <= events@.len(),
            ints(order@) == event_order(events@, k as nat),
            forall|j: int| 0 <= j < order@.len() ==> #[trigger] order@[j] < k,
        decreases events@.len() - k,
    {
        let ghost sorted = ints(order@);
        let mut p: usize = order.len();
        proof {
            assert(sorted.take(p as int) =~= sorted);
            assert(sorted.take(p as int) + sorted.skip(p as int) =~= sorted);
        }
        while p > 0 && precedes(&events[k], &events[order[p - 1]])
            invariant
                p <= order@.len(),
                k < events@.len(),
                ints(order@) == sorted,
                forall|j: int| 0 <= j < order@.len() ==> #[trigger] order@[j] < k,
                insert_event(events@, sorted, k as int) == insert_event(events@, sorted.take(p as int), k as int)
                    + sorted.skip(p as int),
            decreases p,
        {
            proof {
                let front = sorted.take(p as int);
                assert(front.last() == sorted[p - 1]);
                assert(front.drop_last() =~= sorted.take(p - 1));
                let rest = insert_event(events@, sorted.take(p - 1), k as int);
                assert(rest.push(sorted[p - 1]) + sorted.skip(p as int) =~= rest + sorted.skip(p - 1));
            }
            p -= 1;
        }
        proof {
            assert(sorted.take(p as int).push(k as int) + sorted.skip(p as int) =~= sorted.insert(p as int, k as int));
        }
        order.insert(p, k);
        proof {
            assert(ints(order@) =~= sorted.insert(p as int, k as int));
            assert forall|j: int| 0 <= j < order@.len() implies #[trigger] order@[j] < k + 1 by {
                if j < p {
                    assert(order@[j] == sorted[j]);
                } else if j > p {
                    assert(order@[j] as int == sorted[j - 1]);
                }
            }
        }
        k += 1;
    }
    order
}

/// The point that event `e` adds to its slide: a visible point for a start
/// or an end, a point of the kind its byte names for a relay.
pub open spec fn event_point(e: SliderEvent) -> SlidePoint {
    if e.kind == 49 || e.kind == 50 {
        SlidePoint::from_parts(e.position, e.lane, SlidePointKind::Visible)
    } else {
        SlidePoint::from_parts(e.position, e.lane, slide_point_code(e.kind))
    }
}

/// The slides still open, by channel, and the slides closed so far, each
/// with the index of its end event; or the index of the first event that
/// finds its channel open when it starts or closed when it continues.
pub open spec fn slides_from(
    events: Seq<SliderEvent>,
    order: Seq<int>,
    k: int,
    open: Map<u32, Seq<SlidePoint>>,
    done: Seq<(int, Seq<SlidePoint>)>,
) -> Result<(Map<u32, Seq<SlidePoint>>, Seq<(int, Seq<SlidePoint>)>), int>
    decreases order.len() - k,
{
    if k >= order.len() {
        Ok((open, done))
    } else {
        let i = order[k];
        let e = events[i];
        let c = e.channel as u32;
        if e.kind == 49 {
            if open.contains_key(c) {
                Err(i)
            } else {
                slides_from(events, order, k + 1, open.insert(c, seq![event_point(e)]), done)
            }
        } else if !open.contains_key(c) {
            Err(i)
        } else if e.kind == 50 {
            slides_from(events, order, k + 1, open.remove(c), done.push((i, open[c].push(event_point(e)))))
        } else {
            slides_from(events, order, k + 1, open.insert(c, open[c].push(event_point(e))), done)
        }
    }
}

/// The events taken in time order, each added to the slide of its channel.
pub open spec fn slides_spec(events: Seq<SliderEvent>) -> Result<
    (Map<u32, Seq<SlidePoint>>, Seq<(int, Seq<SlidePoint>)>),
    int,
> {
    slides_from(events, event_order(events, events.len()), 0, Map::empty(), Seq::empty())
}

/// The open slides with their points as sequences.
pub open spec fn open_view(open: Map<u32, Vec<SlidePoint>>) -> Map<u32, Seq<SlidePoint>> {
    Map::new(|c: u32| open.contains_key(c), |c: u32| open[c]@)
}

/// The closed slides with their points as sequences.
pub open spec fn closed_view(slides: Seq<(usize, Vec<SlidePoint>)>) -> Seq<(int, Seq<SlidePoint>)> {
    slides.map_values(|slide: (usize, Vec<SlidePoint>)| (slide.0 as int, slide.1@))
}

/// The error that event `e` is refused with: a start on an open channel
/// names the channel as an invalid value; a relay or an end on a channel
/// that is not open has no start.
pub open spec fn refused_with(e: SliderEvent, result: Result<Vec<(usize, Vec<SlidePoint>)>, SusError>) -> bool {
    if e.kind == 49 {
        result matches Err(SusError::InvalidValue { line, value }) && line == e.line && value@ == seq![e.channel]
    } else {
        result == Err::<Vec<(usize, Vec<SlidePoint>)>, SusError>(
            SusError::MissingStart { line: e.line, channel: e.channel },
        )
    }
}

/// The text of one character.
fn char_text(c: char) -> (text: String)
    ensures
        text@ == seq![c],
{
    let mut text = String::new();
    text.push(c);
    text
}

/// The point that event `e` adds to its slide.
fn event_slide_point(e: &SliderEvent) -> (point: SlidePoint)
    ensures
        point == event_point(*e),
{
    let point = SlidePoint::new(e.position, e.lane);
    if e.kind == 49 || e.kind == 50 {
        point
    } else {
        point.with_kind(slide_point_kind(e.kind))
    }
}

/// Puts the slides of a SUS document together from its slider tokens, taken
/// by position and line: each closed slide with the index of the token that
/// closes it and its points; an error for a start on an open channel, a
/// relay or an end on a channel with no start, or a channel left open.
pub fn resolve_slides(events: &Vec<SliderEvent>) -> (result: Result<Vec<(usize, Vec<SlidePoint>)>, SusError>)
    ensures
        match slides_spec(events@) {
            Err(i) => refused_with(events@[i], result),
            Ok((open, done)) => if open.is_empty() {
                (result matches Ok(slides) && closed_view(slides@) == done)
            } else {
                (result matches Err(SusError::MissingEnd { channel }) && open.contains_key(channel as u32))
            },
        },
{
    let order = sorted_events(events);
    let ghost events_order = event_order(events@, events@.len());
    let mut open: HashMap<u32, Vec<SlidePoint>> = HashMap::new();
    let mut opened: Vec<char> = Vec::new();
    let mut done: Vec<(usize, Vec<SlidePoint>)> = Vec::new();
    let mut k: usize = 0;
    proof {
        assert(open_view(open@) =~= Map::<u32, Seq<SlidePoint>>::empty());
        assert(closed_view(done@) =~= Seq::<(int, Seq<SlidePoint>)>::empty());
    }
    while k < order.len()
        invariant
            k <= order@.len(),
            ints(order@) == events_order,
            forall|j: int| 0 <= j < order@.len() ==> #[trigger] order@[j] < events@.len(),
            slides_from(events@, events_order, k as int, open_view(open@), closed_view(done@)) == slides_spec(
                events@,
            ),
            forall|c: u32| #[trigger] open@.contains_key(c) ==> exists|j: int|
                0 <= j < opened@.len() && opened@[j] as u32 == c,
        decreases order@.len() - k,
    {
        let index = order[k];
        let e = events[index];
        let key = e.channel as u32;
        let point = event_slide_point(&e);
        proof {
            assert(events_order[k as int] == index as int);
        }
        if e.kind == 49 {
            if open.contains_key(&key) {
                return Err(SusError::InvalidValue { line: e.line, value: char_text(e.channel) });
            }
            let ghost before = open@;
            let mut first: Vec<SlidePoint> = Vec::new();
            first.push(point);
            proof {
                assert(first@ =~= seq![point]);
            }
            let ghost opened_before = opened@;
            open.insert(key, first);
            opened.push(e.channel);
            proof {
                assert(open_view(open@) =~= open_view(before).insert(key, seq![event_point(e)]));
                assert forall|c: u32| #[trigger] open@.contains_key(c) implies exists|j: int|
                    0 <= j < opened@.len() && opened@[j] as u32 == c by {
                    if c == key {
                        assert(opened@[opened@.len() - 1] == e.channel);
                    } else {
                        assert(before.contains_key(c));
                        let j = choose|j: int| 0 <= j < opened_before.len() && opened_before[j] as u32 == c;
                        assert(opened@[j] == opened_before[j]);
                    }
                }
            }
        } else {
            let ghost before = open@;
            match open.remove(&key) {
                None => {
                    return Err(SusError::MissingStart { line: e.line, channel: e.channel });
                },
                Some(points) => {
                    let mut points = points;
                    let ghost previous = points@;
                    points.push(point);
                    proof {
                        assert(previous == open_view(before)[key]);
                    }
                    if e.kind == 50 {
                        let ghost closed = done@;
                        done.push((index, points));
                        proof {
                            assert(open_view(open@) =~= open_view(before).remove(key));
                            assert(closed_view(done@) =~= closed_view(closed).push(
                                (index as int, previous.push(event_point(e))),
                            ));
                        }
                    } else {
                        let ghost removed = open@;
                        open.insert(key, points);
                        proof {
                            assert(open_view(open@) =~= open_view(before).insert(
                                key,
                                previous.push(event_point(e)),
                            ));
                            assert forall|c: u32| #[trigger] open@.contains_key(c) implies exists|j: int|
                                0 <= j < opened@.len() && opened@[j] as u32 == c by {
                                assert(before.contains_key(c));
                            }
                        }
                    }
                },
            }
        }
        k += 1;
    }
    proof {
        assert(k >= events_order.len());
    }
    if open.is_empty() {
        proof {
            assert(open_view(open@).dom() =~= open@.dom());
        }
        return Ok(done);
    }
    let mut t: usize = 0;
    while t < opened.len()
        invariant
            t <= opened@.len(),
            !open@.is_empty(),
            forall|c: u32| #[trigger] open@.contains_key(c) ==> exists|j: int|
                0 <= j < opened@.len() && opened@[j] as u32 == c,
            forall|j: int| 0 <= j < t ==> !open@.contains_key(#[trigger] opened@[j] as u32),
            slides_from(events@, events_order, k as int, open_view(open@), closed_view(done@)) == slides_spec(
                events@,
            ),
            k >= events_order.len(),
        decreases opened@.len() - t,
    {
        let channel = opened[t];
        if open.contains_key(&(channel as u32)) {
            proof {
                assert(open_view(open@).dom() =~= open@.dom());
                assert(open_view(open@).contains_key(channel as u32));
            }
            return Err(SusError::MissingEnd { channel });
        }
        t += 1;
    }
    proof {
        let c = open@.dom().choose();
        assert(open@.dom().contains(c));
        let j = choose|j: int| 0 <= j < opened@.len() && opened@[j] as u32 == c;
        assert(!open@.contains_key(opened@[j] as u32));
    }
    Err(SusError::MissingEnd { channel: '0' })
}

/// The long notes of a SUS document still open, by channel: each with the
/// point where it starts.
pub struct LongNoteChannels {
    starts: HashMap<u32, SlidePoint>,
    channels: Vec<char>,
}

/// Every key of `starts` is the code of one of `channels`.
pub open spec fn codes_known(starts: Map<u32, SlidePoint>, channels: Seq<char>) -> bool {
    forall|c: u32| #[trigger] starts.contains_key(c) ==> exists|j: int| 0 <= j < channels.len() && channels[j] as u32 == c
}

impl View for LongNoteChannels {
    type V = Map<u32, SlidePoint>;

    /// The start point of each open long note, by the code of its channel.
    closed spec fn view(&self) -> Map<u32, SlidePoint> {
        self.starts@
    }
}

impl LongNoteChannels {
    /// Every open channel is among the channels opened so far.
    #[verifier::type_invariant]
    closed spec fn channels_known(self) -> bool {
        codes_known(self.starts@, self.channels@)
    }

    /// No long note is open.
    pub fn new() -> (channels: Self)
        ensures
            channels@ == Map::<u32, SlidePoint>::empty(),
    {
        LongNoteChannels { starts: HashMap::new(), channels: Vec::new() }
    }

    /// Opens a long note on `channel` at `start`; a channel already open is
    /// refused on `line` with the channel as the invalid value, and nothing
    /// changes.
    pub fn open(&mut self, line: usize, channel: char, start: SlidePoint) -> (result: Result<(), SusError>)
        ensures
            old(self)@.contains_key(channel as u32) ==> final(self)@ == old(self)@ && (result matches Err(
                SusError::InvalidValue { line: l, value },
            ) && l == line && value@ == seq![channel]),
            !old(self)@.contains_key(channel as u32) ==> final(self)@ == old(self)@.insert(channel as u32, start)
                && result is Ok,
    {
        proof {
            use_type_invariant(&*self);
        }
        let key = channel as u32;
        if self.starts.contains_key(&key) {
            return Err(SusError::InvalidValue { line, value: char_text(channel) });
        }
        let ghost known = self.channels@;
        let ghost before = self.starts@;
        let mut starts = HashMap::new();
        std::mem::swap(&mut starts, &mut self.starts);
        starts.insert(key, start);
        let mut channels = Vec::new();
        std::mem::swap(&mut channels, &mut self.channels);
        channels.push(channel);
        proof {
            assert forall|c: u32| #[trigger] starts@.contains_key(c) implies exists|j: int|
                0 <= j < channels@.len() && channels@[j] as u32 == c by {
                if c == key {
                    assert(channels@[channels@.len() - 1] == channel);
                } else {
                    assert(before.contains_key(c));
                    let j = choose|j: int| 0 <= j < known.len() && known[j] as u32 == c;
                    assert(channels@[j] == known[j]);
                }
            }
        }
        proof {
            assert(codes_known(starts@, channels@));
        }
        *self = LongNoteChannels { starts, channels };
        Ok(())
    }

    /// Whether a relay point may stand on `channel`: the channel is open, or
    /// the point has no start on `line`.
    pub fn relay(&self, line: usize, channel: char) -> (result: Result<(), SusError>)
        ensures
            self@.contains_key(channel as u32) ==> result is Ok,
            !self@.contains_key(channel as u32) ==> result == Err::<(), SusError>(
                SusError::MissingStart { line, channel },
            ),
    {
        if self.starts.contains_key(&(channel as u32)) {
            Ok(())
        } else {
            Err(SusError::MissingStart { line, channel })
        }
    }

    /// Closes the long note on `channel` and gives back its start point; a
    /// channel that is not open has no start on `line`, and nothing changes.
    pub fn close(&mut self, line: usize, channel: char) -> (result: Result<SlidePoint, SusError>)
        ensures
            old(self)@.contains_key(channel as u32) ==> final(self)@ == old(self)@.remove(channel as u32)
                && result == Ok::<SlidePoint, SusError>(old(self)@[channel as u32]),
            !old(self)@.contains_key(channel as u32) ==> final(self)@ == old(self)@ && result == Err::<
                SlidePoint,
                SusError,
            >(SusError::MissingStart { line, channel }),
    {
        proof {
            use_type_invariant(&*self);
        }
        let key = channel as u32;
        if !self.starts.contains_key(&key) {
            return Err(SusError::MissingStart { line, channel });
        }
        let ghost known = self.channels@;
        let ghost before = self.starts@;
        let mut starts = HashMap::new();
        std::mem::swap(&mut starts, &mut self.starts);
        let removed = starts.remove(&key);
        let mut channels = Vec::new();
        std::mem::swap(&mut channels, &mut self.channels);
        proof {
            assert forall|c: u32| #[trigger] starts@.contains_key(c) implies exists|j: int|
                0 <= j < channels@.len() && channels@[j] as u32 == c by {
                assert(before.contains_key(c));
            }
        }
        proof {
            assert(codes_known(starts@, channels@));
        }
        *self = LongNoteChannels { starts, channels };
        match removed {
            Some(start) => Ok(start),
            None => Err(SusError::MissingStart { line, channel }),
        }
    }

    /// A channel with a long note still open, if there is one.
    pub fn open_channel(&self) -> (channel: Option<char>)
        ensures
            channel is None <==> self@.is_empty(),
            channel matches Some(c) ==> self@.contains_key(c as u32),
    {
        proof {
            use_type_invariant(self);
        }
        if self.starts.is_empty() {
            return None;
        }
        let mut t: usize = 0;
        while t < self.channels.len()
            invariant
                t <= self.channels@.len(),
                !self.starts@.is_empty(),
                forall|c: u32| #[trigger] self.starts@.contains_key(c) ==> exists|j: int|
                    0 <= j < self.channels@.len() && self.channels@[j] as u32 == c,
                forall|j: int| 0 <= j < t ==> !self.starts@.contains_key(#[trigger] self.channels@[j] as u32),
            decreases self.channels@.len() - t,
        {
            let channel = self.channels[t];
            if self.starts.contains_key(&(channel as u32)) {
                return Some(channel);
            }
            t += 1;
        }
        proof {
            let c = self.starts@.dom().choose();
            assert(self.starts@.dom().contains(c));
            let j = choose|j: int| 0 <= j < self.channels@.len() && self.channels@[j] as u32 == c;
            assert(!self.starts@.contains_key(self.channels@[j] as u32));
        }
        None
    }
}

/// Closing a channel just opened gives back the start point it was opened
/// with and leaves the other open long notes as they were.
pub proof fn lemma_close_gives_back_start(open: Map<u32, SlidePoint>, channel: char, start: SlidePoint)
    requires
        !open.contains_key(channel as u32),
    ensures
        open.insert(channel as u32, start).contains_key(channel as u32),
        open.insert(channel as u32, start)[channel as u32] == start,
        open.insert(channel as u32, start).remove(channel as u32) == open,
{
    assert(open.insert(channel as u32, start).remove(channel as u32) =~= open);
}

} // verus!
