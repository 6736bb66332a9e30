//! The line segments of a path.

use super::StraightPathEvent;
use crate::line::LineSegment;
use vstd::prelude::*;

verus! {

/// The line segment that the event stands for: that of a line, and the one
/// that closes a path from its last point to its first. The other events
/// stand for none.
pub open spec fn segment_of<T: Copy>(event: StraightPathEvent<T>) -> Option<LineSegment<T>> {
    match event {
        StraightPathEvent::Begin { .. } => None,
        StraightPathEvent::Line { from, to } => Some(LineSegment { from, to }),
        StraightPathEvent::End { first, last, close } => if close {
            Some(LineSegment { from: last, to: first })
        } else {
            None
        },
    }
}

/// The line segments of the first `k` events, in order.
pub open spec fn segments_of<T: Copy>(events: Seq<StraightPathEvent<T>>, k: nat) -> Seq<
    LineSegment<T>,
>
    decreases k,
{
    if k == 0 {
        Seq::empty()
    } else {
        let earlier = segments_of(events, (k - 1) as nat);
        match segment_of(events[k - 1]) {
            Some(segment) => earlier.push(segment),
            None => earlier,
        }
    }
}

/// The line segments of a flattened path.
pub struct LineSegments<T: Copy> {
    /// The events of the path.
    pub events: Vec<StraightPathEvent<T>>,
    /// The number of events that have been passed.
    pub position: usize,
}

impl<T: Copy> LineSegments<T> {
    /// The line segments of the given events, before the first.
    pub fn new(events: Vec<StraightPathEvent<T>>) -> (r: Self)
        ensures
            r.events == events,
            r.position == 0,
    {
        LineSegments { events, position: 0 }
    }

    /// The next line segment, or none when there is no more.
    #[inline]
    pub fn next(&mut self) -> (r: Option<LineSegment<T>>)
        requires
            old(self).position <= old(self).events@.len(),
        ensures
            final(self).events == old(self).events,
            old(self).position <= final(self).position <= final(self).events@.len(),
            forall|k: int|
                old(self).position <= k < final(self).position - 1 ==> segment_of(
                    #[trigger] final(self).events@[k],
                ).is_none(),
            match r {
                Some(segment) => final(self).position > old(self).position && segment_of(
                    final(self).events@[final(self).position - 1],
                ) == Some(segment),
                None => final(self).position == final(self).events@.len() && (final(self).position > old(self).position ==> segment_of(
                    final(self).events@[final(self).position - 1],
                ).is_none()),
            },
    {
        while self.position < self.events.len()
            invariant
                self.events == old(self).events,
                old(self).position <= self.position <= self.events@.len(),
                forall|k: int|
                    old(self).position <= k < self.position ==> segment_of(
                        #[trigger] self.events@[k],
                    ).is_none(),
            decreases self.events@.len() - self.position,
        {
            let event = self.events[self.position];
            self.position = self.position + 1;
            match event {
                StraightPathEvent::Begin { .. } => {},
                StraightPathEvent::Line { from, to } => {
                    return Some(LineSegment::new(from, to));
                },
                StraightPathEvent::End { first, last, close } => {
                    if close {
                        return Some(LineSegment::new(last, first));
                    }
                },
            }
        }
        None
    }

    /// All the line segments of the events, in order.
    pub fn collect(events: &Vec<StraightPathEvent<T>>) -> (r: Vec<LineSegment<T>>)
        ensures
            r@ == segments_of(events@, events@.len()),
    {
        let mut out: Vec<LineSegment<T>> = Vec::new();
        let mut i: usize = 0;
        while i < events.len()
            invariant
                0 <= i <= events@.len(),
                out@ == segments_of(events@, i as nat),
            decreases events@.len() - i,
        {
            match events[i] {
                StraightPathEvent::Begin { .. } => {},
                StraightPathEvent::Line { from, to } => {
                    out.push(LineSegment::new(from, to));
                },
                StraightPathEvent::End { first, last, close } => {
                    if close {
                        out.push(LineSegment::new(last, first));
                    }
                },
            }
            i += 1;
        }
        out
    }

    /// Bounds on the number of segments that are still to come: none, and
    /// the number of events that are left.
    pub fn size_hint(&self) -> (r: (usize, Option<usize>))
        requires
            self.position <= self.events@.len(),
        ensures
            r == (0usize, Some((self.events@.len() - self.position) as usize)),
    {
        (0, Some(self.events.len() - self.position))
    }
}

} // verus!
