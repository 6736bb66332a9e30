//! Convert points to line segments.

use super::LineSegment;
use crate::point::Point;
use vstd::prelude::*;

verus! {

/// The segments that connect each of the points to the next.
pub open spec fn connecting<T: Copy>(points: Seq<Point<T>>) -> Seq<LineSegment<T>> {
    Seq::new(
        if points.len() == 0 {
            0nat
        } else {
            (points.len() - 1) as nat
        },
        |i: int| LineSegment { from: points[i], to: points[i + 1] },
    )
}

/// The walk along the segments that connect a series of points, from
/// either end.
pub struct FromPoints<T: Copy> {
    /// The points.
    pub points: Vec<Point<T>>,
    /// The number of segments that have been handed out from the front.
    pub front: usize,
    /// The number of segments that have been handed out from the back.
    pub back: usize,
}

impl<T: Copy> LineSegment<T> {
    /// Convert a series of points into the line segments that connect each
    /// point to the next.
    pub fn from_points(points: Vec<Point<T>>) -> (r: FromPoints<T>)
        ensures
            r.points == points,
            r.front == 0,
            r.back == 0,
            r.wf(),
    {
        FromPoints { points, front: 0, back: 0 }
    }
}

impl<T: Copy> FromPoints<T> {
    /// No more segments have been handed out than there are.
    pub open spec fn wf(&self) -> bool {
        self.front + self.back <= connecting(self.points@).len()
    }

    /// The segments that are still to come, first to last.
    pub open spec fn rest(&self) -> Seq<LineSegment<T>> {
        connecting(self.points@).subrange(
            self.front as int,
            connecting(self.points@).len() - self.back,
        )
    }

    /// The next segment from the front, or none when all have been handed
    /// out.
    pub fn next(&mut self) -> (r: Option<LineSegment<T>>)
        requires
            old(self).wf(),
        ensures
            final(self).wf(),
            final(self).points == old(self).points,
            final(self).back == old(self).back,
            match r {
                Some(segment) => old(self).rest().len() > 0 && segment == old(self).rest()[0]
                    && final(self).front == old(self).front + 1,
                None => old(self).rest().len() == 0 && final(self).front == old(self).front,
            },
    {
        if self.points.len() == 0 || self.front + self.back >= self.points.len() - 1 {
            return None;
        }
        let segment = LineSegment::new(self.points[self.front], self.points[self.front + 1]);
        self.front = self.front + 1;
        Some(segment)
    }

    /// The next segment from the back, or none when all have been handed
    /// out.
    pub fn next_back(&mut self) -> (r: Option<LineSegment<T>>)
        requires
            old(self).wf(),
        ensures
            final(self).wf(),
            final(self).points == old(self).points,
            final(self).front == old(self).front,
            match r {
                Some(segment) => old(self).rest().len() > 0 && segment == old(self).rest().last()
                    && final(self).back == old(self).back + 1,
                None => old(self).rest().len() == 0 && final(self).back == old(self).back,
            },
    {
        if self.points.len() == 0 || self.front + self.back >= self.points.len() - 1 {
            return None;
        }
        let last = self.points.len() - 1 - self.back;
        let segment = LineSegment::new(self.points[last - 1], self.points[last]);
        self.back = self.back + 1;
        Some(segment)
    }

    /// The number of segments that are still to come, counted exactly.
    pub fn size_hint(&self) -> (r: (usize, Option<usize>))
        requires
            self.wf(),
        ensures
            r.0 == self.rest().len(),
            r.1 == Some(r.0),
    {
        let total = if self.points.len() == 0 {
            0
        } else {
            self.points.len() - 1
        };
        let left = total - self.front - self.back;
        (left, Some(left))
    }
}

} // verus!
