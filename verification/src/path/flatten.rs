//! Flatten a path to straight lines.

use super::{PathEvent, StraightPathEvent};
use crate::curve::cubic::CubicBezier;
use crate::curve::quad::QuadraticBezier;
use crate::point::Point;
use vstd::prelude::*;

verus! {

/// The lines that join each of the points with the next.
pub open spec fn joined<T: Copy>(points: Seq<Point<T>>) -> Seq<StraightPathEvent<T>> {
    Seq::new(
        if points.len() == 0 {
            0nat
        } else {
            (points.len() - 1) as nat
        },
        |i: int| StraightPathEvent::Line { from: points[i], to: points[i + 1] },
    )
}

/// The lines that join each of the points with the next.
pub fn join_points<T: Copy>(points: &Vec<Point<T>>) -> (r: Vec<StraightPathEvent<T>>)
    ensures
        r@ == joined(points@),
{
    let mut out: Vec<StraightPathEvent<T>> = Vec::new();
    let mut last: Option<Point<T>> = None;
    let mut i: usize = 0;
    while i < points.len()
        invariant
            0 <= i <= points@.len(),
            last == (if i == 0 {
                None
            } else {
                Some(points@[i - 1])
            }),
            out@.len() == (if i == 0 {
                0int
            } else {
                i - 1
            }),
            forall|k: int|
                0 <= k < out@.len() ==> #[trigger] out@[k] == (StraightPathEvent::Line {
                    from: points@[k],
                    to: points@[k + 1],
                }),
        decreases points@.len() - i,
    {
        let current_point = points[i];
        if let Some(last_point) = last {
            out.push(StraightPathEvent::Line { from: last_point, to: current_point });
        }
        last = Some(current_point);
        i += 1;
    }
    assert(out@ =~= joined(points@));
    out
}

/// The straight events that stand for one event of a path, where
/// `quadratic` and `cubic` give the points along a curve.
pub open spec fn straightened<
    T: Copy,
    Q: Fn(QuadraticBezier<T>) -> Vec<Point<T>>,
    C: Fn(CubicBezier<T>) -> Vec<Point<T>>,
>(event: PathEvent<T>, quadratic: Q, cubic: C, lines: Seq<StraightPathEvent<T>>) -> bool {
    match event {
        PathEvent::Begin { at } => lines == seq![StraightPathEvent::Begin { at }],
        PathEvent::End { first, last, close } => lines == seq![
            StraightPathEvent::End { first, last, close },
        ],
        PathEvent::Line { from, to } => lines == seq![StraightPathEvent::Line { from, to }],
        PathEvent::Quadratic { from, control, to } => exists|points: Vec<Point<T>>|
            call_ensures(quadratic, (QuadraticBezier { from, control, to },), points) && lines
                == joined(points@),
        PathEvent::Cubic { from, control1, control2, to } => exists|points: Vec<Point<T>>|
            call_ensures(cubic, (CubicBezier { from, control1, control2, to },), points) && lines
                == joined(points@),
    }
}

/// A path flattened to straight lines.
pub struct Flattened<T: Copy> {
    /// The straight events of the path.
    pub events: Vec<StraightPathEvent<T>>,
}

/// The walk along a flattened path, as events of a general path.
pub struct FlattenedPathIter<T: Copy> {
    /// The flattened path.
    pub path: Flattened<T>,
    /// The number of events that the walk has passed.
    pub position: usize,
}

impl<T: Copy> Flattened<T> {
    /// Flatten the events of a path. The lines and the ends of the path
    /// stay; each curve becomes the lines that join the points which
    /// `quadratic` or `cubic` gives for it.
    pub fn new<Q: Fn(QuadraticBezier<T>) -> Vec<Point<T>>, C: Fn(CubicBezier<T>) -> Vec<Point<T>>>(
        events: &Vec<PathEvent<T>>,
        quadratic: Q,
        cubic: C,
    ) -> (r: Self)
        requires
            forall|curve: QuadraticBezier<T>| call_requires(quadratic, (curve,)),
            forall|curve: CubicBezier<T>| call_requires(cubic, (curve,)),
        ensures
            exists|parts: Seq<Seq<StraightPathEvent<T>>>|
                {
                    &&& parts.len() == events@.len()
                    &&& forall|i: int|
                        0 <= i < parts.len() ==> straightened(
                            events@[i],
                            quadratic,
                            cubic,
                            #[trigger] parts[i],
                        )
                    &&& r.events@ == parts.flatten()
                },
    {
        let mut out: Vec<StraightPathEvent<T>> = Vec::new();
        let ghost mut parts: Seq<Seq<StraightPathEvent<T>>> = Seq::empty();
        let mut i: usize = 0;
        while i < events.len()
            invariant
                0 <= i <= events@.len(),
                forall|curve: QuadraticBezier<T>| call_requires(quadratic, (curve,)),
                forall|curve: CubicBezier<T>| call_requires(cubic, (curve,)),
                parts.len() == i,
                forall|k: int|
                    0 <= k < parts.len() ==> straightened(
                        events@[k],
                        quadratic,
                        cubic,
                        #[trigger] parts[k],
                    ),
                out@ == parts.flatten(),
            decreases events@.len() - i,
        {
            let mut lines: Vec<StraightPathEvent<T>> = match events[i] {
                PathEvent::Begin { at } => {
                    let lines = vec![StraightPathEvent::Begin { at }];
                    assert(lines@ =~= seq![StraightPathEvent::Begin { at }]);
                    lines
                },
                PathEvent::End { first, last, close } => {
                    let lines = vec![StraightPathEvent::End { first, last, close }];
                    assert(lines@ =~= seq![StraightPathEvent::End { first, last, close }]);
                    lines
                },
                PathEvent::Line { from, to } => {
                    let lines = vec![StraightPathEvent::Line { from, to }];
                    assert(lines@ =~= seq![StraightPathEvent::Line { from, to }]);
                    lines
                },
                PathEvent::Quadratic { from, control, to } => {
                    let points = quadratic(QuadraticBezier::new(from, control, to));
                    let lines = join_points(&points);
                    assert(call_ensures(quadratic, (QuadraticBezier { from, control, to },), points)
                        && lines@ == joined(points@));
                    lines
                },
                PathEvent::Cubic { from, control1, control2, to } => {
                    let points = cubic(CubicBezier::new(from, control1, control2, to));
                    let lines = join_points(&points);
                    assert(call_ensures(
                        cubic,
                        (CubicBezier { from, control1, control2, to },),
                        points,
                    ) && lines@ == joined(points@));
                    lines
                },
            };
            proof {
                let part = lines@;
                assert(straightened(events@[i as int], quadratic, cubic, part));
                let before = parts;
                parts = parts.push(part);
                assert(parts.drop_last() == before);
                assert(parts.flatten() == before.flatten() + part) by {
                    before.lemma_flatten_push(part);
                }
            }
            out.append(&mut lines);
            i += 1;
        }
        Flattened { events: out }
    }

    /// The walk along this path as events of a general path.
    pub fn path_iter(self) -> (r: FlattenedPathIter<T>)
        ensures
            r.path.events == self.events,
            r.position == 0,
    {
        FlattenedPathIter { path: self, position: 0 }
    }
}

impl<T: Copy> FlattenedPathIter<T> {
    /// The next event of the walk, or none at its end.
    pub fn next(&mut self) -> (r: Option<PathEvent<T>>)
        requires
            old(self).position <= old(self).path.events@.len(),
        ensures
            final(self).path.events == old(self).path.events,
            final(self).position <= final(self).path.events@.len(),
            r == (if old(self).position < old(self).path.events@.len() {
                Some(super::widened(old(self).path.events@[old(self).position as int]))
            } else {
                None
            }),
            final(self).position == (if old(self).position < old(self).path.events@.len() {
                old(self).position + 1
            } else {
                old(self).position as int
            }),
    {
        if self.position < self.path.events.len() {
            let event = self.path.events[self.position];
            self.position = self.position + 1;
            Some(PathEvent::from(event))
        } else {
            None
        }
    }
}

} // verus!
