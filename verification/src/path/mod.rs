//! Paths: sequences of lines and curves.

pub mod buffer;
pub mod flatten;
pub mod line_segments;
pub mod shape;

pub use buffer::{PathBuffer, Verb};
pub use flatten::Flattened;
pub use line_segments::LineSegments;

use crate::box2d::Box;
use crate::curve::cubic::CubicBezier;
use crate::curve::quad::QuadraticBezier;
use crate::line::{LineSegment, NhLineSegment};
use crate::num::{Real, Zero};
use crate::point::Point;
use crate::rect::Rect;
use crate::trapezoid::Trapezoid;
use crate::triangle::Triangle;
use crate::ApproxEq;
use core::ops::Add;
use vstd::prelude::*;
use vstd::std_specs::ops::AddSpec;

verus! {

/// An event that occurs along a path.
#[derive(Debug)]
pub enum PathEvent<T: Copy> {
    /// The path begins at the given point.
    Begin {
        /// The point at which the path begins.
        at: Point<T>,
    },
    /// A straight line.
    Line {
        /// The point at which the line starts.
        from: Point<T>,
        /// The point at which the line ends.
        to: Point<T>,
    },
    /// A quadratic Bezier curve.
    Quadratic {
        /// The point at which the curve starts.
        from: Point<T>,
        /// The control point of the curve.
        control: Point<T>,
        /// The point at which the curve ends.
        to: Point<T>,
    },
    /// A cubic Bezier curve.
    Cubic {
        /// The point at which the curve starts.
        from: Point<T>,
        /// The first control point of the curve.
        control1: Point<T>,
        /// The second control point of the curve.
        control2: Point<T>,
        /// The point at which the curve ends.
        to: Point<T>,
    },
    /// The path ends.
    End {
        /// The first point of the path.
        first: Point<T>,
        /// The last point of the path.
        last: Point<T>,
        /// Whether the path is closed by a line from the last point to the
        /// first.
        close: bool,
    },
}

impl<T: Copy> Clone for PathEvent<T> {
    fn clone(&self) -> (r: Self)
        ensures
            r == *self,
    {
        *self
    }
}

impl<T: Copy> Copy for PathEvent<T> {

}

/// An event that occurs along a path that contains only straight lines.
#[derive(Debug)]
pub enum StraightPathEvent<T: Copy> {
    /// The path begins at the given point.
    Begin {
        /// The point at which the path begins.
        at: Point<T>,
    },
    /// A straight line.
    Line {
        /// The point at which the line starts.
        from: Point<T>,
        /// The point at which the line ends.
        to: Point<T>,
    },
    /// The path ends.
    End {
        /// The first point of the path.
        first: Point<T>,
        /// The last point of the path.
        last: Point<T>,
        /// Whether the path is closed by a line from the last point to the
        /// first.
        close: bool,
    },
}

impl<T: Copy> Clone for StraightPathEvent<T> {
    fn clone(&self) -> (r: Self)
        ensures
            r == *self,
    {
        *self
    }
}

impl<T: Copy> Copy for StraightPathEvent<T> {

}

/// The event of a general path that says what the straight event says.
pub open spec fn widened<T: Copy>(value: StraightPathEvent<T>) -> PathEvent<T> {
    match value {
        StraightPathEvent::Begin { at } => PathEvent::Begin { at },
        StraightPathEvent::Line { from, to } => PathEvent::Line { from, to },
        StraightPathEvent::End { first, last, close } => PathEvent::End { first, last, close },
    }
}

impl<T: Copy> From<StraightPathEvent<T>> for PathEvent<T> {
    fn from(value: StraightPathEvent<T>) -> (r: Self) {
        match value {
            StraightPathEvent::Begin { at } => PathEvent::Begin { at },
            StraightPathEvent::Line { from, to } => PathEvent::Line { from, to },
            StraightPathEvent::End { first, last, close } => PathEvent::End { first, last, close },
        }
    }
}

impl<T: Copy> vstd::std_specs::convert::FromSpecImpl<StraightPathEvent<T>> for PathEvent<T> {
    open spec fn obeys_from_spec() -> bool {
        true
    }

    open spec fn from_spec(value: StraightPathEvent<T>) -> Self {
        widened(value)
    }
}

/// The event runs along an axis: a line, or the line that closes a path,
/// whose ends agree in one coordinate, within the tolerance. Where a path
/// begins and where it ends without being closed, nothing runs at all;
/// curves do not run along an axis.
pub open spec fn along_axis<T: Copy + ApproxEq>(event: PathEvent<T>) -> bool {
    match event {
        PathEvent::Begin { .. } => true,
        PathEvent::End { first, last, close } => !close || last.x.approx_eq_spec(&first.x)
            || last.y.approx_eq_spec(&first.y),
        PathEvent::Line { from, to } => from.x.approx_eq_spec(&to.x) || from.y.approx_eq_spec(
            &to.y,
        ),
        _ => false,
    }
}

/// Tells whether the event runs along an axis.
pub fn runs_along_axis<T: Copy + ApproxEq>(event: &PathEvent<T>) -> (r: bool)
    ensures
        r == along_axis(*event),
{
    match event {
        PathEvent::Begin { .. } => true,
        PathEvent::End { first, last, close } => {
            if *close {
                last.x.approx_eq(&first.x) || last.y.approx_eq(&first.y)
            } else {
                true
            }
        },
        PathEvent::Line { from, to } => from.x.approx_eq(&to.x) || from.y.approx_eq(&to.y),
        _ => false,
    }
}

/// Tells whether every event runs along an axis.
pub fn all_along_axis<T: Copy + ApproxEq>(events: &Vec<PathEvent<T>>) -> (r: bool)
    ensures
        r == (forall|i: int| 0 <= i < events@.len() ==> along_axis(#[trigger] events@[i])),
{
    let mut i: usize = 0;
    while i < events.len()
        invariant
            0 <= i <= events@.len(),
            forall|k: int| 0 <= k < i ==> along_axis(#[trigger] events@[k]),
        decreases events@.len() - i,
    {
        if !runs_along_axis(&events[i]) {
            return false;
        }
        i += 1;
    }
    true
}

/// A path that consists of a series of lines and curves.
pub trait Path<T: Copy>: Sized {
    /// The events of the path can be told: the arithmetic that it takes is
    /// defined.
    spec fn traceable(self) -> bool;

    /// The events of the path, in order.
    spec fn events(self) -> Seq<PathEvent<T>>;

    /// What `rectilinear` tells of the path.
    spec fn is_rectilinear(self) -> bool where T: ApproxEq;

    /// Get the events of this path.
    fn path_iter(self) -> (r: Vec<PathEvent<T>>)
        requires
            self.traceable(),
        ensures
            r@ == self.events(),
    ;

    /// Tell whether this path is rectilinear: whether it is made of lines
    /// along the axes.
    fn rectilinear(self) -> (r: bool) where T: ApproxEq
        requires
            self.traceable(),
        ensures
            r == self.is_rectilinear(),
    ;
}

/// The events of a path that is one straight line.
pub open spec fn single_line<T: Copy>(from: Point<T>, to: Point<T>) -> Seq<PathEvent<T>> {
    seq![
        PathEvent::Begin { at: from },
        PathEvent::Line { from, to },
        PathEvent::End { last: to, first: from, close: false },
    ]
}

impl<T: Copy> Path<T> for LineSegment<T> {
    open spec fn traceable(self) -> bool {
        true
    }

    open spec fn events(self) -> Seq<PathEvent<T>> {
        single_line(self.from, self.to)
    }

    open spec fn is_rectilinear(self) -> bool where T: ApproxEq {
        self.from.x.approx_eq_spec(&self.to.x) || self.from.y.approx_eq_spec(&self.to.y)
    }

    fn rectilinear(self) -> (r: bool) where T: ApproxEq {
        self.from.x().approx_eq(&self.to.x()) || self.from.y().approx_eq(&self.to.y())
    }

    fn path_iter(self) -> (r: Vec<PathEvent<T>>) {
        let r = vec![
            PathEvent::Begin { at: self.from },
            PathEvent::Line { from: self.from, to: self.to },
            PathEvent::End { last: self.to, first: self.from, close: false },
        ];
        assert(r@ =~= self.events());
        r
    }
}

/// The events of the closed path around four corners.
pub open spec fn around<T: Copy>(
    a: Point<T>,
    b: Point<T>,
    c: Point<T>,
    d: Point<T>,
) -> Seq<PathEvent<T>> {
    seq![
        PathEvent::Begin { at: a },
        PathEvent::Line { from: a, to: b },
        PathEvent::Line { from: b, to: c },
        PathEvent::Line { from: c, to: d },
        PathEvent::End { last: d, first: a, close: true },
    ]
}

/// The events of the closed path around four corners.
pub fn path_around<T: Copy>(a: Point<T>, b: Point<T>, c: Point<T>, d: Point<T>) -> (r: Vec<
    PathEvent<T>,
>)
    ensures
        r@ == around(a, b, c, d),
{
    let r = vec![
        PathEvent::Begin { at: a },
        PathEvent::Line { from: a, to: b },
        PathEvent::Line { from: b, to: c },
        PathEvent::Line { from: c, to: d },
        PathEvent::End { last: d, first: a, close: true },
    ];
    assert(r@ =~= around(a, b, c, d));
    r
}

impl<T: Copy> Path<T> for Box<T> {
    open spec fn traceable(self) -> bool {
        true
    }

    open spec fn is_rectilinear(self) -> bool where T: ApproxEq {
        true
    }

    fn rectilinear(self) -> (r: bool) where T: ApproxEq {
        true
    }

    open spec fn events(self) -> Seq<PathEvent<T>> {
        around(
            self.min,
            Point { x: self.min.x, y: self.max.y },
            self.max,
            Point { x: self.max.x, y: self.min.y },
        )
    }

    fn path_iter(self) -> (r: Vec<PathEvent<T>>) {
        path_around(self.min(), self.bottom_right(), self.max(), self.top_left())
    }
}

impl<T: Copy> Path<T> for QuadraticBezier<T> {
    open spec fn traceable(self) -> bool {
        true
    }

    open spec fn is_rectilinear(self) -> bool where T: ApproxEq {
        false
    }

    fn rectilinear(self) -> (r: bool) where T: ApproxEq {
        false
    }

    open spec fn events(self) -> Seq<PathEvent<T>> {
        seq![
            PathEvent::Begin { at: self.from },
            PathEvent::Quadratic { from: self.from, control: self.control, to: self.to },
            PathEvent::End { last: self.to, first: self.from, close: false },
        ]
    }

    fn path_iter(self) -> (r: Vec<PathEvent<T>>) {
        let r = vec![
            PathEvent::Begin { at: self.from },
            PathEvent::Quadratic { from: self.from, control: self.control, to: self.to },
            PathEvent::End { last: self.to, first: self.from, close: false },
        ];
        assert(r@ =~= self.events());
        r
    }
}

impl<T: Copy> Path<T> for CubicBezier<T> {
    open spec fn traceable(self) -> bool {
        true
    }

    open spec fn is_rectilinear(self) -> bool where T: ApproxEq {
        false
    }

    fn rectilinear(self) -> (r: bool) where T: ApproxEq {
        false
    }

    open spec fn events(self) -> Seq<PathEvent<T>> {
        seq![
            PathEvent::Begin { at: self.from },
            PathEvent::Cubic {
                from: self.from,
                control1: self.control1,
                control2: self.control2,
                to: self.to,
            },
            PathEvent::End { last: self.to, first: self.from, close: false },
        ]
    }

    fn path_iter(self) -> (r: Vec<PathEvent<T>>) {
        let r = vec![
            PathEvent::Begin { at: self.from },
            PathEvent::Cubic {
                from: self.from,
                control1: self.control1,
                control2: self.control2,
                to: self.to,
            },
            PathEvent::End { last: self.to, first: self.from, close: false },
        ];
        assert(r@ =~= self.events());
        r
    }
}

impl<T: Copy + Add<Output = T> + Zero> Path<T> for Rect<T> {
    open spec fn traceable(self) -> bool {
        &&& T::obeys_add_spec()
        &&& self.origin.x.add_req(self.size.width)
        &&& self.origin.y.add_req(self.size.height)
    }

    open spec fn events(self) -> Seq<PathEvent<T>> {
        around(
            self.origin,
            Point { x: self.origin.x, y: self.far_corner().y },
            self.far_corner(),
            Point { x: self.far_corner().x, y: self.origin.y },
        )
    }

    open spec fn is_rectilinear(self) -> bool where T: ApproxEq {
        true
    }

    fn path_iter(self) -> (r: Vec<PathEvent<T>>) {
        self.to_box().path_iter()
    }

    fn rectilinear(self) -> (r: bool) where T: ApproxEq {
        true
    }
}

impl<T: Copy> Path<T> for Triangle<T> {
    open spec fn traceable(self) -> bool {
        true
    }

    open spec fn events(self) -> Seq<PathEvent<T>> {
        seq![
            PathEvent::Begin { at: self.a },
            PathEvent::Line { from: self.a, to: self.b },
            PathEvent::Line { from: self.b, to: self.c },
            PathEvent::End { last: self.c, first: self.a, close: true },
        ]
    }

    open spec fn is_rectilinear(self) -> bool where T: ApproxEq {
        false
    }

    fn path_iter(self) -> (r: Vec<PathEvent<T>>) {
        let r = vec![
            PathEvent::Begin { at: self.a },
            PathEvent::Line { from: self.a, to: self.b },
            PathEvent::Line { from: self.b, to: self.c },
            PathEvent::End { last: self.c, first: self.a, close: true },
        ];
        assert(r@ =~= self.events());
        r
    }

    fn rectilinear(self) -> (r: bool) where T: ApproxEq {
        false
    }
}

impl<T: Real + ApproxEq> Path<T> for Trapezoid<T> {
    open spec fn traceable(self) -> bool {
        !self.left.horizontal() && !self.right.horizontal()
    }

    open spec fn events(self) -> Seq<PathEvent<T>> {
        around(
            self.level(self.top).from,
            self.level(self.top).to,
            self.level(self.bottom).to,
            self.level(self.bottom).from,
        )
    }

    open spec fn is_rectilinear(self) -> bool {
        self.left.vertical() && self.right.vertical()
    }

    fn path_iter(self) -> (r: Vec<PathEvent<T>>) {
        let top = self.top_segment();
        let bottom = self.bottom_segment();
        path_around(top.from(), top.to(), bottom.to(), bottom.from())
    }

    fn rectilinear(self) -> (r: bool) {
        self.left.is_vertical() && self.right.is_vertical()
    }
}

impl<T: Real + ApproxEq> Path<T> for NhLineSegment<T> {
    open spec fn traceable(self) -> bool {
        self.wf()
    }

    open spec fn events(self) -> Seq<PathEvent<T>> {
        single_line(self.end_points().0, self.end_points().1)
    }

    open spec fn is_rectilinear(self) -> bool {
        self.end_points().0.x.approx_eq_spec(&self.end_points().1.x)
            || self.end_points().0.y.approx_eq_spec(&self.end_points().1.y)
    }

    fn path_iter(self) -> (r: Vec<PathEvent<T>>) {
        self.to_segment().path_iter()
    }

    fn rectilinear(self) -> (r: bool) {
        self.to_segment().rectilinear()
    }
}

/// The events of the first `k` of the paths, one path after the other.
pub open spec fn connected<T: Copy, P: Path<T>>(paths: Seq<P>, k: nat) -> Seq<PathEvent<T>>
    decreases k,
{
    if k == 0 {
        Seq::empty()
    } else {
        connected(paths, (k - 1) as nat) + paths[k - 1].events()
    }
}

/// The events of a series of paths, one path after the other.
pub fn connect<T: Copy, P: Path<T> + Copy>(paths: &Vec<P>) -> (r: Vec<PathEvent<T>>)
    requires
        forall|i: int| 0 <= i < paths@.len() ==> (#[trigger] paths@[i]).traceable(),
    ensures
        r@ == connected(paths@, paths@.len()),
{
    let mut out: Vec<PathEvent<T>> = Vec::new();
    let mut i: usize = 0;
    while i < paths.len()
        invariant
            0 <= i <= paths@.len(),
            forall|k: int| 0 <= k < paths@.len() ==> (#[trigger] paths@[k]).traceable(),
            out@ == connected(paths@, i as nat),
        decreases paths@.len() - i,
    {
        let mut events = paths[i].path_iter();
        out.append(&mut events);
        i += 1;
    }
    out
}

} // verus!
