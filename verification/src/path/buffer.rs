//! A path kept as a first point and a buffer of points with verbs.

use super::{all_along_axis, along_axis, Path, PathEvent};
use crate::ApproxEq;
use crate::point::Point;
use vstd::prelude::*;

verus! {

/// What leads to a point of a path buffer.
#[derive(Debug)]
pub enum Verb<T: Copy> {
    /// A new subpath begins at the point; the subpath before it ends.
    Begin {
        /// Whether the subpath that ends is closed.
        close: bool,
    },
    /// A straight line leads to the point.
    Line,
    /// A quadratic Bezier curve leads to the point.
    Quadratic {
        /// The control point of the curve.
        control: Point<T>,
    },
    /// A cubic Bezier curve leads to the point.
    Cubic {
        /// The first control point of the curve.
        control1: Point<T>,
        /// The second control point of the curve.
        control2: Point<T>,
    },
}

impl<T: Copy> Clone for Verb<T> {
    fn clone(&self) -> (r: Self)
        ensures
            r == *self,
    {
        *self
    }
}

impl<T: Copy> Copy for Verb<T> {

}

/// A buffer that contains a path.
pub struct PathBuffer<T: Copy> {
    /// The first point of the path.
    pub first: Point<T>,
    /// The points that follow, each with what leads to it.
    pub buffer: Vec<(Point<T>, Verb<T>)>,
}

/// The walk along the events of a path buffer.
pub struct PathBufferIterator<T: Copy> {
    /// The point that the walk has reached.
    pub last: Point<T>,
    /// The point at which the current subpath began.
    pub begin: Point<T>,
    /// Whether the walk has yet to begin.
    pub is_first: bool,
    /// The buffer that is walked along.
    pub remaining: Vec<(Point<T>, Verb<T>)>,
    /// The number of entries of the buffer that the walk has passed.
    pub position: usize,
    /// The event that begins a new subpath, until it has been handed out.
    pub begin_event: Option<PathEvent<T>>,
}

/// The entry of a path buffer that stands for an event, given whether the
/// subpath before it was closed; none for the end of a subpath.
pub open spec fn encoded<T: Copy>(event: PathEvent<T>, close: bool) -> Option<(Point<T>, Verb<T>)> {
    match event {
        PathEvent::Begin { at } => Some((at, Verb::Begin { close })),
        PathEvent::Line { to, .. } => Some((to, Verb::Line)),
        PathEvent::Quadratic { control, to, .. } => Some((to, Verb::Quadratic { control })),
        PathEvent::Cubic { control1, control2, to, .. } => Some(
            (to, Verb::Cubic { control1, control2 }),
        ),
        PathEvent::End { .. } => None,
    }
}

/// Whether the last subpath that ends among the first `k` events is
/// closed; false where none ends.
pub open spec fn closing<T: Copy>(events: Seq<PathEvent<T>>, k: nat) -> bool
    decreases k,
{
    if k == 0 {
        false
    } else {
        match events[k - 1] {
            PathEvent::End { close, .. } => close,
            _ => closing(events, (k - 1) as nat),
        }
    }
}

/// The entries of a path buffer that stand for the first `k` events.
pub open spec fn packed<T: Copy>(events: Seq<PathEvent<T>>, k: nat) -> Seq<(Point<T>, Verb<T>)>
    decreases k,
{
    if k == 0 {
        Seq::empty()
    } else {
        let earlier = packed(events, (k - 1) as nat);
        match encoded(events[k - 1], closing(events, (k - 1) as nat)) {
            Some(entry) => earlier.push(entry),
            None => earlier,
        }
    }
}

/// The event that the entry of a path buffer stands for, given the point
/// that the walk has reached and the point at which the subpath began. An
/// entry that begins a subpath stands for the end of the one before it.
pub open spec fn parsed<T: Copy>(last: Point<T>, begin: Point<T>, to: Point<T>, verb: Verb<T>) -> PathEvent<
    T,
> {
    match verb {
        Verb::Begin { close } => PathEvent::End { first: begin, last, close },
        Verb::Line => PathEvent::Line { from: last, to },
        Verb::Quadratic { control } => PathEvent::Quadratic { from: last, control, to },
        Verb::Cubic { control1, control2 } => PathEvent::Cubic {
            from: last,
            control1,
            control2,
            to,
        },
    }
}

/// The events that the first `k` entries of a path buffer stand for, after
/// the event that begins the path at `first`.
pub open spec fn unpacked<T: Copy>(first: Point<T>, buffer: Seq<(Point<T>, Verb<T>)>, k: nat) -> Seq<
    PathEvent<T>,
>
    decreases k,
{
    if k == 0 {
        seq![PathEvent::Begin { at: first }]
    } else {
        let earlier = unpacked(first, buffer, (k - 1) as nat);
        let (to, verb) = buffer[k - 1];
        let last = if k == 1 {
            first
        } else {
            buffer[k - 2].0
        };
        let event = parsed(last, subpath_start(first, buffer, (k - 1) as nat), to, verb);
        match verb {
            Verb::Begin { .. } => earlier.push(event).push(PathEvent::Begin { at: to }),
            _ => earlier.push(event),
        }
    }
}

/// The point at which the subpath began that the walk is in after the
/// first `k` entries.
pub open spec fn subpath_start<T: Copy>(
    first: Point<T>,
    buffer: Seq<(Point<T>, Verb<T>)>,
    k: nat,
) -> Point<T>
    decreases k,
{
    if k == 0 {
        first
    } else {
        match buffer[k - 1].1 {
            Verb::Begin { .. } => buffer[k - 1].0,
            _ => subpath_start(first, buffer, (k - 1) as nat),
        }
    }
}

impl<T: Copy> PathBuffer<T> {
    /// Create a new path buffer from a first point and a buffer.
    pub fn new(first: Point<T>, buffer: Vec<(Point<T>, Verb<T>)>) -> (r: Self)
        ensures
            r.first == first,
            r.buffer == buffer,
    {
        PathBuffer { first, buffer }
    }

    /// Create the path buffer that holds a series of events. The series
    /// starts with the event that begins a path.
    pub fn from_events(events: &Vec<PathEvent<T>>) -> (r: Self)
        requires
            events@.len() > 0,
            events@[0] is Begin,
        ensures
            r.first == events@[0]->Begin_at,
            r.buffer@ == packed(events@.subrange(1, events@.len() as int), (events@.len() - 1) as nat),
    {
        // Take the first point, if applicable.
        let first = match events[0] {
            PathEvent::Begin { at } => at,
            _ => vstd::pervasive::unreached(),
        };
        let ghost rest = events@.subrange(1, events@.len() as int);

        // Take the remaining points.
        let mut close_begin = false;
        let mut buffer: Vec<(Point<T>, Verb<T>)> = Vec::new();
        let mut i: usize = 1;
        while i < events.len()
            invariant
                1 <= i <= events@.len(),
                rest == events@.subrange(1, events@.len() as int),
                close_begin == closing(rest, (i - 1) as nat),
                buffer@ == packed(rest, (i - 1) as nat),
            decreases events@.len() - i,
        {
            assert(rest[i - 1] == events@[i as int]);
            match events[i] {
                PathEvent::Begin { at } => {
                    buffer.push((at, Verb::Begin { close: close_begin }));
                },
                PathEvent::Line { to, .. } => {
                    buffer.push((to, Verb::Line));
                },
                PathEvent::Quadratic { control, to, .. } => {
                    buffer.push((to, Verb::Quadratic { control }));
                },
                PathEvent::Cubic { control1, control2, to, .. } => {
                    buffer.push((to, Verb::Cubic { control1, control2 }));
                },
                PathEvent::End { close, .. } => {
                    close_begin = close;
                },
            }
            i += 1;
        }
        PathBuffer { first, buffer }
    }
}

impl<T: Copy> PathBufferIterator<T> {
    /// The walk along the given path buffer, before its first event.
    pub fn new(path: PathBuffer<T>) -> (r: Self)
        ensures
            r.last == path.first,
            r.begin == path.first,
            r.is_first,
            r.remaining == path.buffer,
            r.position == 0,
            r.begin_event.is_none(),
    {
        PathBufferIterator {
            last: path.first,
            begin: path.first,
            is_first: true,
            remaining: path.buffer,
            position: 0,
            begin_event: None,
        }
    }

    /// The event that the entry `(to, verb)` stands for. The walk moves on
    /// to `to`; where the entry begins a subpath, the event that begins it
    /// is kept to be handed out next.
    #[inline]
    pub fn parse_verb(&mut self, to: Point<T>, verb: Verb<T>) -> (r: PathEvent<T>)
        ensures
            r == parsed(old(self).last, old(self).begin, to, verb),
            final(self).last == to,
            final(self).begin == (if verb is Begin {
                to
            } else {
                old(self).begin
            }),
            final(self).begin_event == (if verb is Begin {
                Some(PathEvent::Begin { at: to })
            } else {
                old(self).begin_event
            }),
            final(self).is_first == old(self).is_first,
            final(self).remaining == old(self).remaining,
            final(self).position == old(self).position,
    {
        let from = self.last;
        self.last = to;
        match verb {
            Verb::Begin { close } => {
                // Set the end event.
                self.begin_event = Some(PathEvent::Begin { at: to });
                let first = self.begin;
                self.begin = to;
                PathEvent::End { first, last: from, close }
            },
            Verb::Line => PathEvent::Line { from, to },
            Verb::Quadratic { control } => PathEvent::Quadratic { from, control, to },
            Verb::Cubic { control1, control2 } => PathEvent::Cubic { from, control1, control2, to },
        }
    }

    /// The next event of the walk.
    ///
    /// An event that begins a subpath and is still kept comes first. A walk
    /// that has yet to begin begins the path. Else the next entry of the
    /// buffer is parsed, and a walk that has passed all entries ends.
    #[inline]
    pub fn next(&mut self) -> (r: Option<PathEvent<T>>)
        requires
            old(self).position <= old(self).remaining@.len(),
        ensures
            final(self).position <= final(self).remaining@.len(),
            final(self).remaining == old(self).remaining,
            match old(self).begin_event {
                Some(event) => r == Some(event) && final(self).begin_event.is_none() && final(self).is_first == old(self).is_first && final(self).position == old(self).position
                    && final(self).last == old(self).last && final(self).begin == old(self).begin,
                None => if old(self).is_first {
                    r == Some(PathEvent::Begin { at: old(self).last }) && !final(self).is_first
                        && final(self).position == old(self).position && final(self).last == old(self).last && final(self).begin == old(self).begin && final(self).begin_event.is_none()
                } else if old(self).position < old(self).remaining@.len() {
                    let (to, verb) = old(self).remaining@[old(self).position as int];
                    &&& r == Some(parsed(old(self).last, old(self).begin, to, verb))
                    &&& final(self).position == old(self).position + 1
                    &&& final(self).last == to
                    &&& !final(self).is_first
                } else {
                    r.is_none() && final(self).position == old(self).position && final(self).begin_event.is_none()
                },
            },
    {
        if let Some(event) = self.begin_event {
            self.begin_event = None;
            return Some(event);
        }
        if self.is_first {
            self.is_first = false;
            Some(PathEvent::Begin { at: self.last })
        } else if self.position < self.remaining.len() {
            let (to, verb) = self.remaining[self.position];
            self.position = self.position + 1;
            Some(self.parse_verb(to, verb))
        } else {
            None
        }
    }

    /// Bounds on the number of events that are still to come: every entry
    /// that is left gives one event, or two where it begins a subpath.
    pub fn size_hint(&self) -> (r: (usize, Option<usize>))
        requires
            self.position <= self.remaining@.len(),
        ensures
            ({
                let left = self.remaining@.len() - self.position;
                let add: int = (if self.is_first {
                    1int
                } else {
                    0int
                }) + (if self.begin_event.is_some() {
                    1int
                } else {
                    0int
                });
                &&& r.0 == (if left + add <= usize::MAX {
                    left + add
                } else {
                    usize::MAX as int
                })
                &&& r.1 == (if 2 * left + add <= usize::MAX {
                    Some((2 * left + add) as usize)
                } else {
                    None
                })
            }),
    {
        let left = self.remaining.len() - self.position;
        let first: usize = if self.is_first {
            1
        } else {
            0
        };
        let kept: usize = if self.begin_event.is_some() {
            1
        } else {
            0
        };
        let add = first + kept;
        let lo = match left.checked_add(add) {
            Some(sum) => sum,
            None => usize::MAX,
        };
        // The remaining events could all be Begin events which, while incomprehensible,
        // will each yield two events.
        let hi = match left.checked_mul(2) {
            Some(twice) => twice.checked_add(add),
            None => None,
        };
        (lo, hi)
    }
}

impl<T: Copy> Path<T> for PathBuffer<T> {
    open spec fn traceable(self) -> bool {
        true
    }

    open spec fn events(self) -> Seq<PathEvent<T>> {
        unpacked(self.first, self.buffer@, self.buffer@.len())
    }

    open spec fn is_rectilinear(self) -> bool where T: ApproxEq {
        forall|i: int| 0 <= i < self.events().len() ==> along_axis(#[trigger] self.events()[i])
    }

    fn rectilinear(self) -> (r: bool) where T: ApproxEq {
        let events = self.path_iter();
        all_along_axis(&events)
    }

    fn path_iter(self) -> (r: Vec<PathEvent<T>>) {
        let mut out: Vec<PathEvent<T>> = Vec::new();
        out.push(PathEvent::Begin { at: self.first });
        let mut last = self.first;
        let mut begin = self.first;
        let mut i: usize = 0;
        while i < self.buffer.len()
            invariant
                0 <= i <= self.buffer@.len(),
                out@ == unpacked(self.first, self.buffer@, i as nat),
                begin == subpath_start(self.first, self.buffer@, i as nat),
                last == (if i == 0 {
                    self.first
                } else {
                    self.buffer@[i - 1].0
                }),
            decreases self.buffer@.len() - i,
        {
            let (to, verb) = self.buffer[i];
            let event = match verb {
                Verb::Begin { close } => PathEvent::End { first: begin, last, close },
                Verb::Line => PathEvent::Line { from: last, to },
                Verb::Quadratic { control } => PathEvent::Quadratic { from: last, control, to },
                Verb::Cubic { control1, control2 } => PathEvent::Cubic {
                    from: last,
                    control1,
                    control2,
                    to,
                },
            };
            out.push(event);
            if let Verb::Begin { .. } = verb {
                out.push(PathEvent::Begin { at: to });
                begin = to;
            }
            last = to;
            i += 1;
        }
        out
    }
}

} // verus!
