//! Regions: unions of boxes.

use crate::box2d::Box;
use crate::num::Zero;
use crate::rect::Rect;
use core::marker::PhantomData;
use core::ops::Add;
use vstd::prelude::*;
use vstd::std_specs::ops::AddSpec;

verus! {

/// A region: the union of a series of boxes.
pub trait Region<T: Copy> {
    /// The boxes of the region can be told: the arithmetic that it takes
    /// is defined.
    spec fn measurable(self) -> bool;

    /// The boxes of the region, in order.
    spec fn boxes(self) -> Seq<Box<T>>;

    /// Get the boxes of this region.
    fn boxes_iter(self) -> (r: BoxIter<T>)
        requires
            self.measurable(),
        ensures
            r.boxes@ == self.boxes(),
            r.position == 0,
    ;
}

/// The walk along the boxes of a region.
pub struct BoxIter<T: Copy> {
    /// The boxes of the region.
    pub boxes: Vec<Box<T>>,
    /// The number of boxes that the walk has passed.
    pub position: usize,
}

impl<T: Copy> BoxIter<T> {
    /// The next box of the walk, or none at its end.
    pub fn next(&mut self) -> (r: Option<Box<T>>)
        requires
            old(self).position <= old(self).boxes@.len(),
        ensures
            final(self).boxes == old(self).boxes,
            final(self).position <= final(self).boxes@.len(),
            r == (if old(self).position < old(self).boxes@.len() {
                Some(old(self).boxes@[old(self).position as int])
            } else {
                None
            }),
            final(self).position == (if old(self).position < old(self).boxes@.len() {
                old(self).position + 1
            } else {
                old(self).position as int
            }),
    {
        if self.position < self.boxes.len() {
            let next = self.boxes[self.position];
            self.position = self.position + 1;
            Some(next)
        } else {
            None
        }
    }

    /// The boxes that are left, counted exactly.
    pub fn size_hint(&self) -> (r: (usize, Option<usize>))
        requires
            self.position <= self.boxes@.len(),
        ensures
            r == (
                (self.boxes@.len() - self.position) as usize,
                Some((self.boxes@.len() - self.position) as usize),
            ),
    {
        let left = self.boxes.len() - self.position;
        (left, Some(left))
    }

    /// The number of boxes that are left.
    pub fn count(self) -> (r: usize)
        requires
            self.position <= self.boxes@.len(),
        ensures
            r == self.boxes@.len() - self.position,
    {
        self.boxes.len() - self.position
    }

    /// The last of the boxes that are left.
    pub fn last(self) -> (r: Option<Box<T>>)
        requires
            self.position <= self.boxes@.len(),
        ensures
            r == (if self.position < self.boxes@.len() {
                Some(self.boxes@[self.boxes@.len() - 1])
            } else {
                None
            }),
    {
        if self.position < self.boxes.len() {
            Some(self.boxes[self.boxes.len() - 1])
        } else {
            None
        }
    }

    /// Passes `n` boxes and returns the next; ends the walk where fewer
    /// are left.
    pub fn nth(&mut self, n: usize) -> (r: Option<Box<T>>)
        requires
            old(self).position <= old(self).boxes@.len(),
        ensures
            final(self).boxes == old(self).boxes,
            final(self).position <= final(self).boxes@.len(),
            r == (if old(self).position + n < old(self).boxes@.len() {
                Some(old(self).boxes@[old(self).position + n])
            } else {
                None
            }),
            final(self).position == (if old(self).position + n < old(self).boxes@.len() {
                old(self).position + n + 1
            } else {
                old(self).boxes@.len() as int
            }),
    {
        if n < self.boxes.len() - self.position {
            let next = self.boxes[self.position + n];
            self.position = self.position + n + 1;
            Some(next)
        } else {
            self.position = self.boxes.len();
            None
        }
    }
}

impl<T: Copy> Region<T> for Vec<Box<T>> {
    open spec fn measurable(self) -> bool {
        true
    }

    open spec fn boxes(self) -> Seq<Box<T>> {
        self@
    }

    fn boxes_iter(self) -> (r: BoxIter<T>) {
        BoxIter { boxes: self, position: 0 }
    }
}

/// A region that is completely empty.
#[derive(Debug)]
pub struct Empty<T: Copy>(pub PhantomData<T>);

impl<T: Copy> Empty<T> {
    /// Create a new empty region.
    pub fn new() -> (r: Self) {
        Empty(PhantomData)
    }
}

impl<T: Copy> Region<T> for Empty<T> {
    open spec fn measurable(self) -> bool {
        true
    }

    open spec fn boxes(self) -> Seq<Box<T>> {
        Seq::empty()
    }

    fn boxes_iter(self) -> (r: BoxIter<T>) {
        BoxIter { boxes: Vec::new(), position: 0 }
    }
}

/// Create a new empty region.
pub fn empty<T: Copy>() -> (r: Empty<T>) {
    Empty::new()
}

/// A region that is made of a single box.
#[derive(Debug)]
pub struct Single<T: Copy>(pub Box<T>);

impl<T: Copy> Single<T> {
    /// Create a new region made of a single box.
    pub fn new(box_: Box<T>) -> (r: Self)
        ensures
            r.0 == box_,
    {
        Single(box_)
    }
}

impl<T: Copy> Region<T> for Single<T> {
    open spec fn measurable(self) -> bool {
        true
    }

    open spec fn boxes(self) -> Seq<Box<T>> {
        seq![self.0]
    }

    fn boxes_iter(self) -> (r: BoxIter<T>) {
        let boxes = vec![self.0];
        assert(boxes@ =~= seq![self.0]);
        BoxIter { boxes, position: 0 }
    }
}

/// Create a new region made of a single box.
pub fn single<T: Copy>(box_: Box<T>) -> (r: Single<T>)
    ensures
        r.0 == box_,
{
    Single::new(box_)
}

/// A region that is made of a series of rectangles.
pub struct Rects<T: Copy> {
    /// The rectangles of the region.
    pub iter: Vec<Rect<T>>,
}

/// The walk along the rectangles of a region, as boxes.
pub struct RectsIter<T: Copy> {
    /// The rectangles of the region.
    pub iter: Vec<Rect<T>>,
    /// The number of rectangles that the walk has passed.
    pub position: usize,
}

/// The box of a rectangle: from its origin to the origin moved by the
/// size.
pub open spec fn box_of<T: Copy + Add<Output = T>>(rect: Rect<T>) -> Box<T> {
    Box { min: rect.origin, max: rect.far_corner() }
}

/// The rectangle can be turned into a box.
pub open spec fn boxable<T: Copy + Add<Output = T>>(rect: Rect<T>) -> bool {
    &&& T::obeys_add_spec()
    &&& rect.origin.x.add_req(rect.size.width)
    &&& rect.origin.y.add_req(rect.size.height)
}

impl<T: Copy + Zero + Add<Output = T>> RectsIter<T> {
    /// The box of the next rectangle of the walk, or none at its end.
    pub fn next(&mut self) -> (r: Option<Box<T>>)
        requires
            old(self).position <= old(self).iter@.len(),
            forall|i: int| 0 <= i < old(self).iter@.len() ==> boxable(#[trigger] old(self).iter@[i]),
        ensures
            final(self).iter == old(self).iter,
            final(self).position <= final(self).iter@.len(),
            r == (if old(self).position < old(self).iter@.len() {
                Some(box_of(old(self).iter@[old(self).position as int]))
            } else {
                None
            }),
            final(self).position == (if old(self).position < old(self).iter@.len() {
                old(self).position + 1
            } else {
                old(self).position as int
            }),
    {
        if self.position < self.iter.len() {
            let next = self.iter[self.position];
            self.position = self.position + 1;
            Some(next.to_box())
        } else {
            None
        }
    }

    /// The rectangles that are left, counted exactly.
    pub fn size_hint(&self) -> (r: (usize, Option<usize>))
        requires
            self.position <= self.iter@.len(),
        ensures
            r == (
                (self.iter@.len() - self.position) as usize,
                Some((self.iter@.len() - self.position) as usize),
            ),
    {
        let left = self.iter.len() - self.position;
        (left, Some(left))
    }
}

impl<T: Copy + Zero + Add<Output = T>> Rects<T> {
    /// The walk along the rectangles of the region, as boxes.
    pub fn rects_iter(self) -> (r: RectsIter<T>)
        ensures
            r.iter == self.iter,
            r.position == 0,
    {
        RectsIter { iter: self.iter, position: 0 }
    }
}

impl<T: Copy + Zero + Add<Output = T>> Region<T> for Rects<T> {
    open spec fn measurable(self) -> bool {
        forall|i: int| 0 <= i < self.iter@.len() ==> boxable(#[trigger] self.iter@[i])
    }

    open spec fn boxes(self) -> Seq<Box<T>> {
        Seq::new(self.iter@.len(), |i: int| box_of(self.iter@[i]))
    }

    fn boxes_iter(self) -> (r: BoxIter<T>) {
        let mut boxes: Vec<Box<T>> = Vec::new();
        let mut i: usize = 0;
        while i < self.iter.len()
            invariant
                0 <= i <= self.iter@.len(),
                forall|k: int| 0 <= k < self.iter@.len() ==> boxable(#[trigger] self.iter@[k]),
                boxes@.len() == i,
                forall|k: int| 0 <= k < i ==> #[trigger] boxes@[k] == box_of(self.iter@[k]),
            decreases self.iter@.len() - i,
        {
            boxes.push(self.iter[i].to_box());
            i += 1;
        }
        assert(boxes@ =~= self.boxes());
        BoxIter { boxes, position: 0 }
    }
}

/// Create a new region that is made of a series of rectangles.
pub fn rects<T: Copy + Zero>(iter: Vec<Rect<T>>) -> (r: Rects<T>)
    ensures
        r.iter == iter,
{
    Rects { iter }
}

} // verus!
