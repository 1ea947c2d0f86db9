//! Points, sizes and rectangles.

use crate::scalar::Coordinate;
use vstd::prelude::*;

verus! {

/// A point of the plane.
#[derive(Clone, Copy, Debug, PartialEq, Eq, Structural)]
pub struct Point<T> {
    pub x: T,
    pub y: T,
}

/// A width and a height.
#[derive(Clone, Copy, Debug, PartialEq, Eq, Structural)]
pub struct Size<T> {
    pub width: T,
    pub height: T,
}

/// A whole number of pixels of a render target or texture.
#[derive(Clone, Copy, Debug, PartialEq, Eq, Structural)]
pub struct DevicePixels(pub i32);

/// A rectangle of device pixels.
#[derive(Clone, Copy, Debug, PartialEq, Eq, Structural)]
pub struct DeviceBounds {
    pub origin: Point<DevicePixels>,
    pub size: Size<DevicePixels>,
}

/// One value per corner.
#[derive(Clone, Copy, Debug, PartialEq, Eq, Structural)]
pub struct Corners<T> {
    pub top_left: T,
    pub top_right: T,
    pub bottom_right: T,
    pub bottom_left: T,
}

/// One value per edge.
#[derive(Clone, Copy, Debug, PartialEq, Eq, Structural)]
pub struct Edges<T> {
    pub top: T,
    pub right: T,
    pub bottom: T,
    pub left: T,
}

/// A rectangle, held by its four edges. It covers what lies strictly between
/// opposite edges, so it is empty unless `left` is below `right` and `top`
/// below `bottom`.
///
/// A rectangle that was given by its origin and size keeps the size too, since
/// the distance of the edges is the size only up to rounding. One that was
/// computed from the edges of others has no size but that distance.
#[derive(Clone, Copy, Debug, PartialEq, Eq, Structural)]
pub struct Bounds<T> {
    pub left: T,
    pub top: T,
    pub right: T,
    pub bottom: T,
    pub extent: Option<Size<T>>,
}

/// The rectangle outside of which a primitive is not painted.
#[derive(Clone, Copy, Debug, PartialEq, Eq, Structural)]
pub struct ContentMask<T> {
    pub bounds: Bounds<T>,
}

/// The coordinate further along the axis.
pub open spec fn further<T: Coordinate>(a: T, b: T) -> T {
    if a.at() < b.at() {
        b
    } else {
        a
    }
}

/// The coordinate nearer to the start of the axis.
pub open spec fn nearer<T: Coordinate>(a: T, b: T) -> T {
    if b.at() < a.at() {
        b
    } else {
        a
    }
}

fn further_of<T: Coordinate>(a: T, b: T) -> (result: T)
    ensures
        result == further(a, b),
{
    if a.rank() < b.rank() {
        b
    } else {
        a
    }
}

fn nearer_of<T: Coordinate>(a: T, b: T) -> (result: T)
    ensures
        result == nearer(a, b),
{
    if b.rank() < a.rank() {
        b
    } else {
        a
    }
}

impl<T: Coordinate> Bounds<T> {
    /// Whether the point of ranks `x` and `y` lies in the rectangle.
    pub open spec fn covers(self, x: int, y: int) -> bool {
        &&& self.left.at() <= x < self.right.at()
        &&& self.top.at() <= y < self.bottom.at()
    }

    /// The rectangle common to two.
    pub open spec fn intersection(self, other: Self) -> Self {
        let left = further(self.left, other.left);
        let top = further(self.top, other.top);
        Bounds {
            left,
            top,
            right: further(nearer(self.right, other.right), left),
            bottom: further(nearer(self.bottom, other.bottom), top),
            extent: None,
        }
    }

    /// The smallest rectangle around two.
    pub open spec fn hull(self, other: Self) -> Self {
        Bounds {
            left: nearer(self.left, other.left),
            top: nearer(self.top, other.top),
            right: further(self.right, other.right),
            bottom: further(self.bottom, other.bottom),
            extent: None,
        }
    }

    /// Whether each rectangle starts before the other ends, on both axes.
    pub open spec fn meets(self, other: Self) -> bool {
        &&& self.left.at() < other.right.at()
        &&& other.left.at() < self.right.at()
        &&& self.top.at() < other.bottom.at()
        &&& other.top.at() < self.bottom.at()
    }

    /// Whether the rectangle has no extent on some axis.
    pub open spec fn flat(self) -> bool {
        self.right.at() <= self.left.at() || self.bottom.at() <= self.top.at()
    }

    /// The rectangle common to two.
    pub fn intersect(&self, other: &Self) -> (result: Self)
        ensures
            result == self.intersection(*other),
    {
        let left = further_of(self.left, other.left);
        let top = further_of(self.top, other.top);
        Bounds {
            left,
            top,
            right: further_of(nearer_of(self.right, other.right), left),
            bottom: further_of(nearer_of(self.bottom, other.bottom), top),
            extent: None,
        }
    }

    /// The smallest rectangle around two.
    pub fn union(&self, other: &Self) -> (result: Self)
        ensures
            result == self.hull(*other),
    {
        Bounds {
            left: nearer_of(self.left, other.left),
            top: nearer_of(self.top, other.top),
            right: further_of(self.right, other.right),
            bottom: further_of(self.bottom, other.bottom),
            extent: None,
        }
    }

    /// Whether the two rectangles overlap.
    pub fn intersects(&self, other: &Self) -> (result: bool)
        ensures
            result == self.meets(*other),
    {
        self.left.rank() < other.right.rank() && other.left.rank() < self.right.rank()
            && self.top.rank() < other.bottom.rank() && other.top.rank() < self.bottom.rank()
    }

    /// Whether the rectangle has no extent on some axis.
    pub fn is_empty(&self) -> (result: bool)
        ensures
            result == self.flat(),
    {
        self.right.rank() <= self.left.rank() || self.bottom.rank() <= self.top.rank()
    }
}

/// Law: an intersection covers exactly what both rectangles cover.
pub proof fn lemma_intersection_covers<T: Coordinate>(a: Bounds<T>, b: Bounds<T>, x: int, y: int)
    ensures
        a.intersection(b).covers(x, y) <==> a.covers(x, y) && b.covers(x, y),
{
}

/// Law: a hull covers whatever either rectangle covers.
pub proof fn lemma_hull_covers<T: Coordinate>(a: Bounds<T>, b: Bounds<T>, x: int, y: int)
    requires
        a.covers(x, y) || b.covers(x, y),
    ensures
        a.hull(b).covers(x, y),
{
}

/// Law: two rectangles with extent overlap exactly when their intersection has
/// extent.
pub proof fn lemma_meets_iff_intersection<T: Coordinate>(a: Bounds<T>, b: Bounds<T>)
    requires
        !a.flat(),
        !b.flat(),
    ensures
        a.meets(b) <==> !a.intersection(b).flat(),
        a.meets(b) == b.meets(a),
{
}

/// Law: a rectangle covers the points from its left and top edges up to, but
/// without, its right and bottom ones; it is flat exactly if there are none.
pub proof fn lemma_covers_nothing_iff_flat<T: Coordinate>(bounds: Bounds<T>)
    ensures
        bounds.flat() <==> forall|x: int, y: int| !(#[trigger] bounds.covers(x, y)),
        forall|x: int, y: int| #[trigger]
            bounds.covers(x, y) <==> bounds.left.at() <= x && x < bounds.right.at()
                && bounds.top.at() <= y && y < bounds.bottom.at(),
{
    if !bounds.flat() {
        assert(bounds.covers(bounds.left.at(), bounds.top.at()));
    }
}

/// Law: two rectangles with extent overlap exactly if they cover a point in
/// common.
pub proof fn lemma_overlapping_share_a_point<T: Coordinate>(a: Bounds<T>, b: Bounds<T>)
    requires
        !a.flat(),
        !b.flat(),
    ensures
        a.meets(b) <==> exists|x: int, y: int| #[trigger] a.covers(x, y) && b.covers(x, y),
{
    let x = if a.left.at() < b.left.at() {
        b.left.at()
    } else {
        a.left.at()
    };
    let y = if a.top.at() < b.top.at() {
        b.top.at()
    } else {
        a.top.at()
    };
    if a.meets(b) {
        assert(a.covers(x, y) && b.covers(x, y));
    }
}

/// Law: a hull reaches exactly as far as the rectangle that reaches furthest, on
/// every side, and no intersection reaches further than either rectangle.
pub proof fn lemma_hull_is_tight<T: Coordinate>(a: Bounds<T>, b: Bounds<T>)
    ensures
        a.hull(b).left == a.left || a.hull(b).left == b.left,
        a.hull(b).top == a.top || a.hull(b).top == b.top,
        a.hull(b).right == a.right || a.hull(b).right == b.right,
        a.hull(b).bottom == a.bottom || a.hull(b).bottom == b.bottom,
        a.hull(b).left.at() <= a.left.at() && a.hull(b).left.at() <= b.left.at(),
        a.hull(b).top.at() <= a.top.at() && a.hull(b).top.at() <= b.top.at(),
        a.hull(b).right.at() >= a.right.at() && a.hull(b).right.at() >= b.right.at(),
        a.hull(b).bottom.at() >= a.bottom.at() && a.hull(b).bottom.at() >= b.bottom.at(),
        a.intersection(b).left == a.left || a.intersection(b).left == b.left,
        a.intersection(b).top == a.top || a.intersection(b).top == b.top,
        a.intersection(b).left.at() >= a.left.at() && a.intersection(b).left.at() >= b.left.at(),
        a.intersection(b).top.at() >= a.top.at() && a.intersection(b).top.at() >= b.top.at(),
        !a.intersection(b).flat() ==> {
            &&& a.intersection(b).right == a.right || a.intersection(b).right == b.right
            &&& a.intersection(b).bottom == a.bottom || a.intersection(b).bottom == b.bottom
            &&& a.intersection(b).right.at() <= a.right.at()
            &&& a.intersection(b).right.at() <= b.right.at()
            &&& a.intersection(b).bottom.at() <= a.bottom.at()
            &&& a.intersection(b).bottom.at() <= b.bottom.at()
        },
        a.intersection(b).right.at() >= a.intersection(b).left.at(),
        a.intersection(b).bottom.at() >= a.intersection(b).top.at(),
        a.intersection(b).right == a.right || a.intersection(b).right == b.right || a.intersection(
            b,
        ).right == a.intersection(b).left,
        a.intersection(b).bottom == a.bottom || a.intersection(b).bottom == b.bottom
            || a.intersection(b).bottom == a.intersection(b).top,
        a.hull(b).extent is None,
        a.intersection(b).extent is None,
{
}

} // verus!
