//! Paths: filled outlines, kept as triangles.

use crate::geometry::{Bounds, ContentMask, Point};
use crate::paint::{zero_background, Background};
use crate::scalar::{Coordinate, Pixels, Scalar, ScaledPixels, HALF_RANK, ONE_RANK};
use vstd::prelude::*;

verus! {

/// A path's place in its scene.
#[derive(Clone, Copy, Debug, PartialEq, Eq, Hash, Structural)]
pub struct PathId(pub usize);

/// A corner of a triangle of a path.
#[derive(Clone, Copy, Debug)]
pub struct PathVertex<P> {
    pub xy_position: Point<P>,
    /// Where the corner lies in the frame of the curve that the triangle
    /// covers.
    pub st_position: Point<Scalar>,
    pub content_mask: ContentMask<P>,
}

/// A vertex of a path that is ready to be painted.
#[allow(non_camel_case_types)]
pub type PathVertex_ScaledPixels = PathVertex<ScaledPixels>;

/// A line made up of a series of vertices and control points.
#[derive(Debug)]
pub struct Path<P> {
    pub id: PathId,
    pub order: u32,
    pub bounds: Bounds<P>,
    pub content_mask: ContentMask<P>,
    pub vertices: Vec<PathVertex<P>>,
    pub color: Background,
    /// Where the current contour started.
    pub start: Point<P>,
    /// Where the pen is.
    pub current: Point<P>,
    /// How many segments were begun.
    pub contour_count: usize,
}

/// What a [`Path`] holds.
#[verifier::ext_equal]
pub struct PathModel<P> {
    pub id: PathId,
    pub order: u32,
    pub bounds: Bounds<P>,
    pub content_mask: ContentMask<P>,
    pub vertices: Seq<PathVertex<P>>,
    pub color: Background,
    pub start: Point<P>,
    pub current: Point<P>,
    pub contour_count: nat,
}

impl<P> View for Path<P> {
    type V = PathModel<P>;

    open spec fn view(&self) -> PathModel<P> {
        PathModel {
            id: self.id,
            order: self.order,
            bounds: self.bounds,
            content_mask: self.content_mask,
            vertices: self.vertices@,
            color: self.color,
            start: self.start,
            current: self.current,
            contour_count: self.contour_count as nat,
        }
    }
}

/// The rectangle of no extent around one point.
pub open spec fn point_bounds<P>(at: Point<P>) -> Bounds<P> {
    Bounds { left: at.x, top: at.y, right: at.x, bottom: at.y, extent: None }
}

fn bounds_of_point<P: Coordinate>(at: Point<P>) -> (result: Bounds<P>)
    ensures
        result == point_bounds(at),
{
    Bounds { left: at.x, top: at.y, right: at.x, bottom: at.y, extent: None }
}

/// The mask that a vertex starts with.
pub open spec fn unset_mask() -> ContentMask<Pixels> {
    ContentMask {
        bounds: Bounds {
            left: Pixels(Scalar(0)),
            top: Pixels(Scalar(0)),
            right: Pixels(Scalar(0)),
            bottom: Pixels(Scalar(0)),
            extent: None,
        },
    }
}

fn no_pixel_mask() -> (result: ContentMask<Pixels>)
    ensures
        result == unset_mask(),
{
    ContentMask {
        bounds: Bounds {
            left: Pixels(Scalar(0)),
            top: Pixels(Scalar(0)),
            right: Pixels(Scalar(0)),
            bottom: Pixels(Scalar(0)),
            extent: None,
        },
    }
}

/// A corner as [`Path::push_triangle`] records it.
pub open spec fn corner(xy: Point<Pixels>, st: Point<Scalar>) -> PathVertex<Pixels> {
    PathVertex { xy_position: xy, st_position: st, content_mask: unset_mask() }
}

/// The curve frame of a triangle that is filled whole.
pub open spec fn solid_frame() -> (Point<Scalar>, Point<Scalar>, Point<Scalar>) {
    let p = Point { x: Scalar(0), y: Scalar(ONE_RANK) };
    (p, p, p)
}

/// The curve frame of a triangle that a quadratic curve cuts.
pub open spec fn curve_frame() -> (Point<Scalar>, Point<Scalar>, Point<Scalar>) {
    (
        Point { x: Scalar(0), y: Scalar(0) },
        Point { x: Scalar(HALF_RANK), y: Scalar(0) },
        Point { x: Scalar(ONE_RANK), y: Scalar(ONE_RANK) },
    )
}

impl<P: Coordinate> PathModel<P> {
    /// Whether the point lies in the path's bounds, edges included.
    pub open spec fn holds(self, at: Point<P>) -> bool {
        &&& self.bounds.left.at() <= at.x.at() <= self.bounds.right.at()
        &&& self.bounds.top.at() <= at.y.at() <= self.bounds.bottom.at()
    }

    /// Whether the vertices make up whole triangles that lie in the bounds.
    pub open spec fn enclosed(self) -> bool {
        &&& self.vertices.len() % 3 == 0
        &&& forall|i: int|
            0 <= i < self.vertices.len() ==> self.holds((#[trigger] self.vertices[i]).xy_position)
    }
}

impl PathModel<Pixels> {
    /// An empty path with the pen at `start`.
    pub open spec fn begin(start: Point<Pixels>) -> Self {
        PathModel {
            id: PathId(0),
            order: 0,
            bounds: point_bounds(start),
            content_mask: unset_mask(),
            vertices: Seq::empty(),
            color: zero_background(),
            start,
            current: start,
            contour_count: 0,
        }
    }

    /// The path with one triangle more.
    pub open spec fn with_triangle(
        self,
        xy: (Point<Pixels>, Point<Pixels>, Point<Pixels>),
        st: (Point<Scalar>, Point<Scalar>, Point<Scalar>),
    ) -> Self {
        PathModel {
            bounds: self.bounds.hull(point_bounds(xy.0)).hull(point_bounds(xy.1)).hull(
                point_bounds(xy.2),
            ),
            vertices: self.vertices.push(corner(xy.0, st.0)).push(corner(xy.1, st.1)).push(
                corner(xy.2, st.2),
            ),
            ..self
        }
    }

    /// The path with a new contour begun at `to`.
    pub open spec fn moved(self, to: Point<Pixels>) -> Self {
        PathModel { start: to, current: to, contour_count: self.contour_count + 1, ..self }
    }

    /// The path once a segment to `to` has begun: from the second segment on,
    /// a triangle joins the contour's start, the pen and `to`.
    pub open spec fn fanned(self, to: Point<Pixels>) -> Self {
        let counted = PathModel { contour_count: self.contour_count + 1, ..self };
        if counted.contour_count > 1 {
            counted.with_triangle((self.start, self.current, to), solid_frame())
        } else {
            counted
        }
    }

    /// The path with a straight line to `to`.
    pub open spec fn lined(self, to: Point<Pixels>) -> Self {
        PathModel { current: to, ..self.fanned(to) }
    }

    /// The path with a quadratic curve to `to`.
    pub open spec fn curved(self, to: Point<Pixels>, ctrl: Point<Pixels>) -> Self {
        PathModel {
            current: to,
            ..self.fanned(to).with_triangle((self.current, ctrl, to), curve_frame())
        }
    }
}

impl Path<Pixels> {
    /// An empty path with the given starting point.
    pub fn new(start: Point<Pixels>) -> (result: Self)
        ensures
            result@ == PathModel::begin(start),
    {
        Path {
            id: PathId(0),
            order: 0,
            vertices: Vec::new(),
            start,
            current: start,
            bounds: bounds_of_point(start),
            content_mask: no_pixel_mask(),
            color: Background::default(),
            contour_count: 0,
        }
    }

    /// Moves the start and the pen to the given point.
    pub fn move_to(&mut self, to: Point<Pixels>)
        requires
            old(self)@.contour_count < usize::MAX,
        ensures
            final(self)@ == old(self)@.moved(to),
    {
        self.contour_count = self.contour_count + 1;
        self.start = to;
        self.current = to;
    }

    /// Draws a straight line from the pen to the given point.
    pub fn line_to(&mut self, to: Point<Pixels>)
        requires
            old(self)@.contour_count < usize::MAX,
        ensures
            final(self)@ == old(self)@.lined(to),
    {
        self.contour_count = self.contour_count + 1;
        if self.contour_count > 1 {
            let p = Point { x: Scalar(0), y: Scalar(ONE_RANK) };
            self.push_triangle((self.start, self.current, to), (p, p, p));
        }
        self.current = to;
    }

    /// Draws a curve from the pen to the given point, by the given control
    /// point.
    pub fn curve_to(&mut self, to: Point<Pixels>, ctrl: Point<Pixels>)
        requires
            old(self)@.contour_count < usize::MAX,
        ensures
            final(self)@ == old(self)@.curved(to, ctrl),
    {
        self.contour_count = self.contour_count + 1;
        if self.contour_count > 1 {
            let p = Point { x: Scalar(0), y: Scalar(ONE_RANK) };
            self.push_triangle((self.start, self.current, to), (p, p, p));
        }
        self.push_triangle(
            (self.current, ctrl, to),
            (
                Point { x: Scalar(0), y: Scalar(0) },
                Point { x: Scalar(HALF_RANK), y: Scalar(0) },
                Point { x: Scalar(ONE_RANK), y: Scalar(ONE_RANK) },
            ),
        );
        self.current = to;
    }

    /// Adds a triangle to the path.
    pub fn push_triangle(
        &mut self,
        xy: (Point<Pixels>, Point<Pixels>, Point<Pixels>),
        st: (Point<Scalar>, Point<Scalar>, Point<Scalar>),
    )
        ensures
            final(self)@ == old(self)@.with_triangle(xy, st),
    {
        self.bounds = self.bounds.union(&bounds_of_point(xy.0)).union(&bounds_of_point(xy.1)).union(
            &bounds_of_point(xy.2),
        );
        self.vertices.push(
            PathVertex { xy_position: xy.0, st_position: st.0, content_mask: no_pixel_mask() },
        );
        self.vertices.push(
            PathVertex { xy_position: xy.1, st_position: st.1, content_mask: no_pixel_mask() },
        );
        self.vertices.push(
            PathVertex { xy_position: xy.2, st_position: st.2, content_mask: no_pixel_mask() },
        );
    }
}

impl<P: Coordinate> Path<P> {
    /// The part of the path's bounds that its mask shows.
    pub fn clipped_bounds(&self) -> (result: Bounds<P>)
        ensures
            result == self@.bounds.intersection(self@.content_mask.bounds),
    {
        self.bounds.intersect(&self.content_mask.bounds)
    }
}

impl<P: Coordinate> Clone for Path<P> {
    fn clone(&self) -> (result: Self)
        ensures
            result@ == self@,
    {
        let mut vertices: Vec<PathVertex<P>> = Vec::new();
        let mut index: usize = 0;
        while index < self.vertices.len()
            invariant
                index <= self.vertices.len(),
                vertices@ == self.vertices@.take(index as int),
            decreases self.vertices.len() - index,
        {
            let vertex = self.vertices[index];
            vertices.push(vertex);
            index = index + 1;
        }
        assert(self.vertices@.take(index as int) == self.vertices@);
        Path {
            id: self.id,
            order: self.order,
            bounds: self.bounds,
            content_mask: self.content_mask,
            vertices,
            color: self.color,
            start: self.start,
            current: self.current,
            contour_count: self.contour_count,
        }
    }
}

/// Law: a fresh path is enclosed by its bounds, and adding a triangle keeps it
/// so: the bounds of a path hold all its vertices.
pub proof fn lemma_bounds_hold_vertices(
    path: PathModel<Pixels>,
    start: Point<Pixels>,
    xy: (Point<Pixels>, Point<Pixels>, Point<Pixels>),
    st: (Point<Scalar>, Point<Scalar>, Point<Scalar>),
)
    requires
        path.enclosed(),
    ensures
        PathModel::begin(start).enclosed(),
        path.with_triangle(xy, st).enclosed(),
{
    let after = path.with_triangle(xy, st);
    assert forall|i: int| 0 <= i < after.vertices.len() implies after.holds(
        (#[trigger] after.vertices[i]).xy_position,
    ) by {
        if i < path.vertices.len() {
            assert(after.vertices[i] == path.vertices[i]);
            assert(path.holds(path.vertices[i].xy_position));
        }
    }
}

/// Law: every drawing operation keeps the path enclosed by its bounds, and
/// none ever takes a vertex away.
pub proof fn lemma_drawing_keeps_path_enclosed(
    path: PathModel<Pixels>,
    to: Point<Pixels>,
    ctrl: Point<Pixels>,
)
    requires
        path.enclosed(),
    ensures
        path.moved(to).enclosed(),
        path.lined(to).enclosed(),
        path.curved(to, ctrl).enclosed(),
        path.vertices.is_prefix_of(path.lined(to).vertices),
        path.vertices.is_prefix_of(path.curved(to, ctrl).vertices),
{
    let counted = PathModel { contour_count: path.contour_count + 1, ..path };
    assert(counted.enclosed());
    lemma_bounds_hold_vertices(counted, to, (path.start, path.current, to), solid_frame());
    let fanned = path.fanned(to);
    assert(fanned.enclosed());
    lemma_bounds_hold_vertices(fanned, to, (path.current, ctrl, to), curve_frame());
    let curved = fanned.with_triangle((path.current, ctrl, to), curve_frame());
    assert(curved.enclosed());
    assert forall|i: int| 0 <= i < path.lined(to).vertices.len() implies path.lined(to).holds(
        (#[trigger] path.lined(to).vertices[i]).xy_position,
    ) by {
        assert(fanned.holds(fanned.vertices[i].xy_position));
    }
    assert forall|i: int| 0 <= i < path.curved(to, ctrl).vertices.len() implies path.curved(
        to,
        ctrl,
    ).holds((#[trigger] path.curved(to, ctrl).vertices[i]).xy_position) by {
        assert(curved.holds(curved.vertices[i].xy_position));
    }
    assert forall|i: int| 0 <= i < path.moved(to).vertices.len() implies path.moved(to).holds(
        (#[trigger] path.moved(to).vertices[i]).xy_position,
    ) by {
        assert(path.holds(path.vertices[i].xy_position));
    }
}

/// Law: what is said of a path is what its fields hold.
pub proof fn lemma_path_shows_its_fields<P>(path: Path<P>)
    ensures
        path@.id == path.id,
        path@.order == path.order,
        path@.bounds == path.bounds,
        path@.content_mask == path.content_mask,
        path@.vertices == path.vertices@,
        path@.color == path.color,
        path@.start == path.start,
        path@.current == path.current,
        path@.contour_count == path.contour_count,
{
}

/// Law: a fresh path has its start and its pen at the given point, bounds of no
/// extent there, and no vertex and no segment.
pub proof fn lemma_path_begins_at_its_start(start: Point<Pixels>)
    ensures
        ({
            let path = PathModel::begin(start);
            &&& path.start == start
            &&& path.current == start
            &&& path.vertices.len() == 0
            &&& path.contour_count == 0
            &&& path.bounds.left == start.x && path.bounds.right == start.x
            &&& path.bounds.top == start.y && path.bounds.bottom == start.y
            &&& path.id == PathId(0)
            &&& path.order == 0
            &&& path.content_mask == unset_mask()
            &&& path.content_mask.bounds.left.0.value() == 0
            &&& path.content_mask.bounds.top.0.value() == 0
            &&& path.content_mask.bounds.right.0.value() == 0
            &&& path.content_mask.bounds.bottom.0.value() == 0
            &&& path.content_mask.bounds.extent is None
            &&& path.bounds.extent is None
            &&& path.color == zero_background()
        }),
{
}

/// Law: after every drawing operation the pen is at the point that was given;
/// moving puts the start of the contour there too, and drawing leaves it. What
/// drawing has no part in stays.
pub proof fn lemma_pen_goes_where_it_is_sent(
    path: PathModel<Pixels>,
    to: Point<Pixels>,
    ctrl: Point<Pixels>,
)
    ensures
        path.moved(to).current == to,
        path.moved(to).start == to,
        path.moved(to).vertices == path.vertices,
        path.moved(to).bounds == path.bounds,
        path.lined(to).current == to,
        path.lined(to).start == path.start,
        path.curved(to, ctrl).current == to,
        path.curved(to, ctrl).start == path.start,
        ({
            let kept = |after: PathModel<Pixels>|
                {
                    &&& after.contour_count == path.contour_count + 1
                    &&& after.id == path.id
                    &&& after.order == path.order
                    &&& after.content_mask == path.content_mask
                    &&& after.color == path.color
                };
            kept(path.moved(to)) && kept(path.lined(to)) && kept(path.curved(to, ctrl))
        }),
{
}

/// Whether three vertices from a place on are the corners of a triangle.
pub open spec fn triangle_at(
    path: PathModel<Pixels>,
    at: int,
    a: Point<Pixels>,
    b: Point<Pixels>,
    c: Point<Pixels>,
) -> bool {
    &&& 0 <= at && at + 3 <= path.vertices.len()
    &&& path.vertices[at].xy_position == a
    &&& path.vertices[at + 1].xy_position == b
    &&& path.vertices[at + 2].xy_position == c
}

/// Whether a triangle is filled whole, whatever its frame would cut.
pub open spec fn filled_whole(path: PathModel<Pixels>, at: int) -> bool {
    forall|i: int|
        at <= i < at + 3 ==> (#[trigger] path.vertices[i]).st_position.x.0 == 0
            && path.vertices[i].st_position.y.0 == ONE_RANK
}

/// Law: a line adds nothing where it begins the first segment of a path, and else
/// one filled triangle of the contour's start, the pen and the new point. A curve
/// adds the same, and then the triangle of the pen, the control point and the new
/// point, in the frame in which the curve is the square of its first coordinate.
/// Earlier vertices stay.
pub proof fn lemma_drawing_adds_its_triangles(
    path: PathModel<Pixels>,
    to: Point<Pixels>,
    ctrl: Point<Pixels>,
)
    ensures
        ({
            let n = path.vertices.len() as int;
            let line = path.lined(to);
            let curve = path.curved(to, ctrl);
            &&& path.contour_count == 0 ==> {
                &&& line.vertices == path.vertices
                &&& line.bounds == path.bounds
                &&& curve.bounds == path.with_triangle(
                    (path.current, ctrl, to),
                    curve_frame(),
                ).bounds
                &&& curve.vertices.len() == n + 3
                &&& triangle_at(curve, n, path.current, ctrl, to)
                &&& curve.vertices[n].st_position == (Point { x: Scalar(0), y: Scalar(0) })
                &&& curve.vertices[n + 1].st_position == (Point {
                    x: Scalar(HALF_RANK),
                    y: Scalar(0),
                })
                &&& curve.vertices[n + 2].st_position == (Point {
                    x: Scalar(ONE_RANK),
                    y: Scalar(ONE_RANK),
                })
            }
            &&& path.contour_count > 0 ==> {
                &&& line.bounds == path.with_triangle(
                    (path.start, path.current, to),
                    solid_frame(),
                ).bounds
                &&& curve.bounds == path.with_triangle(
                    (path.start, path.current, to),
                    solid_frame(),
                ).with_triangle((path.current, ctrl, to), curve_frame()).bounds
                &&& line.vertices.len() == n + 3
                &&& triangle_at(line, n, path.start, path.current, to)
                &&& filled_whole(line, n)
                &&& curve.vertices.len() == n + 6
                &&& triangle_at(curve, n, path.start, path.current, to)
                &&& filled_whole(curve, n)
                &&& triangle_at(curve, n + 3, path.current, ctrl, to)
                &&& curve.vertices[n + 3].st_position == (Point { x: Scalar(0), y: Scalar(0) })
                &&& curve.vertices[n + 4].st_position == (Point {
                    x: Scalar(HALF_RANK),
                    y: Scalar(0),
                })
                &&& curve.vertices[n + 5].st_position == (Point {
                    x: Scalar(ONE_RANK),
                    y: Scalar(ONE_RANK),
                })
            }
            &&& forall|i: int|
                0 <= i < n ==> #[trigger] line.vertices[i] == path.vertices[i]
            &&& forall|i: int|
                0 <= i < n ==> #[trigger] curve.vertices[i] == path.vertices[i]
        }),
{
}

/// Law: the first triangle that a line adds after a move has the point moved to at
/// both of its first two corners, so that it covers nothing.
pub proof fn lemma_line_after_move_starts_a_contour(
    path: PathModel<Pixels>,
    from: Point<Pixels>,
    to: Point<Pixels>,
)
    ensures
        path.moved(from).lined(to).vertices.len() == path.vertices.len() + 3,
        triangle_at(path.moved(from).lined(to), path.vertices.len() as int, from, from, to),
{
}

/// Law: a triangle is added as it is given, after the ones before it, and widens
/// the bounds just as far as its corners need: each edge stays or lies at one of
/// them. Nothing else changes.
pub proof fn lemma_triangle_is_added_as_given(
    path: PathModel<Pixels>,
    xy: (Point<Pixels>, Point<Pixels>, Point<Pixels>),
    st: (Point<Scalar>, Point<Scalar>, Point<Scalar>),
)
    ensures
        ({
            let after = path.with_triangle(xy, st);
            let n = path.vertices.len() as int;
            &&& after.vertices.len() == n + 3
            &&& forall|i: int| 0 <= i < n ==> #[trigger] after.vertices[i] == path.vertices[i]
            &&& triangle_at(after, n, xy.0, xy.1, xy.2)
            &&& after.vertices[n].st_position == st.0
            &&& after.vertices[n + 1].st_position == st.1
            &&& after.vertices[n + 2].st_position == st.2
            &&& forall|i: int|
                n <= i < n + 3 ==> (#[trigger] after.vertices[i]).content_mask == unset_mask()
            &&& after.holds(xy.0) && after.holds(xy.1) && after.holds(xy.2)
            &&& after.bounds.left == path.bounds.left || after.bounds.left == xy.0.x
                || after.bounds.left == xy.1.x || after.bounds.left == xy.2.x
            &&& after.bounds.right == path.bounds.right || after.bounds.right == xy.0.x
                || after.bounds.right == xy.1.x || after.bounds.right == xy.2.x
            &&& after.bounds.top == path.bounds.top || after.bounds.top == xy.0.y
                || after.bounds.top == xy.1.y || after.bounds.top == xy.2.y
            &&& after.bounds.bottom == path.bounds.bottom || after.bounds.bottom == xy.0.y
                || after.bounds.bottom == xy.1.y || after.bounds.bottom == xy.2.y
            &&& after.bounds.left.at() <= path.bounds.left.at()
            &&& after.bounds.right.at() >= path.bounds.right.at()
            &&& after.bounds.top.at() <= path.bounds.top.at()
            &&& after.bounds.bottom.at() >= path.bounds.bottom.at()
            &&& after.start == path.start
            &&& after.current == path.current
            &&& after.contour_count == path.contour_count
            &&& after.id == path.id
            &&& after.order == path.order
            &&& after.content_mask == path.content_mask
            &&& after.color == path.color
        }),
{
}

/// Law: a point is held by a path's bounds exactly if it lies between their edges,
/// edges included.
pub proof fn lemma_bounds_hold_what_is_between<P: Coordinate>(path: PathModel<P>, at: Point<P>)
    ensures
        path.holds(at) <==> path.bounds.left.at() <= at.x.at() && at.x.at()
            <= path.bounds.right.at() && path.bounds.top.at() <= at.y.at() && at.y.at()
            <= path.bounds.bottom.at(),
{
}

} // verus!
