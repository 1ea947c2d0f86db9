//! How paths reach the screen: their triangles are rasterised into a texture,
//! and rectangles of it are copied.

use crate::geometry::{Bounds, Point};
use crate::paint::Background;
use crate::path::{Path, PathModel};
use crate::scalar::{Scalar, ScaledPixels};
use crate::scene::path_models;
use vstd::prelude::*;

verus! {

/// A corner of a triangle to rasterise.
#[derive(Clone, Copy, Debug)]
pub struct PathRasterizationSprite {
    pub xy_position: Point<ScaledPixels>,
    pub st_position: Point<Scalar>,
    pub color: Background,
    pub bounds: Bounds<ScaledPixels>,
}

/// A rectangle to copy.
#[derive(Clone, Copy, Debug)]
pub struct PathSprite {
    pub bounds: Bounds<ScaledPixels>,
}

/// The part of a path's bounds that its mask shows.
pub open spec fn clipped(path: PathModel<ScaledPixels>) -> Bounds<ScaledPixels> {
    path.bounds.intersection(path.content_mask.bounds)
}

/// The corners of a path.
pub open spec fn path_corners(path: PathModel<ScaledPixels>) -> Seq<PathRasterizationSprite> {
    path.vertices.map_values(
        |v: crate::path::PathVertex<ScaledPixels>|
            PathRasterizationSprite {
                xy_position: v.xy_position,
                st_position: v.st_position,
                color: path.color,
                bounds: clipped(path),
            },
    )
}

/// The corners of the first `count` paths, one after the other.
pub open spec fn corners(
    paths: Seq<PathModel<ScaledPixels>>,
    count: nat,
) -> Seq<PathRasterizationSprite>
    decreases count,
{
    if count == 0 {
        Seq::empty()
    } else {
        corners(paths, (count - 1) as nat) + path_corners(paths[count - 1])
    }
}

/// The smallest rectangle around what is seen of the first `count` paths.
pub open spec fn spanning(paths: Seq<PathModel<ScaledPixels>>, count: nat) -> Bounds<ScaledPixels>
    decreases count,
{
    if count <= 1 {
        clipped(paths[0])
    } else {
        spanning(paths, (count - 1) as nat).hull(clipped(paths[count - 1]))
    }
}

/// Whether what is seen of one path meets what is seen of another.
pub open spec fn overlapping(paths: Seq<PathModel<ScaledPixels>>) -> bool {
    exists|i: int, j: int|
        0 <= i < j < paths.len() && (#[trigger] clipped(paths[i])).meets(
            #[trigger] clipped(paths[j]),
        )
}

/// The rectangles to copy for a batch of paths. Paths of one draw order that do
/// not overlap are copied one by one; otherwise one copy spans them all, so that
/// no pixel is copied twice.
pub open spec fn sprites(paths: Seq<PathModel<ScaledPixels>>) -> Seq<PathSprite> {
    if paths.len() == 0 {
        Seq::empty()
    } else if paths.first().order == paths.last().order && !overlapping(paths) {
        paths.map_values(|path: PathModel<ScaledPixels>| PathSprite { bounds: clipped(path) })
    } else {
        seq![PathSprite { bounds: spanning(paths, paths.len()) }]
    }
}

/// The corners of a batch of paths, for one draw.
pub fn draw_paths_to_intermediate(paths: &[Path<ScaledPixels>]) -> (result: Vec<
    PathRasterizationSprite,
>)
    ensures
        result@ == corners(path_models(paths@), paths@.len()),
{
    let mut vertices: Vec<PathRasterizationSprite> = Vec::new();
    let mut index: usize = 0;
    let ghost models = path_models(paths@);
    assert(vertices@ =~= corners(models, 0));
    while index < paths.len()
        invariant
            index <= paths.len(),
            models == path_models(paths@),
            vertices@ == corners(models, index as nat),
        decreases paths.len() - index,
    {
        let path = &paths[index];
        let bounds = path.clipped_bounds();
        let ghost before = vertices@;
        let ghost model = models[index as int];
        let mut corner: usize = 0;
        assert(before + path_corners(model).take(0) =~= before);
        while corner < path.vertices.len()
            invariant
                corner <= path.vertices.len(),
                path@ == model,
                bounds == clipped(model),
                vertices@ == before + path_corners(model).take(corner as int),
            decreases path.vertices.len() - corner,
        {
            let vertex = path.vertices[corner];
            vertices.push(
                PathRasterizationSprite {
                    xy_position: vertex.xy_position,
                    st_position: vertex.st_position,
                    color: path.color,
                    bounds,
                },
            );
            corner = corner + 1;
            assert(vertices@ =~= before + path_corners(model).take(corner as int));
        }
        assert(path_corners(model).take(corner as int) =~= path_corners(model));
        index = index + 1;
    }
    vertices
}

/// Whether what is seen of one path meets what is seen of another.
fn overlap(paths: &[Path<ScaledPixels>]) -> (result: bool)
    ensures
        result == overlapping(path_models(paths@)),
{
    let ghost models = path_models(paths@);
    let mut later: usize = 0;
    while later < paths.len()
        invariant
            later <= paths.len(),
            models == path_models(paths@),
            forall|i: int, j: int|
                0 <= i < j < later ==> !(#[trigger] clipped(models[i])).meets(
                    #[trigger] clipped(models[j]),
                ),
        decreases paths.len() - later,
    {
        let bounds = paths[later].clipped_bounds();
        let mut earlier: usize = 0;
        while earlier < later
            invariant
                earlier <= later < paths.len(),
                models == path_models(paths@),
                bounds == clipped(models[later as int]),
                forall|i: int|
                    0 <= i < earlier ==> !(#[trigger] clipped(models[i])).meets(bounds),
            decreases later - earlier,
        {
            assert(models[earlier as int] == paths@[earlier as int]@);
            if paths[earlier].clipped_bounds().intersects(&bounds) {
                assert(clipped(models[earlier as int]).meets(clipped(models[later as int])));
                return true;
            }
            earlier = earlier + 1;
        }
        later = later + 1;
    }
    false
}

/// The rectangles to copy for a batch of paths.
pub fn draw_paths_from_intermediate(paths: &[Path<ScaledPixels>]) -> (result: Vec<PathSprite>)
    ensures
        result@ == sprites(path_models(paths@)),
{
    let ghost models = path_models(paths@);
    let mut result: Vec<PathSprite> = Vec::new();
    if paths.len() == 0 {
        assert(result@ =~= sprites(models));
        return result;
    }
    if paths[paths.len() - 1].order == paths[0].order && !overlap(paths) {
        let mut index: usize = 0;
        while index < paths.len()
            invariant
                index <= paths.len(),
                models == path_models(paths@),
                result@.len() == index,
                forall|i: int|
                    0 <= i < index ==> (#[trigger] result@[i]).bounds == clipped(models[i]),
            decreases paths.len() - index,
        {
            assert(models[index as int] == paths@[index as int]@);
            result.push(PathSprite { bounds: paths[index].clipped_bounds() });
            index = index + 1;
        }
        assert(result@ =~= sprites(models));
    } else {
        assert(models[0] == paths@[0]@);
        let mut bounds = paths[0].clipped_bounds();
        let mut index: usize = 1;
        while index < paths.len()
            invariant
                1 <= index <= paths.len(),
                models == path_models(paths@),
                bounds == spanning(models, index as nat),
            decreases paths.len() - index,
        {
            assert(models[index as int] == paths@[index as int]@);
            bounds = bounds.union(&paths[index].clipped_bounds());
            index = index + 1;
        }
        result.push(PathSprite { bounds });
        assert(result@ =~= sprites(models));
    }
    result
}

/// A spanning rectangle covers what each path shows.
proof fn lemma_spanning_covers(
    paths: Seq<PathModel<ScaledPixels>>,
    count: nat,
    i: int,
    x: int,
    y: int,
)
    requires
        0 <= i < count <= paths.len(),
        clipped(paths[i]).covers(x, y),
    ensures
        spanning(paths, count).covers(x, y),
    decreases count,
{
    if count > 1 && i < count - 1 {
        lemma_spanning_covers(paths, (count - 1) as nat, i, x, y);
    }
}

/// Law: every point that a path of the batch shows is copied.
pub proof fn lemma_every_shown_point_is_copied(
    paths: Seq<PathModel<ScaledPixels>>,
    i: int,
    x: int,
    y: int,
)
    requires
        0 <= i < paths.len(),
        clipped(paths[i]).covers(x, y),
    ensures
        exists|s: int|
            0 <= s < sprites(paths).len() && (#[trigger] sprites(paths)[s]).bounds.covers(x, y),
{
    if paths.first().order == paths.last().order && !overlapping(paths) {
        assert(sprites(paths)[i].bounds.covers(x, y));
    } else {
        lemma_spanning_covers(paths, paths.len(), i, x, y);
        assert(sprites(paths)[0].bounds.covers(x, y));
    }
}

/// Law: no point is copied twice, so that paths that let something through are
/// not blended with it more than once.
pub proof fn lemma_no_point_is_copied_twice(
    paths: Seq<PathModel<ScaledPixels>>,
    s: int,
    t: int,
    x: int,
    y: int,
)
    requires
        0 <= s < t < sprites(paths).len(),
    ensures
        !(sprites(paths)[s].bounds.covers(x, y) && sprites(paths)[t].bounds.covers(x, y)),
{
    assert(!clipped(paths[s]).meets(clipped(paths[t])));
}

/// How many corners the first `count` paths have.
pub open spec fn corner_count(paths: Seq<PathModel<ScaledPixels>>, count: nat) -> nat
    decreases count,
{
    if count == 0 {
        0
    } else {
        corner_count(paths, (count - 1) as nat) + paths[count - 1].vertices.len()
    }
}

/// Law: every vertex of every path is rasterised once, path after path, at its own
/// place and in its own frame, with its path's colour, and clipped to what its
/// path shows.
pub proof fn lemma_every_vertex_is_rasterised_once(
    paths: Seq<PathModel<ScaledPixels>>,
    count: nat,
    p: int,
    v: int,
)
    requires
        count <= paths.len(),
        0 <= p < count,
        0 <= v < paths[p].vertices.len(),
    ensures
        corners(paths, count).len() == corner_count(paths, count),
        0 <= corner_count(paths, p as nat) + v < corners(paths, count).len(),
        ({
            let sprite = corners(paths, count)[corner_count(paths, p as nat) + v];
            &&& sprite.xy_position == paths[p].vertices[v].xy_position
            &&& sprite.st_position == paths[p].vertices[v].st_position
            &&& sprite.color == paths[p].color
            &&& forall|x: int, y: int| #[trigger]
                sprite.bounds.covers(x, y) <==> paths[p].bounds.covers(x, y)
                    && paths[p].content_mask.bounds.covers(x, y)
        }),
    decreases count,
{
    lemma_corner_count(paths, count);
    lemma_corner_count(paths, (count - 1) as nat);
    let before = corners(paths, (count - 1) as nat);
    if p < count - 1 {
        lemma_every_vertex_is_rasterised_once(paths, (count - 1) as nat, p, v);
        assert(corners(paths, count)[corner_count(paths, p as nat) + v]
            == before[corner_count(paths, p as nat) + v]);
    } else {
        let sprite = corners(paths, count)[corner_count(paths, p as nat) + v];
        assert(sprite == path_corners(paths[p])[v]);
        assert forall|x: int, y: int| #[trigger]
            sprite.bounds.covers(x, y) <==> paths[p].bounds.covers(x, y)
                && paths[p].content_mask.bounds.covers(x, y) by {
            crate::geometry::lemma_intersection_covers(
                paths[p].bounds,
                paths[p].content_mask.bounds,
                x,
                y,
            );
        }
    }
}

proof fn lemma_corner_count(paths: Seq<PathModel<ScaledPixels>>, count: nat)
    requires
        count <= paths.len(),
    ensures
        corners(paths, count).len() == corner_count(paths, count),
    decreases count,
{
    if count > 0 {
        lemma_corner_count(paths, (count - 1) as nat);
    }
}

/// Law: what is seen of a path is what its bounds and its mask have in common.
pub proof fn lemma_path_is_clipped_to_its_mask(
    path: PathModel<ScaledPixels>,
    x: int,
    y: int,
)
    ensures
        clipped(path).covers(x, y) <==> path.bounds.covers(x, y) && path.content_mask.bounds.covers(
            x,
            y,
        ),
{
    crate::geometry::lemma_intersection_covers(path.bounds, path.content_mask.bounds, x, y);
}

/// The edges of a spanning rectangle are edges of what some path shows.
proof fn lemma_spanning_is_tight(paths: Seq<PathModel<ScaledPixels>>, count: nat)
    requires
        0 < count <= paths.len(),
    ensures
        exists|i: int| 0 <= i < count && spanning(paths, count).left == (#[trigger] clipped(
            paths[i],
        )).left,
        exists|i: int| 0 <= i < count && spanning(paths, count).top == (#[trigger] clipped(
            paths[i],
        )).top,
        exists|i: int| 0 <= i < count && spanning(paths, count).right == (#[trigger] clipped(
            paths[i],
        )).right,
        exists|i: int| 0 <= i < count && spanning(paths, count).bottom == (#[trigger] clipped(
            paths[i],
        )).bottom,
    decreases count,
{
    if count > 1 {
        let less = (count - 1) as nat;
        lemma_spanning_is_tight(paths, less);
        crate::geometry::lemma_hull_is_tight(spanning(paths, less), clipped(paths[count - 1]));
    } else {
        assert(spanning(paths, count) == clipped(paths[0]));
    }
}

/// Law: no more is copied than the paths need. Paths of one draw order that do not
/// overlap have a copy each, of what is seen of them; and a copy that spans them
/// all has its edges at edges of what is seen of them.
pub proof fn lemma_copies_are_no_larger_than_needed(
    paths: Seq<PathModel<ScaledPixels>>,
    s: int,
)
    requires
        0 <= s < sprites(paths).len(),
    ensures
        paths.len() > 0,
        sprites(paths).len() == paths.len() || sprites(paths).len() == 1,
        paths.first().order == paths.last().order && (forall|i: int, j: int|
            0 <= i < j < paths.len() ==> !(#[trigger] clipped(paths[i])).meets(
                #[trigger] clipped(paths[j]),
            )) ==> sprites(paths).len() == paths.len() && sprites(paths)[s].bounds == clipped(
            paths[s],
        ),
        ({
            let bounds = sprites(paths)[s].bounds;
            &&& exists|i: int|
                0 <= i < paths.len() && bounds.left == (#[trigger] clipped(paths[i])).left
            &&& exists|i: int|
                0 <= i < paths.len() && bounds.top == (#[trigger] clipped(paths[i])).top
            &&& exists|i: int|
                0 <= i < paths.len() && bounds.right == (#[trigger] clipped(paths[i])).right
            &&& exists|i: int|
                0 <= i < paths.len() && bounds.bottom == (#[trigger] clipped(paths[i])).bottom
        }),
{
    if paths.first().order == paths.last().order && !overlapping(paths) {
        assert(sprites(paths)[s].bounds == clipped(paths[s]));
    } else {
        lemma_spanning_is_tight(paths, paths.len());
        assert(sprites(paths)[s].bounds == spanning(paths, paths.len()));
    }
}

} // verus!
