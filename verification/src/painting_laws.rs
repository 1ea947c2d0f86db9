//! What painting does to a scene, told by the records that are given and those
//! that are kept.

use crate::bounds_tree::{
    lemma_top_order_covers, lemma_top_order_is_taken, next_order, top_order, Placed,
};
use crate::effect::{BackdropBlurRect, EffectQuad, EFFECT_FLAG_NEEDS_BACKDROP};
use crate::geometry::{
    lemma_covers_nothing_iff_flat, lemma_intersection_covers, Bounds, ContentMask,
};
use crate::path::{PathId, PathModel};
use crate::primitives::{
    MonochromeSprite, PaintSurface, PolychromeSprite, Primitive, PrimitiveKind, PrimitiveModel,
    Quad, Shadow, SubpixelSprite, Underline,
};
use crate::scalar::ScaledPixels;
use crate::scene::{risen, Layer, OperationModel, PaintOperation, Scene, SceneModel};
use crate::sort::{sorts_as, stable_sorted, Keyed};
use vstd::prelude::*;
use vstd::std_specs::convert::FromSpec;

verus! {

/// Whether some point lies both in a rectangle and in a mask.
pub open spec fn seen(bounds: Bounds<ScaledPixels>, mask: ContentMask<ScaledPixels>) -> bool {
    exists|x: int, y: int| #[trigger] bounds.covers(x, y) && mask.bounds.covers(x, y)
}

/// Whether two scenes hold the same primitives but for those of one kind.
pub open spec fn same_but(before: SceneModel, after: SceneModel, kind: PrimitiveKind) -> bool {
    &&& kind is Shadow || after.shadows == before.shadows
    &&& kind is Quad || after.quads == before.quads
    &&& kind is BackdropBlurRect || after.backdrop_blur_rects == before.backdrop_blur_rects
    &&& kind is EffectQuad || after.effect_quads == before.effect_quads
    &&& kind is Path || after.paths == before.paths
    &&& kind is Underline || after.underlines == before.underlines
    &&& kind is MonochromeSprite || after.monochrome_sprites == before.monochrome_sprites
    &&& kind is SubpixelSprite || after.subpixel_sprites == before.subpixel_sprites
    &&& kind is PolychromeSprite || after.polychrome_sprites == before.polychrome_sprites
    &&& kind is Surface || after.surfaces == before.surfaces
}

/// Whether two scenes hold the same primitives.
pub open spec fn same_primitives(before: SceneModel, after: SceneModel) -> bool {
    &&& after.shadows == before.shadows
    &&& after.quads == before.quads
    &&& after.backdrop_blur_rects == before.backdrop_blur_rects
    &&& after.effect_quads == before.effect_quads
    &&& after.paths == before.paths
    &&& after.underlines == before.underlines
    &&& after.monochrome_sprites == before.monochrome_sprites
    &&& after.subpixel_sprites == before.subpixel_sprites
    &&& after.polychrome_sprites == before.polychrome_sprites
    &&& after.surfaces == before.surfaces
}

/// Law: what is said of a scene is what its lists hold.
pub proof fn lemma_scene_shows_its_lists(scene: Scene)
    ensures
        scene@.shadows == scene.shadows@,
        scene@.quads == scene.quads@,
        scene@.backdrop_blur_rects == scene.backdrop_blur_rects@,
        scene@.effect_quads == scene.effect_quads@,
        scene@.paths.len() == scene.paths@.len(),
        forall|i: int|
            0 <= i < scene.paths@.len() ==> #[trigger] scene@.paths[i] == scene.paths@[i]@,
        scene@.underlines == scene.underlines@,
        scene@.monochrome_sprites == scene.monochrome_sprites@,
        scene@.subpixel_sprites == scene.subpixel_sprites@,
        scene@.polychrome_sprites == scene.polychrome_sprites@,
        scene@.surfaces == scene.surfaces@,
{
}

/// Law: what is said of a primitive, and of an operation, is the record in it.
pub proof fn lemma_primitive_shows_its_record(primitive: Primitive, operation: PaintOperation)
    ensures
        match primitive {
            Primitive::Shadow(p) => primitive@ == PrimitiveModel::Shadow(p),
            Primitive::Quad(p) => primitive@ == PrimitiveModel::Quad(p),
            Primitive::BackdropBlurRect(p) => primitive@ == PrimitiveModel::BackdropBlurRect(p),
            Primitive::EffectQuad(p) => primitive@ == PrimitiveModel::EffectQuad(p),
            Primitive::Path(p) => primitive@ == PrimitiveModel::Path(p@),
            Primitive::Underline(p) => primitive@ == PrimitiveModel::Underline(p),
            Primitive::MonochromeSprite(p) => primitive@ == PrimitiveModel::MonochromeSprite(p),
            Primitive::SubpixelSprite(p) => primitive@ == PrimitiveModel::SubpixelSprite(p),
            Primitive::PolychromeSprite(p) => primitive@ == PrimitiveModel::PolychromeSprite(p),
            Primitive::Surface(p) => primitive@ == PrimitiveModel::Surface(p),
        },
        match operation {
            PaintOperation::Primitive(p) => operation@ == OperationModel::Primitive(p@),
            PaintOperation::StartLayer(b) => operation@ == OperationModel::StartLayer(b),
            PaintOperation::EndLayer => operation@ == OperationModel::EndLayer,
        },
{
}

/// Law: a record that is painted becomes the primitive that holds it.
pub proof fn lemma_records_become_primitives(
    shadow: Shadow,
    quad: Quad,
    blur: BackdropBlurRect,
    effect: EffectQuad,
    path: crate::path::Path<ScaledPixels>,
    underline: Underline,
    monochrome: MonochromeSprite,
    subpixel: SubpixelSprite,
    polychrome: PolychromeSprite,
    surface: PaintSurface,
)
    ensures
        <Primitive as FromSpec<Shadow>>::from_spec(shadow) == Primitive::Shadow(shadow),
        <Primitive as FromSpec<Quad>>::from_spec(quad) == Primitive::Quad(quad),
        <Primitive as FromSpec<BackdropBlurRect>>::from_spec(blur) == Primitive::BackdropBlurRect(
            blur,
        ),
        <Primitive as FromSpec<EffectQuad>>::from_spec(effect) == Primitive::EffectQuad(effect),
        <Primitive as FromSpec<crate::path::Path<ScaledPixels>>>::from_spec(path)
            == Primitive::Path(path),
        <Primitive as FromSpec<Underline>>::from_spec(underline) == Primitive::Underline(underline),
        <Primitive as FromSpec<MonochromeSprite>>::from_spec(monochrome)
            == Primitive::MonochromeSprite(monochrome),
        <Primitive as FromSpec<SubpixelSprite>>::from_spec(subpixel) == Primitive::SubpixelSprite(
            subpixel,
        ),
        <Primitive as FromSpec<PolychromeSprite>>::from_spec(polychrome)
            == Primitive::PolychromeSprite(polychrome),
        <Primitive as FromSpec<PaintSurface>>::from_spec(surface) == Primitive::Surface(surface),
{
}

/// A primitive is culled exactly if no point of its bounds is in its mask.
proof fn lemma_flat_iff_unseen(bounds: Bounds<ScaledPixels>, mask: ContentMask<ScaledPixels>)
    ensures
        bounds.intersection(mask.bounds).flat() <==> !seen(bounds, mask),
{
    let clipped = bounds.intersection(mask.bounds);
    lemma_covers_nothing_iff_flat(clipped);
    if clipped.flat() {
        assert forall|x: int, y: int| #[trigger]
            bounds.covers(x, y) implies !mask.bounds.covers(x, y) by {
            lemma_intersection_covers(bounds, mask.bounds, x, y);
            assert(!clipped.covers(x, y));
        }
    } else {
        let (x, y) = choose|x: int, y: int| clipped.covers(x, y);
        lemma_intersection_covers(bounds, mask.bounds, x, y);
        assert(bounds.covers(x, y) && mask.bounds.covers(x, y));
    }
}

/// Law: a primitive of which no point is seen changes nothing.
pub proof fn lemma_nothing_seen_is_not_painted(scene: SceneModel, primitive: PrimitiveModel)
    ensures
        scene.painted(primitive) == scene <==> !match primitive {
            PrimitiveModel::Shadow(p) => seen(p.bounds, p.content_mask),
            PrimitiveModel::Quad(p) => seen(p.bounds, p.content_mask),
            PrimitiveModel::BackdropBlurRect(p) => seen(p.bounds, p.content_mask),
            PrimitiveModel::EffectQuad(p) => seen(p.bounds, p.content_mask),
            PrimitiveModel::Path(p) => seen(p.bounds, p.content_mask),
            PrimitiveModel::Underline(p) => seen(p.bounds, p.content_mask),
            PrimitiveModel::MonochromeSprite(p) => seen(p.bounds, p.content_mask),
            PrimitiveModel::SubpixelSprite(p) => seen(p.bounds, p.content_mask),
            PrimitiveModel::PolychromeSprite(p) => seen(p.bounds, p.content_mask),
            PrimitiveModel::Surface(p) => seen(p.bounds, p.content_mask),
        },
{
    lemma_flat_iff_unseen(primitive.bounds(), primitive.content_mask());
    if !primitive.clipped().flat() {
        assert(scene.painted(primitive).operations.len() == scene.operations.len() + 1);
    }
}

/// Law: a primitive that is painted is kept as it was given but for its draw
/// order, and a path's place in the scene as its id. It comes last in the list
/// of its kind and in the recording, and the other lists stay as they are.
pub proof fn lemma_painted_primitive_is_kept(scene: SceneModel, primitive: PrimitiveModel)
    ensures
        ({
            let after = scene.painted(primitive);
            let recorded = after.operations.last();
            match primitive {
                PrimitiveModel::Shadow(p) => seen(p.bounds, p.content_mask) ==> {
                    let kept = after.shadows.last();
                    &&& kept == Shadow { order: kept.order, ..p }
                    &&& after.shadows == scene.shadows.push(kept)
                    &&& recorded == OperationModel::Primitive(PrimitiveModel::Shadow(kept))
                    &&& same_but(scene, after, PrimitiveKind::Shadow)
                },
                PrimitiveModel::Quad(p) => seen(p.bounds, p.content_mask) ==> {
                    let kept = after.quads.last();
                    &&& kept == Quad { order: kept.order, ..p }
                    &&& after.quads == scene.quads.push(kept)
                    &&& recorded == OperationModel::Primitive(PrimitiveModel::Quad(kept))
                    &&& same_but(scene, after, PrimitiveKind::Quad)
                },
                PrimitiveModel::BackdropBlurRect(p) => seen(p.bounds, p.content_mask) ==> {
                    let kept = after.backdrop_blur_rects.last();
                    &&& kept == BackdropBlurRect { order: kept.order, ..p }
                    &&& after.backdrop_blur_rects == scene.backdrop_blur_rects.push(kept)
                    &&& recorded == OperationModel::Primitive(
                        PrimitiveModel::BackdropBlurRect(kept),
                    )
                    &&& same_but(scene, after, PrimitiveKind::BackdropBlurRect)
                },
                PrimitiveModel::EffectQuad(p) => seen(p.bounds, p.content_mask) ==> {
                    let kept = after.effect_quads.last();
                    &&& kept == EffectQuad { order: kept.order, ..p }
                    &&& after.effect_quads == scene.effect_quads.push(kept)
                    &&& recorded == OperationModel::Primitive(PrimitiveModel::EffectQuad(kept))
                    &&& same_but(scene, after, PrimitiveKind::EffectQuad)
                },
                PrimitiveModel::Path(p) => seen(p.bounds, p.content_mask) ==> {
                    let kept = after.paths.last();
                    &&& kept == PathModel {
                        order: kept.order,
                        id: PathId(scene.paths.len() as usize),
                        ..p
                    }
                    &&& after.paths == scene.paths.push(kept)
                    &&& recorded == OperationModel::Primitive(PrimitiveModel::Path(kept))
                    &&& same_but(scene, after, PrimitiveKind::Path)
                },
                PrimitiveModel::Underline(p) => seen(p.bounds, p.content_mask) ==> {
                    let kept = after.underlines.last();
                    &&& kept == Underline { order: kept.order, ..p }
                    &&& after.underlines == scene.underlines.push(kept)
                    &&& recorded == OperationModel::Primitive(PrimitiveModel::Underline(kept))
                    &&& same_but(scene, after, PrimitiveKind::Underline)
                },
                PrimitiveModel::MonochromeSprite(p) => seen(p.bounds, p.content_mask) ==> {
                    let kept = after.monochrome_sprites.last();
                    &&& kept == MonochromeSprite { order: kept.order, ..p }
                    &&& after.monochrome_sprites == scene.monochrome_sprites.push(kept)
                    &&& recorded == OperationModel::Primitive(
                        PrimitiveModel::MonochromeSprite(kept),
                    )
                    &&& same_but(scene, after, PrimitiveKind::MonochromeSprite)
                },
                PrimitiveModel::SubpixelSprite(p) => seen(p.bounds, p.content_mask) ==> {
                    let kept = after.subpixel_sprites.last();
                    &&& kept == SubpixelSprite { order: kept.order, ..p }
                    &&& after.subpixel_sprites == scene.subpixel_sprites.push(kept)
                    &&& recorded == OperationModel::Primitive(PrimitiveModel::SubpixelSprite(kept))
                    &&& same_but(scene, after, PrimitiveKind::SubpixelSprite)
                },
                PrimitiveModel::PolychromeSprite(p) => seen(p.bounds, p.content_mask) ==> {
                    let kept = after.polychrome_sprites.last();
                    &&& kept == PolychromeSprite { order: kept.order, ..p }
                    &&& after.polychrome_sprites == scene.polychrome_sprites.push(kept)
                    &&& recorded == OperationModel::Primitive(
                        PrimitiveModel::PolychromeSprite(kept),
                    )
                    &&& same_but(scene, after, PrimitiveKind::PolychromeSprite)
                },
                PrimitiveModel::Surface(p) => seen(p.bounds, p.content_mask) ==> {
                    let kept = after.surfaces.last();
                    &&& kept == PaintSurface { order: kept.order, ..p }
                    &&& after.surfaces == scene.surfaces.push(kept)
                    &&& recorded == OperationModel::Primitive(PrimitiveModel::Surface(kept))
                    &&& same_but(scene, after, PrimitiveKind::Surface)
                },
            }
        }),
        scene.painted(primitive) != scene ==> scene.painted(primitive).operations.drop_last()
            == scene.operations,
{
    lemma_nothing_seen_is_not_painted(scene, primitive);
    let after = scene.painted(primitive);
    if after != scene {
        assert(after.operations.drop_last() =~= scene.operations);
    }
}

/// The order field of a primitive, whatever its kind.
pub open spec fn order_field(primitive: PrimitiveModel) -> u32 {
    match primitive {
        PrimitiveModel::Shadow(p) => p.order,
        PrimitiveModel::Quad(p) => p.order,
        PrimitiveModel::BackdropBlurRect(p) => p.order,
        PrimitiveModel::EffectQuad(p) => p.order,
        PrimitiveModel::Path(p) => p.order,
        PrimitiveModel::Underline(p) => p.order,
        PrimitiveModel::MonochromeSprite(p) => p.order,
        PrimitiveModel::SubpixelSprite(p) => p.order,
        PrimitiveModel::PolychromeSprite(p) => p.order,
        PrimitiveModel::Surface(p) => p.order,
    }
}

/// Law: only a backdrop blur, and an effect whose flags say so, is composited
/// from a snapshot.
pub proof fn lemma_what_snapshots(primitive: PrimitiveModel)
    ensures
        primitive.snapshots() <==> (primitive is BackdropBlurRect || (primitive matches
            PrimitiveModel::EffectQuad(p) && p.flags & EFFECT_FLAG_NEEDS_BACKDROP != 0)),
{
    match primitive {
        PrimitiveModel::EffectQuad(p) => {
            let flags: u32 = p.flags;
            assert((flags & 1 != 0) == (flags % 2 == 1)) by (bit_vector);
        },
        _ => {},
    }
}

/// Whether an order is the least above those of the rectangles that overlap some
/// bounds; the highest order there is has none above it.
pub open spec fn least_above(
    order: u32,
    entries: Seq<Placed<ScaledPixels>>,
    bounds: Bounds<ScaledPixels>,
) -> bool {
    &&& forall|i: int|
        0 <= i < entries.len() && (#[trigger] entries[i]).bounds.meets(bounds) ==> entries[i].order
            < order || order == u32::MAX
    &&& order >= 1
    &&& order > 1 ==> exists|i: int|
        0 <= i < entries.len() && (#[trigger] entries[i]).bounds.meets(bounds) && order
            <= entries[i].order + 1
}

/// The next order after the highest that overlaps is the least above.
proof fn lemma_next_is_least_above(
    entries: Seq<Placed<ScaledPixels>>,
    bounds: Bounds<ScaledPixels>,
)
    ensures
        least_above(next_order(top_order(entries, bounds)), entries, bounds),
{
    let order = next_order(top_order(entries, bounds));
    lemma_top_order_is_taken(entries, bounds);
    assert forall|i: int|
        0 <= i < entries.len() && (#[trigger] entries[i]).bounds.meets(
            bounds,
        ) implies entries[i].order < order || order == u32::MAX by {
        lemma_top_order_covers(entries, bounds, i);
    }
}

/// Law: in a layer, a primitive that does not snapshot takes the order of the
/// innermost layer; outside, it takes the least order above all that it overlaps.
/// It is placed there for what comes after it.
pub proof fn lemma_plain_primitive_takes_its_order(scene: SceneModel, primitive: PrimitiveModel)
    requires
        !primitive.snapshots(),
        !primitive.clipped().flat(),
    ensures
        ({
            let after = scene.painted(primitive);
            let order = order_field(after.operations.last()->Primitive_0);
            let place = Placed { bounds: primitive.clipped(), order };
            &&& after.operations.last() is Primitive
            &&& after.layers == scene.layers
            &&& after.floor == scene.floor
            &&& scene.layers.len() > 0 ==> order == scene.layers.last().order && after.tree
                == scene.tree && after.layered == scene.layered.push(place)
            &&& scene.layers.len() == 0 ==> least_above(order, scene.tree, primitive.clipped())
                && after.tree == scene.tree.push(place) && after.layered == scene.layered
            &&& after.highest == (if scene.highest < order {
                order
            } else {
                scene.highest
            })
        }),
{
    lemma_next_is_least_above(scene.tree, primitive.clipped());
}

/// The layers that rise are placed where they rise to, and no others.
proof fn lemma_risen_layers_are_placed(layers: Seq<Layer>, order: u32)
    ensures
        forall|n: int|
            0 <= n < risen(layers, order).len() ==> exists|i: int|
                0 <= i < layers.len() && (#[trigger] layers[i]).order < order && (
                #[trigger] risen(layers, order)[n]) == (Placed { bounds: layers[i].bounds, order }),
        forall|i: int|
            0 <= i < layers.len() && (#[trigger] layers[i]).order < order ==> risen(
                layers,
                order,
            ).contains(Placed { bounds: layers[i].bounds, order }),
    decreases layers.len(),
{
    if layers.len() > 0 {
        let below = risen(layers.drop_last(), order);
        let all = risen(layers, order);
        lemma_risen_layers_are_placed(layers.drop_last(), order);
        assert forall|n: int| 0 <= n < all.len() implies exists|i: int|
            0 <= i < layers.len() && (#[trigger] layers[i]).order < order && (#[trigger] all[n])
                == (Placed { bounds: layers[i].bounds, order }) by {
            if n < below.len() {
                assert(all[n] == below[n]);
                let i = choose|i: int|
                    0 <= i < layers.drop_last().len() && (
                    #[trigger] layers.drop_last()[i]).order < order && below[n] == (Placed {
                        bounds: layers.drop_last()[i].bounds,
                        order,
                    });
                assert(layers[i] == layers.drop_last()[i]);
            } else {
                assert(layers[layers.len() - 1].order < order);
            }
        }
        assert forall|i: int|
            0 <= i < layers.len() && (#[trigger] layers[i]).order < order implies all.contains(
            Placed { bounds: layers[i].bounds, order },
        ) by {
            let place = Placed { bounds: layers[i].bounds, order };
            if i < layers.len() - 1 {
                assert(layers.drop_last()[i] == layers[i]);
                let n = choose|n: int| 0 <= n < below.len() && below[n] == place;
                assert(all[n] == place);
            } else {
                assert(all[below.len() as int] == place);
            }
        }
    }
}

/// Law: when a primitive that snapshots is painted, what the tree takes after it are open
/// layers that rise, each where it rises to.
pub proof fn lemma_only_rising_layers_are_placed(
    scene: SceneModel,
    primitive: PrimitiveModel,
    n: int,
)
    requires
        primitive.snapshots(),
        !primitive.clipped().flat(),
        scene.tree.len() < n < scene.painted(primitive).tree.len(),
    ensures
        exists|l: int|
            0 <= l < scene.layers.len() && scene.painted(primitive).layers[l] != (
            #[trigger] scene.layers[l]) && scene.painted(primitive).tree[n] == (Placed {
                bounds: scene.layers[l].bounds,
                order: scene.painted(primitive).layers[l].order,
            }),
{
    let after = scene.painted(primitive);
    let next = next_order(scene.primitive_order(true, primitive.clipped()));
    let placed = risen(scene.layers, next);
    lemma_risen_layers_are_placed(scene.layers, next);
    let len = scene.tree.len() as int;
    assert(after.tree[n] == placed[n - len - 1]);
    let l = choose|l: int|
        0 <= l < scene.layers.len() && (#[trigger] scene.layers[l]).order < next && placed[n - len
            - 1] == (Placed { bounds: scene.layers[l].bounds, order: next });
    assert(after.layers[l].order == next);
    assert(after.layers[l] != scene.layers[l]);
}

/// Law: when a primitive that snapshots is painted, every open layer that rises is placed
/// in the tree where it rises to.
pub proof fn lemma_every_rising_layer_is_placed(
    scene: SceneModel,
    primitive: PrimitiveModel,
    i: int,
)
    requires
        primitive.snapshots(),
        !primitive.clipped().flat(),
        0 <= i < scene.layers.len(),
        scene.painted(primitive).layers[i] != scene.layers[i],
    ensures
        exists|m: int|
            scene.tree.len() < m < scene.painted(primitive).tree.len() && (
            #[trigger] scene.painted(primitive).tree[m]) == (Placed {
                bounds: scene.layers[i].bounds,
                order: scene.painted(primitive).layers[i].order,
            }),
{
    let after = scene.painted(primitive);
    let next = next_order(scene.primitive_order(true, primitive.clipped()));
    let placed = risen(scene.layers, next);
    lemma_risen_layers_are_placed(scene.layers, next);
    assert(scene.layers[i].order < next);
    let place = Placed { bounds: scene.layers[i].bounds, order: next };
    let m = choose|m: int| 0 <= m < placed.len() && placed[m] == place;
    assert(after.tree[scene.tree.len() + 1 + m] == place);
}

/// Law: a primitive that snapshots goes above what must be drawn before it, and
/// no higher than that needs: in a layer, above the layer and every order taken
/// so far; outside, above all that it overlaps. Every open layer, and the floor
/// of those to come, ends up above it.
pub proof fn lemma_snapshot_takes_its_order(scene: SceneModel, primitive: PrimitiveModel)
    requires
        primitive.snapshots(),
        !primitive.clipped().flat(),
    ensures
        ({
            let after = scene.painted(primitive);
            let order = order_field(after.operations.last()->Primitive_0);
            &&& after.operations.last() is Primitive
            &&& scene.layers.len() > 0 ==> {
                &&& order > scene.layers.last().order || order == u32::MAX
                &&& order > scene.highest || order == u32::MAX
                &&& order <= scene.layers.last().order + 1 || order <= scene.highest + 1
            }
            &&& scene.layers.len() == 0 ==> {
                ||| least_above(order, scene.tree, primitive.clipped()) && order >= next_order(
                    top_order(scene.layered, primitive.clipped()),
                )
                ||| least_above(order, scene.layered, primitive.clipped()) && order >= next_order(
                    top_order(scene.tree, primitive.clipped()),
                )
            }
            &&& after.tree.len() > scene.tree.len()
            &&& after.tree[scene.tree.len() as int] == Placed {
                bounds: primitive.clipped(),
                order,
            }
            &&& after.layered == scene.layered
            &&& after.layers.len() == scene.layers.len()
            &&& forall|i: int|
                0 <= i < after.layers.len() ==> {
                    &&& (#[trigger] after.layers[i]).bounds == scene.layers[i].bounds
                    &&& after.layers[i].order > order || order == u32::MAX
                    &&& after.layers[i].order >= scene.layers[i].order
                    &&& after.layers[i].order == scene.layers[i].order || after.layers[i].order
                        <= order + 1
                }
            &&& after.floor > order || order == u32::MAX
            &&& after.floor >= scene.floor
            &&& after.floor == scene.floor || after.floor <= order + 1
            &&& after.highest == (if scene.highest < order {
                order
            } else {
                scene.highest
            })
            &&& scene.tree.is_prefix_of(after.tree)
            &&& scene.layers.len() == 0 ==> after.tree.len() == scene.tree.len() + 1
        }),
{
    lemma_next_is_least_above(scene.tree, primitive.clipped());
    lemma_next_is_least_above(scene.layered, primitive.clipped());
}

/// Law: opening a layer adds one with the given bounds, at the least order that
/// is above all that it overlaps and not below the floor. It is recorded, it
/// stands in the tree, and no primitive changes.
pub proof fn lemma_opened_layer_is_the_innermost(scene: SceneModel, bounds: Bounds<ScaledPixels>)
    ensures
        ({
            let after = scene.opened(bounds);
            let layer = after.layers.last();
            &&& after.layers == scene.layers.push(layer)
            &&& layer.bounds == bounds
            &&& layer.order >= scene.floor
            &&& least_above(layer.order, scene.tree, bounds) || (layer.order == scene.floor
                && layer.order > top_order(scene.tree, bounds))
            &&& after.tree.last() == Placed { bounds, order: layer.order }
            &&& scene.tree.is_prefix_of(after.tree)
            &&& forall|n: int|
                scene.tree.len() <= n < after.tree.len() ==> (#[trigger] after.tree[n]).bounds
                    == bounds && after.tree[n].order <= layer.order
            &&& after.floor == scene.floor
            &&& after.highest == scene.highest
            &&& after.layered == scene.layered
            &&& after.operations == scene.operations.push(OperationModel::StartLayer(bounds))
            &&& same_primitives(scene, after)
        }),
{
    lemma_next_is_least_above(scene.tree, bounds);
}

/// Law: closing a layer takes the innermost one away, if there is one. It is
/// recorded, and nothing else changes.
pub proof fn lemma_closed_layer_is_gone(scene: SceneModel)
    ensures
        ({
            let after = scene.shut();
            &&& after.layers.len() == if scene.layers.len() == 0 {
                0
            } else {
                (scene.layers.len() - 1) as nat
            }
            &&& forall|i: int|
                0 <= i < after.layers.len() ==> #[trigger] after.layers[i] == scene.layers[i]
            &&& after.tree == scene.tree
            &&& after.floor == scene.floor
            &&& after.highest == scene.highest
            &&& after.layered == scene.layered
            &&& after.operations == scene.operations.push(OperationModel::EndLayer)
            &&& same_primitives(scene, after)
        }),
{
}

/// Law: a scene that paints nothing has no primitive, no layer and no recording.
pub proof fn lemma_empty_scene_paints_nothing()
    ensures
        ({
            let scene = SceneModel::empty();
            &&& scene.operations.len() == 0
            &&& scene.layers.len() == 0
            &&& scene.tree.len() == 0
            &&& scene.layered.len() == 0
            &&& scene.floor == 0
            &&& scene.highest == 0
            &&& scene.shadows.len() == 0
            &&& scene.quads.len() == 0
            &&& scene.backdrop_blur_rects.len() == 0
            &&& scene.effect_quads.len() == 0
            &&& scene.paths.len() == 0
            &&& scene.underlines.len() == 0
            &&& scene.monochrome_sprites.len() == 0
            &&& scene.subpixel_sprites.len() == 0
            &&& scene.polychrome_sprites.len() == 0
            &&& scene.surfaces.len() == 0
        }),
{
}

/// Law: replaying one operation has exactly the effect of the call that records
/// it, and replaying none has none.
pub proof fn lemma_replaying_is_painting_again(
    scene: SceneModel,
    operations: Seq<OperationModel>,
    primitive: PrimitiveModel,
    bounds: Bounds<ScaledPixels>,
)
    ensures
        scene.run(Seq::empty()) == scene,
        scene.run(operations.push(OperationModel::Primitive(primitive))) == scene.run(
            operations,
        ).painted(primitive),
        scene.run(operations.push(OperationModel::StartLayer(bounds))) == scene.run(
            operations,
        ).opened(bounds),
        scene.run(operations.push(OperationModel::EndLayer)) == scene.run(operations).shut(),
{
    assert(operations.push(OperationModel::Primitive(primitive)).drop_last() =~= operations);
    assert(operations.push(OperationModel::StartLayer(bounds)).drop_last() =~= operations);
    assert(operations.push(OperationModel::EndLayer).drop_last() =~= operations);
}

/// Law: a scene is always what replaying its recording onto an empty scene gives:
/// this holds of the empty scene, and painting a primitive, opening a layer and
/// closing one keep it so.
pub proof fn lemma_recording_rebuilds_the_scene(
    scene: SceneModel,
    primitive: PrimitiveModel,
    bounds: Bounds<ScaledPixels>,
)
    requires
        scene == SceneModel::empty().run(scene.operations),
    ensures
        SceneModel::empty() == SceneModel::empty().run(SceneModel::empty().operations),
        scene.painted(primitive) == SceneModel::empty().run(scene.painted(primitive).operations),
        scene.opened(bounds) == SceneModel::empty().run(scene.opened(bounds).operations),
        scene.shut() == SceneModel::empty().run(scene.shut().operations),
{
    let empty = SceneModel::empty();
    let kept = scene.kept(primitive);
    lemma_replaying_is_painting_again(empty, scene.operations, kept, bounds);
    assert(scene.painted(kept) == scene.painted(primitive)) by {
        assert(kept.clipped() == primitive.clipped());
        assert(kept.snapshots() == primitive.snapshots());
        assert(scene.kept(kept) == kept);
    }
    assert(empty.operations =~= Seq::empty());
}

/// Whether the items of `after` are those of `before`, each once: the one now at
/// `i` was at `from[i]`.
pub open spec fn rearranged<T>(before: Seq<T>, after: Seq<T>, from: Seq<int>) -> bool {
    &&& after.len() == before.len()
    &&& from.len() == before.len()
    &&& from.no_duplicates()
    &&& forall|i: int|
        0 <= i < from.len() ==> 0 <= #[trigger] from[i] < before.len() && after[i]
            == before[from[i]]
}

/// Whether `after` is `before` in the order of one number and then another, with
/// ties in the order they had.
pub open spec fn ordered_by<T>(
    before: Seq<T>,
    after: Seq<T>,
    first: spec_fn(T) -> int,
    second: spec_fn(T) -> int,
) -> bool {
    exists|from: Seq<int>| #[trigger]
        rearranged(before, after, from) && forall|i: int, j: int|
            0 <= i < j < after.len() ==> {
                ||| first(#[trigger] after[i]) < first(#[trigger] after[j])
                ||| first(after[i]) == first(after[j]) && second(after[i]) < second(after[j])
                ||| first(after[i]) == first(after[j]) && second(after[i]) == second(after[j])
                    && from[i] < from[j]
            }
}

/// A stable sort by two numbers puts the items in their order.
proof fn lemma_sorted_is_ordered<T: Keyed>(
    before: Seq<T>,
    after: Seq<T>,
    first: spec_fn(T) -> int,
    second: spec_fn(T) -> int,
)
    requires
        stable_sorted(before, after),
        forall|item: T| #[trigger] item.key() == (first(item), second(item)),
    ensures
        ordered_by(before, after, first, second),
{
    let from = choose|from: Seq<int>| sorts_as(before, after, from);
    assert(rearranged(before, after, from));
    assert forall|i: int, j: int| 0 <= i < j < after.len() implies {
        ||| first(#[trigger] after[i]) < first(#[trigger] after[j])
        ||| first(after[i]) == first(after[j]) && second(after[i]) < second(after[j])
        ||| first(after[i]) == first(after[j]) && second(after[i]) == second(after[j]) && from[i]
            < from[j]
    } by {
        assert(after[i].key() == (first(after[i]), second(after[i])));
        assert(after[j].key() == (first(after[j]), second(after[j])));
        assert(crate::sort::key_before(after[i].key(), after[j].key()) || (after[i].key()
            == after[j].key() && from[i] < from[j]));
    }
}

/// Law: finishing a scene puts every list in draw order, effect quads of one
/// order by effect, and sprites of one order by tile. Ties stay in the order of
/// painting, nothing is lost, and the recording stays.
pub proof fn lemma_finished_lists_are_in_draw_order(scene: SceneModel, finished: SceneModel)
    requires
        scene.finished_as(finished),
    ensures
        ordered_by(scene.shadows, finished.shadows, |p: Shadow| p.order as int, |p: Shadow| 0int),
        ordered_by(scene.quads, finished.quads, |p: Quad| p.order as int, |p: Quad| 0int),
        ordered_by(
            scene.backdrop_blur_rects,
            finished.backdrop_blur_rects,
            |p: BackdropBlurRect| p.order as int,
            |p: BackdropBlurRect| 0int,
        ),
        ordered_by(
            scene.effect_quads,
            finished.effect_quads,
            |p: EffectQuad| p.order as int,
            |p: EffectQuad| p.effect_id as int,
        ),
        ordered_by(
            scene.paths,
            finished.paths,
            |p: PathModel<ScaledPixels>| p.order as int,
            |p: PathModel<ScaledPixels>| 0int,
        ),
        ordered_by(
            scene.underlines,
            finished.underlines,
            |p: Underline| p.order as int,
            |p: Underline| 0int,
        ),
        ordered_by(
            scene.monochrome_sprites,
            finished.monochrome_sprites,
            |p: MonochromeSprite| p.order as int,
            |p: MonochromeSprite| p.tile.tile_id.0 as int,
        ),
        ordered_by(
            scene.subpixel_sprites,
            finished.subpixel_sprites,
            |p: SubpixelSprite| p.order as int,
            |p: SubpixelSprite| p.tile.tile_id.0 as int,
        ),
        ordered_by(
            scene.polychrome_sprites,
            finished.polychrome_sprites,
            |p: PolychromeSprite| p.order as int,
            |p: PolychromeSprite| p.tile.tile_id.0 as int,
        ),
        ordered_by(
            scene.surfaces,
            finished.surfaces,
            |p: PaintSurface| p.order as int,
            |p: PaintSurface| 0int,
        ),
        finished.operations == scene.operations,
        finished.layers == scene.layers,
        finished.tree == scene.tree,
        finished.floor == scene.floor,
        finished.highest == scene.highest,
        finished.layered == scene.layered,
{
    lemma_sorted_is_ordered(
        scene.shadows,
        finished.shadows,
        |p: Shadow| p.order as int,
        |p: Shadow| 0int,
    );
    lemma_sorted_is_ordered(
        scene.quads,
        finished.quads,
        |p: Quad| p.order as int,
        |p: Quad| 0int,
    );
    lemma_sorted_is_ordered(
        scene.backdrop_blur_rects,
        finished.backdrop_blur_rects,
        |p: BackdropBlurRect| p.order as int,
        |p: BackdropBlurRect| 0int,
    );
    lemma_sorted_is_ordered(
        scene.effect_quads,
        finished.effect_quads,
        |p: EffectQuad| p.order as int,
        |p: EffectQuad| p.effect_id as int,
    );
    lemma_sorted_is_ordered(
        scene.paths,
        finished.paths,
        |p: PathModel<ScaledPixels>| p.order as int,
        |p: PathModel<ScaledPixels>| 0int,
    );
    lemma_sorted_is_ordered(
        scene.underlines,
        finished.underlines,
        |p: Underline| p.order as int,
        |p: Underline| 0int,
    );
    lemma_sorted_is_ordered(
        scene.monochrome_sprites,
        finished.monochrome_sprites,
        |p: MonochromeSprite| p.order as int,
        |p: MonochromeSprite| p.tile.tile_id.0 as int,
    );
    lemma_sorted_is_ordered(
        scene.subpixel_sprites,
        finished.subpixel_sprites,
        |p: SubpixelSprite| p.order as int,
        |p: SubpixelSprite| p.tile.tile_id.0 as int,
    );
    lemma_sorted_is_ordered(
        scene.polychrome_sprites,
        finished.polychrome_sprites,
        |p: PolychromeSprite| p.order as int,
        |p: PolychromeSprite| p.tile.tile_id.0 as int,
    );
    lemma_sorted_is_ordered(
        scene.surfaces,
        finished.surfaces,
        |p: PaintSurface| p.order as int,
        |p: PaintSurface| 0int,
    );
}

} // verus!
