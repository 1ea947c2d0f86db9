//! What holds of every scene: the order of painting is kept where it can be
//! seen, and a recording can be painted again.

use crate::batch::drawn_before;
use crate::bounds_tree::{lemma_top_order_covers, next_order, Placed};
use crate::geometry::Bounds;
use crate::primitives::PrimitiveModel;
use crate::scalar::ScaledPixels;
use crate::scene::{raised, risen, Layer, OperationModel, SceneModel};
use crate::sort::lemma_stable_sort_is_unique;
use vstd::prelude::*;

verus! {

/// Whether no open layer lies below the floor.
pub open spec fn layers_clear_floor(scene: SceneModel) -> bool {
    forall|i: int|
        0 <= i < scene.layers.len() ==> (#[trigger] scene.layers[i]).order >= scene.floor
}

/// Whether a layer stands among some rectangles at its order.
pub open spec fn stands_in(tree: Seq<Placed<ScaledPixels>>, layer: Layer) -> bool {
    exists|n: int|
        0 <= n < tree.len() && (#[trigger] tree[n]) == (Placed {
            bounds: layer.bounds,
            order: layer.order,
        })
}

/// Whether every open layer stands in the tree at its order.
pub open spec fn layers_are_placed(scene: SceneModel) -> bool {
    forall|i: int|
        0 <= i < scene.layers.len() ==> stands_in(scene.tree, #[trigger] scene.layers[i])
}

/// Whether `after` may follow `before`: the floor has not sunk, no rectangle
/// was taken away, and the layers that are open in both, have not sunk.
pub open spec fn grows(before: SceneModel, after: SceneModel) -> bool {
    &&& before.floor <= after.floor
    &&& before.tree.is_prefix_of(after.tree)
    &&& forall|i: int|
        0 <= i < before.layers.len() && i < after.layers.len() ==> (#[trigger] after.layers[i]).order
            >= before.layers[i].order && after.layers[i].bounds == before.layers[i].bounds
}

/// Law: no operation lets an open layer sink below the floor; the floor, the
/// tree and the layers that stay open only grow.
pub proof fn lemma_operation_grows(scene: SceneModel, operation: OperationModel)
    requires
        layers_clear_floor(scene),
    ensures
        layers_clear_floor(scene.performed(operation)),
        grows(scene, scene.performed(operation)),
        scene.performed(operation).layers.len() <= scene.layers.len() + 1,
        scene.layers.len() <= scene.performed(operation).layers.len() + 1,
{
    let after = scene.performed(operation);
    match operation {
        OperationModel::Primitive(p) => {
            if !p.clipped().flat() && p.snapshots() {
                let order = scene.primitive_order(true, p.clipped());
                let entry = Placed { bounds: p.clipped(), order };
                let next = next_order(order);
                assert(after.tree == scene.tree.push(entry) + risen(scene.layers, next));
                assert(scene.tree =~= after.tree.take(scene.tree.len() as int));
                assert(after.layers == raised(scene.layers, next));
                assert forall|i: int| 0 <= i < after.layers.len() implies (
                #[trigger] after.layers[i]).order >= after.floor && after.layers[i].order
                    >= scene.layers[i].order && after.layers[i].bounds
                    == scene.layers[i].bounds by {
                    assert(scene.layers[i].order >= scene.floor);
                }
            } else if !p.clipped().flat() && scene.layers.len() == 0 {
                assert(scene.tree =~= after.tree.take(scene.tree.len() as int));
            } else {
                assert(scene.tree =~= after.tree.take(scene.tree.len() as int));
                assert(after.layers == scene.layers);
            }
        },
        OperationModel::StartLayer(bounds) => {
            assert(scene.tree =~= after.tree.take(scene.tree.len() as int));
            assert(after.layers.drop_last() =~= scene.layers);
            assert forall|i: int| 0 <= i < after.layers.len() implies (
            #[trigger] after.layers[i]).order >= after.floor by {
                if i < scene.layers.len() {
                    assert(after.layers[i] == scene.layers[i]);
                }
            }
        },
        OperationModel::EndLayer => {
            assert(scene.tree =~= after.tree.take(scene.tree.len() as int));
        },
    }
}

/// Law: along any run of operations the floor and the tree only grow and no
/// open layer sinks below the floor.
pub proof fn lemma_run_grows(scene: SceneModel, operations: Seq<OperationModel>)
    requires
        layers_clear_floor(scene),
    ensures
        layers_clear_floor(scene.run(operations)),
        scene.floor <= scene.run(operations).floor,
        scene.tree.is_prefix_of(scene.run(operations).tree),
    decreases operations.len(),
{
    if operations.len() > 0 {
        let middle = scene.run(operations.drop_last());
        lemma_run_grows(scene, operations.drop_last());
        lemma_operation_grows(middle, operations.last());
        let after = scene.run(operations);
        assert(scene.tree =~= after.tree.take(scene.tree.len() as int)) by {
            assert forall|i: int| 0 <= i < scene.tree.len() implies scene.tree[i]
                == after.tree[i] by {
                assert(scene.tree[i] == middle.tree[i]);
                assert(middle.tree[i] == after.tree[i]);
            }
        }
    }
}

/// Law: in every scene that was painted from nothing, no open layer lies below
/// the floor.
pub proof fn lemma_painted_scene_clears_floor(operations: Seq<OperationModel>)
    ensures
        layers_clear_floor(SceneModel::empty().run(operations)),
{
    lemma_run_grows(SceneModel::empty(), operations);
}

/// Painting a primitive outside any layer, or one that snapshots, places its
/// rectangle at its order.
proof fn lemma_painting_places(scene: SceneModel, primitive: PrimitiveModel)
    requires
        !primitive.clipped().flat(),
        primitive.snapshots() || scene.layers.len() == 0,
    ensures
        scene.painted(primitive).tree.len() > scene.tree.len(),
        scene.painted(primitive).tree[scene.tree.len() as int] == (Placed {
            bounds: primitive.clipped(),
            order: scene.kept(primitive).order(),
        }),
{
}

/// Law: whatever is painted after a primitive that is composited from a
/// snapshot is drawn after it, if it is painted in a layer or overlaps it. (A
/// primitive painted outside any layer that does not overlap it reads and
/// covers no pixel of it.) The highest order there is has none after it.
pub proof fn lemma_painted_after_snapshot_draws_after(
    scene: SceneModel,
    snapshot: PrimitiveModel,
    between: Seq<OperationModel>,
    later: PrimitiveModel,
)
    requires
        layers_clear_floor(scene),
        snapshot.snapshots(),
        !snapshot.clipped().flat(),
        scene.kept(snapshot).order() < u32::MAX,
        scene.painted(snapshot).run(between).layers.len() > 0 || snapshot.clipped().meets(
            later.clipped(),
        ),
    ensures
        scene.kept(snapshot).order() < scene.painted(snapshot).run(between).kept(later).order(),
{
    let order = scene.kept(snapshot).order();
    let first = scene.painted(snapshot);
    lemma_operation_grows(scene, OperationModel::Primitive(snapshot));
    assert(first.floor >= next_order(order));
    let now = first.run(between);
    lemma_run_grows(first, between);
    if now.layers.len() > 0 {
        assert(now.layers.last().order >= now.floor);
    } else {
        lemma_painting_places(scene, snapshot);
        let i = scene.tree.len() as int;
        assert(first.tree[i] == now.tree[i]);
        lemma_top_order_covers(now.tree, later.clipped(), i);
    }
}

/// A layer that has to rise is placed where it rises to.
proof fn lemma_risen_layer_is_placed(layers: Seq<Layer>, order: u32, i: int)
    requires
        0 <= i < layers.len(),
        layers[i].order < order,
    ensures
        stands_in(risen(layers, order), Layer { order, ..layers[i] }),
    decreases layers.len(),
{
    let above = risen(layers, order);
    let below = risen(layers.drop_last(), order);
    let layer = Layer { order, ..layers[i] };
    if i < layers.len() - 1 {
        lemma_risen_layer_is_placed(layers.drop_last(), order, i);
        let n = choose|n: int|
            0 <= n < below.len() && (#[trigger] below[n]) == (Placed {
                bounds: layer.bounds,
                order: layer.order,
            });
        assert(above[n] == below[n]);
    } else {
        assert(above[below.len() as int] == (Placed { bounds: layer.bounds, order }));
    }
}

/// Law: after every operation, each open layer stands in the tree at its order.
pub proof fn lemma_operation_keeps_layers_placed(scene: SceneModel, operation: OperationModel)
    requires
        layers_clear_floor(scene),
        layers_are_placed(scene),
    ensures
        layers_are_placed(scene.performed(operation)),
{
    let after = scene.performed(operation);
    lemma_operation_grows(scene, operation);
    assert forall|i: int| 0 <= i < after.layers.len() implies stands_in(
        after.tree,
        #[trigger] after.layers[i],
    ) by {
        let layer = after.layers[i];
        let place = Placed { bounds: layer.bounds, order: layer.order };
        if i < scene.layers.len() && layer == scene.layers[i] {
            assert(stands_in(scene.tree, scene.layers[i]));
            let n = choose|n: int| 0 <= n < scene.tree.len() && (#[trigger] scene.tree[n]) == place;
            assert(after.tree[n] == place);
        } else if i < scene.layers.len() {
            let p = operation->Primitive_0;
            let order = scene.primitive_order(true, p.clipped());
            let next = next_order(order);
            let risen = risen(scene.layers, next);
            let placed = scene.tree.push(Placed { bounds: p.clipped(), order });
            assert(after.tree == placed + risen);
            lemma_risen_layer_is_placed(scene.layers, next, i);
            let n = choose|n: int| 0 <= n < risen.len() && (#[trigger] risen[n]) == place;
            assert(after.tree[placed.len() + n] == place);
        } else {
            assert(after.tree.last() == place);
            assert(after.tree[after.tree.len() - 1] == place);
        }
    }
}

/// Law: in every scene that was painted from nothing, each open layer stands in
/// the tree at its order.
pub proof fn lemma_painted_scene_places_layers(operations: Seq<OperationModel>)
    ensures
        layers_are_placed(SceneModel::empty().run(operations)),
    decreases operations.len(),
{
    if operations.len() > 0 {
        let before = SceneModel::empty().run(operations.drop_last());
        lemma_painted_scene_places_layers(operations.drop_last());
        lemma_painted_scene_clears_floor(operations.drop_last());
        lemma_operation_keeps_layers_placed(before, operations.last());
    }
}

/// The rectangle that stands in the tree for what is painted now: the layer's,
/// or outside any layer the primitive's own.
pub open spec fn region(scene: SceneModel, primitive: PrimitiveModel) -> Bounds<ScaledPixels> {
    if scene.layers.len() == 0 {
        primitive.clipped()
    } else {
        scene.layers.last().bounds
    }
}

/// Painting a primitive leaves its region in the tree, at its order or above.
proof fn lemma_painting_places_region(scene: SceneModel, primitive: PrimitiveModel) -> (n: int)
    requires
        layers_clear_floor(scene),
        layers_are_placed(scene),
        !primitive.clipped().flat(),
    ensures
        0 <= n < scene.painted(primitive).tree.len(),
        scene.painted(primitive).tree[n].bounds == region(scene, primitive),
        scene.painted(primitive).tree[n].order >= scene.kept(primitive).order(),
{
    let after = scene.painted(primitive);
    if scene.layers.len() == 0 {
        lemma_painting_places(scene, primitive);
        scene.tree.len() as int
    } else {
        lemma_operation_keeps_layers_placed(scene, OperationModel::Primitive(primitive));
        let depth = scene.layers.len() as int;
        if primitive.snapshots() {
            assert(after.layers == raised(
                scene.layers,
                next_order(scene.kept(primitive).order()),
            ));
        }
        let layer = after.layers[depth - 1];
        assert(stands_in(after.tree, layer));
        choose|n: int|
            0 <= n < after.tree.len() && (#[trigger] after.tree[n]) == (Placed {
                bounds: layer.bounds,
                order: layer.order,
            })
    }
}

/// Law: what is painted outside any layer is drawn after everything painted
/// before it whose region it overlaps: whatever was painted outside any layer
/// and overlaps it, and whatever was painted in a layer that overlaps it.
pub proof fn lemma_overlapping_primitives_draw_in_order(
    scene: SceneModel,
    earlier: PrimitiveModel,
    between: Seq<OperationModel>,
    later: PrimitiveModel,
)
    requires
        layers_clear_floor(scene),
        layers_are_placed(scene),
        !earlier.clipped().flat(),
        scene.kept(earlier).order() < u32::MAX,
        scene.painted(earlier).run(between).layers.len() == 0,
        region(scene, earlier).meets(later.clipped()),
    ensures
        scene.kept(earlier).order() < scene.painted(earlier).run(between).kept(later).order(),
{
    let first = scene.painted(earlier);
    lemma_operation_grows(scene, OperationModel::Primitive(earlier));
    let now = first.run(between);
    lemma_run_grows(first, between);
    let n = lemma_painting_places_region(scene, earlier);
    assert(first.tree[n] == now.tree[n]);
    lemma_top_order_covers(now.tree, later.clipped(), n);
}

/// Whether the layer at `depth` (counted from 1, the outermost) stays open all
/// along a run of operations.
pub open spec fn stays_open(
    scene: SceneModel,
    operations: Seq<OperationModel>,
    depth: int,
) -> bool {
    forall|n: int|
        0 <= n <= operations.len() ==> (#[trigger] scene.run(operations.take(n))).layers.len()
            >= depth
}

/// Law: a layer that stays open never sinks.
pub proof fn lemma_open_layer_never_sinks(
    scene: SceneModel,
    operations: Seq<OperationModel>,
    depth: int,
)
    requires
        layers_clear_floor(scene),
        0 < depth,
        stays_open(scene, operations, depth),
    ensures
        scene.run(operations).layers.len() >= depth,
        scene.run(operations).layers[depth - 1].order >= scene.layers[depth - 1].order,
    decreases operations.len(),
{
    assert(operations.take(operations.len() as int) =~= operations);
    if operations.len() > 0 {
        let less = operations.drop_last();
        assert forall|n: int| 0 <= n <= less.len() implies (
        #[trigger] scene.run(less.take(n))).layers.len() >= depth by {
            assert(less.take(n) =~= operations.take(n));
        }
        lemma_open_layer_never_sinks(scene, less, depth);
        lemma_run_grows(scene, less);
        lemma_operation_grows(scene.run(less), operations.last());
    } else {
        assert(scene.run(operations.take(0)).layers.len() >= depth);
    }
}

/// Law: along any run of operations the highest order taken only grows.
pub proof fn lemma_highest_order_grows(scene: SceneModel, operations: Seq<OperationModel>)
    ensures
        scene.highest <= scene.run(operations).highest,
    decreases operations.len(),
{
    if operations.len() > 0 {
        lemma_highest_order_grows(scene, operations.drop_last());
    }
}

/// Law: along any run of operations, what was painted in layers stays known.
pub proof fn lemma_layered_grows(scene: SceneModel, operations: Seq<OperationModel>)
    ensures
        scene.layered.is_prefix_of(scene.run(operations).layered),
    decreases operations.len(),
{
    if operations.len() > 0 {
        let middle = scene.run(operations.drop_last());
        let after = scene.run(operations);
        lemma_layered_grows(scene, operations.drop_last());
        assert forall|i: int| 0 <= i < scene.layered.len() implies scene.layered[i]
            == after.layered[i] by {
            assert(scene.layered[i] == middle.layered[i]);
            assert(middle.layered[i] == after.layered[i]);
        }
        assert(scene.layered =~= after.layered.take(scene.layered.len() as int));
    }
}

/// Law: everything painted before a primitive that is composited from a snapshot
/// is drawn before it, whatever happens in between and in whichever layer it was
/// painted, if the snapshot is painted in a layer or overlaps it. (A snapshot
/// outside any layer reads and covers no pixel of what it does not overlap.) The
/// highest order there is has none after it.
pub proof fn lemma_painted_before_snapshot_draws_before(
    scene: SceneModel,
    earlier: PrimitiveModel,
    between: Seq<OperationModel>,
    snapshot: PrimitiveModel,
)
    requires
        layers_clear_floor(scene),
        !earlier.clipped().flat(),
        scene.kept(earlier).order() < u32::MAX,
        snapshot.snapshots(),
        scene.painted(earlier).run(between).layers.len() > 0 || earlier.clipped().meets(
            snapshot.clipped(),
        ),
    ensures
        scene.kept(earlier).order() < scene.painted(earlier).run(between).kept(snapshot).order(),
        drawn_before(
            scene.kept(earlier).order(),
            earlier.kind().place(),
            scene.painted(earlier).run(between).kept(snapshot).order(),
            snapshot.kind().place(),
        ),
{
    let first = scene.painted(earlier);
    let now = first.run(between);
    assert(scene.kept(earlier).order() <= first.highest);
    lemma_highest_order_grows(first, between);
    if now.layers.len() == 0 {
        let entry = Placed { bounds: earlier.clipped(), order: scene.kept(earlier).order() };
        if scene.layers.len() == 0 || earlier.snapshots() {
            lemma_operation_grows(scene, OperationModel::Primitive(earlier));
            lemma_run_grows(first, between);
            lemma_painting_places(scene, earlier);
            let i = scene.tree.len() as int;
            assert(now.tree[i] == first.tree[i]);
            lemma_top_order_covers(now.tree, snapshot.clipped(), i);
        } else {
            lemma_layered_grows(first, between);
            let i = scene.layered.len() as int;
            assert(first.layered[i] == entry);
            assert(now.layered[i] == first.layered[i]);
            lemma_top_order_covers(now.layered, snapshot.clipped(), i);
        }
    }
}

/// Law: within one layer, a later primitive is never drawn below an earlier
/// one.
pub proof fn lemma_layer_keeps_order(
    scene: SceneModel,
    earlier: PrimitiveModel,
    between: Seq<OperationModel>,
    later: PrimitiveModel,
)
    requires
        layers_clear_floor(scene),
        scene.layers.len() > 0,
        !earlier.clipped().flat(),
        stays_open(scene.painted(earlier), between, scene.layers.len() as int),
        scene.painted(earlier).run(between).layers.len() == scene.layers.len(),
    ensures
        scene.kept(earlier).order() <= scene.painted(earlier).run(between).kept(later).order(),
{
    let first = scene.painted(earlier);
    let depth = scene.layers.len() as int;
    lemma_operation_grows(scene, OperationModel::Primitive(earlier));
    lemma_open_layer_never_sinks(first, between, depth);
    if earlier.snapshots() {
        assert(first.layers == raised(scene.layers, next_order(scene.kept(earlier).order())));
    }
    assert(first.layers[depth - 1].order >= scene.kept(earlier).order());
}

/// Law: a layer opens at or above the floor, and strictly above everything
/// that its bounds overlap.
pub proof fn lemma_layer_opens_above(scene: SceneModel, bounds: Bounds<ScaledPixels>, i: int)
    requires
        0 <= i < scene.tree.len(),
        scene.tree[i].bounds.meets(bounds),
        scene.tree[i].order < u32::MAX,
    ensures
        scene.opened(bounds).layers.last().order >= scene.floor,
        scene.opened(bounds).layers.last().order > scene.tree[i].order,
{
    lemma_top_order_covers(scene.tree, bounds, i);
}

/// Law: what is painted in a layer is drawn after everything painted before the
/// layer was opened whose region the layer overlaps.
pub proof fn lemma_overlapping_layer_draws_after(
    scene: SceneModel,
    earlier: PrimitiveModel,
    between: Seq<OperationModel>,
    bounds: Bounds<ScaledPixels>,
    inside: Seq<OperationModel>,
    later: PrimitiveModel,
)
    requires
        layers_clear_floor(scene),
        layers_are_placed(scene),
        !earlier.clipped().flat(),
        scene.kept(earlier).order() < u32::MAX,
        region(scene, earlier).meets(bounds),
        ({
            let opened = scene.painted(earlier).run(between).opened(bounds);
            &&& stays_open(opened, inside, opened.layers.len() as int)
            &&& opened.run(inside).layers.len() == opened.layers.len()
        }),
    ensures
        scene.kept(earlier).order() < scene.painted(earlier).run(between).opened(bounds).run(
            inside,
        ).kept(later).order(),
{
    let first = scene.painted(earlier);
    lemma_operation_grows(scene, OperationModel::Primitive(earlier));
    let now = first.run(between);
    lemma_run_grows(first, between);
    let n = lemma_painting_places_region(scene, earlier);
    assert(first.tree[n] == now.tree[n]);
    lemma_top_order_covers(now.tree, bounds, n);
    let opened = now.opened(bounds);
    lemma_operation_grows(now, OperationModel::StartLayer(bounds));
    lemma_open_layer_never_sinks(opened, inside, opened.layers.len() as int);
}

/// Law: opening a layer and closing it again leaves the open layers and the
/// floor as they were.
pub proof fn lemma_layers_nest(scene: SceneModel, bounds: Bounds<ScaledPixels>)
    ensures
        scene.opened(bounds).shut().layers == scene.layers,
        scene.opened(bounds).shut().floor == scene.floor,
{
    assert(scene.opened(bounds).shut().layers =~= scene.layers);
}

/// Whether a scene is what its recording paints on an empty one.
pub open spec fn recorded(scene: SceneModel) -> bool {
    scene == SceneModel::empty().run(scene.operations)
}

/// The recording of one operation more has the effect of the operation.
proof fn lemma_run_push(
    scene: SceneModel,
    operations: Seq<OperationModel>,
    operation: OperationModel,
)
    ensures
        scene.run(operations.push(operation)) == scene.run(operations).performed(operation),
{
    assert(operations.push(operation).drop_last() =~= operations);
}

/// Painting a primitive as it was kept has the effect of painting it as it was
/// given.
proof fn lemma_kept_paints_the_same(scene: SceneModel, primitive: PrimitiveModel)
    ensures
        scene.painted(scene.kept(primitive)) == scene.painted(primitive),
{
    let kept = scene.kept(primitive);
    assert(kept.clipped() == primitive.clipped());
    assert(kept.snapshots() == primitive.snapshots());
    assert(scene.kept(kept) == kept);
}

/// Law: a scene painted from nothing by any operations is what its recording
/// paints: the recording is complete.
pub proof fn lemma_recording_is_complete(operations: Seq<OperationModel>)
    ensures
        recorded(SceneModel::empty().run(operations)),
    decreases operations.len(),
{
    let empty = SceneModel::empty();
    if operations.len() > 0 {
        let before = empty.run(operations.drop_last());
        let operation = operations.last();
        lemma_recording_is_complete(operations.drop_last());
        match operation {
            OperationModel::Primitive(p) => {
                if !p.clipped().flat() {
                    let kept = OperationModel::Primitive(before.kept(p));
                    lemma_run_push(empty, before.operations, kept);
                    lemma_kept_paints_the_same(before, p);
                }
            },
            _ => {
                lemma_run_push(empty, before.operations, operation);
            },
        }
    }
}

/// Law: replaying the whole recording of a finished scene onto an empty one
/// rebuilds what was painted, and finishing it gives the same scene again.
pub proof fn lemma_replay_rebuilds(
    operations: Seq<OperationModel>,
    finished: SceneModel,
    replayed: SceneModel,
    refinished: SceneModel,
)
    requires
        SceneModel::empty().run(operations).finished_as(finished),
        replayed == SceneModel::empty().run(
            finished.operations.subrange(0, finished.operations.len() as int),
        ),
        replayed.finished_as(refinished),
    ensures
        replayed == SceneModel::empty().run(operations),
        refinished == finished,
{
    let painted = SceneModel::empty().run(operations);
    lemma_recording_is_complete(operations);
    assert(finished.operations.subrange(0, finished.operations.len() as int)
        =~= painted.operations);
    lemma_stable_sort_is_unique(painted.shadows, finished.shadows, refinished.shadows);
    lemma_stable_sort_is_unique(painted.quads, finished.quads, refinished.quads);
    lemma_stable_sort_is_unique(
        painted.backdrop_blur_rects,
        finished.backdrop_blur_rects,
        refinished.backdrop_blur_rects,
    );
    lemma_stable_sort_is_unique(
        painted.effect_quads,
        finished.effect_quads,
        refinished.effect_quads,
    );
    lemma_stable_sort_is_unique(painted.paths, finished.paths, refinished.paths);
    lemma_stable_sort_is_unique(painted.underlines, finished.underlines, refinished.underlines);
    lemma_stable_sort_is_unique(
        painted.monochrome_sprites,
        finished.monochrome_sprites,
        refinished.monochrome_sprites,
    );
    lemma_stable_sort_is_unique(
        painted.subpixel_sprites,
        finished.subpixel_sprites,
        refinished.subpixel_sprites,
    );
    lemma_stable_sort_is_unique(
        painted.polychrome_sprites,
        finished.polychrome_sprites,
        refinished.polychrome_sprites,
    );
    lemma_stable_sort_is_unique(painted.surfaces, finished.surfaces, refinished.surfaces);
}

/// Law: replaying a recording in two parts has the effect of replaying it
/// whole.
pub proof fn lemma_replay_in_parts(
    scene: SceneModel,
    first: Seq<OperationModel>,
    second: Seq<OperationModel>,
)
    ensures
        scene.run(first).run(second) == scene.run(first + second),
    decreases second.len(),
{
    if second.len() == 0 {
        assert(first + second =~= first);
    } else {
        lemma_replay_in_parts(scene, first, second.drop_last());
        assert((first + second).drop_last() =~= first + second.drop_last());
    }
}

} // verus!
