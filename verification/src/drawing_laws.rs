//! What drawing a scene comes to, told by the records in the scene's lists.

use crate::backdrop::{
    backdrop_steps, blur_items, blur_passes, down_passes, effect_items, group_end, group_steps,
    lemma_group_end, steps_from, up_passes, BackdropItem, BackdropStep,
};
use crate::batch::{
    drawn_before, first_positions, lane, lanes, next_run, BatchKey, BatchRun, DrawItem,
    PrimitiveBatch, KIND_COUNT,
};
use crate::batch_laws::{
    all_items, below_the_top, below_top, drawable, lemma_batch_draws_first, lemma_batch_takes_next,
    lemma_batch_takes_some, lemma_batches_are_maximal, lemma_everything_is_drawn_once,
    lemma_finished_scene_is_drawable, run_items, runs, within,
};
use crate::draw_plan::{
    batch_plan, draws_runs, effect_plan, effect_uploads,
    lemma_effect_uploaded_iff_used, scene_summary, scene_uploads, upload_if, BatchDraw, BatchPlan,
    BatchPlanModel, BufferUpload, EffectPlan, EffectPlanModel, InstancePipeline,
};
use crate::effect::{EffectQuad, EFFECT_FLAG_NEEDS_BACKDROP};
use crate::primitives::PrimitiveKind;
use crate::scene::SceneModel;
use crate::text::decimal;
use vstd::prelude::*;

verus! {

/// How many primitives of a kind a scene holds.
pub open spec fn kind_count(scene: SceneModel, kind: PrimitiveKind) -> nat {
    match kind {
        PrimitiveKind::Shadow => scene.shadows.len(),
        PrimitiveKind::Quad => scene.quads.len(),
        PrimitiveKind::BackdropBlurRect => scene.backdrop_blur_rects.len(),
        PrimitiveKind::EffectQuad => scene.effect_quads.len(),
        PrimitiveKind::Path => scene.paths.len(),
        PrimitiveKind::Underline => scene.underlines.len(),
        PrimitiveKind::MonochromeSprite => scene.monochrome_sprites.len(),
        PrimitiveKind::SubpixelSprite => scene.subpixel_sprites.len(),
        PrimitiveKind::PolychromeSprite => scene.polychrome_sprites.len(),
        PrimitiveKind::Surface => scene.surfaces.len(),
    }
}

/// The order field of the primitive at a place of the list of its kind.
pub open spec fn kind_order(scene: SceneModel, kind: PrimitiveKind, i: int) -> u32 {
    match kind {
        PrimitiveKind::Shadow => scene.shadows[i].order,
        PrimitiveKind::Quad => scene.quads[i].order,
        PrimitiveKind::BackdropBlurRect => scene.backdrop_blur_rects[i].order,
        PrimitiveKind::EffectQuad => scene.effect_quads[i].order,
        PrimitiveKind::Path => scene.paths[i].order,
        PrimitiveKind::Underline => scene.underlines[i].order,
        PrimitiveKind::MonochromeSprite => scene.monochrome_sprites[i].order,
        PrimitiveKind::SubpixelSprite => scene.subpixel_sprites[i].order,
        PrimitiveKind::PolychromeSprite => scene.polychrome_sprites[i].order,
        PrimitiveKind::Surface => scene.surfaces[i].order,
    }
}

/// Whether a batch draws the primitive at a place of the list of its kind.
pub open spec fn draws(batch: PrimitiveBatch, kind: PrimitiveKind, i: int) -> bool {
    match batch {
        PrimitiveBatch::Shadows(range) => kind is Shadow && range.start <= i < range.end,
        PrimitiveBatch::Quads(range) => kind is Quad && range.start <= i < range.end,
        PrimitiveBatch::BackdropBlurRects(range) => kind is BackdropBlurRect && range.start <= i
            < range.end,
        PrimitiveBatch::EffectQuads { effect_id, range } => kind is EffectQuad && range.start <= i
            < range.end,
        PrimitiveBatch::Paths(range) => kind is Path && range.start <= i < range.end,
        PrimitiveBatch::Underlines(range) => kind is Underline && range.start <= i < range.end,
        PrimitiveBatch::MonochromeSprites { texture_id, range } => kind is MonochromeSprite
            && range.start <= i < range.end,
        PrimitiveBatch::SubpixelSprites { texture_id, range } => kind is SubpixelSprite
            && range.start <= i < range.end,
        PrimitiveBatch::PolychromeSprites { texture_id, range } => kind is PolychromeSprite
            && range.start <= i < range.end,
        PrimitiveBatch::Surfaces(range) => kind is Surface && range.start <= i < range.end,
    }
}

/// Whether these are the batches of a scene, one after the other.
pub open spec fn batches_of(scene: SceneModel, batches: Seq<PrimitiveBatch>) -> bool {
    let runs = runs(lanes(scene), first_positions());
    &&& batches.len() == runs.len()
    &&& forall|b: int| 0 <= b < batches.len() ==> (#[trigger] batches[b]).run() == runs[b]
}

/// Whether no primitive of a scene is as high as orders go.
pub open spec fn orders_leave_room(scene: SceneModel) -> bool {
    forall|kind: PrimitiveKind, i: int|
        0 <= i < kind_count(scene, kind) ==> #[trigger] kind_order(scene, kind, i) < u32::MAX
}

/// Law: of equal draw order, shadows go first, then quads, backdrop blurs, effect
/// quads, paths, underlines, monochrome, subpixel and polychrome sprites, and
/// surfaces; no two kinds share a place.
pub proof fn lemma_kinds_have_their_places(a: PrimitiveKind, b: PrimitiveKind)
    ensures
        0 <= PrimitiveKind::Shadow.place() < PrimitiveKind::Quad.place()
            < PrimitiveKind::BackdropBlurRect.place() < PrimitiveKind::EffectQuad.place()
            < PrimitiveKind::Path.place() < PrimitiveKind::Underline.place()
            < PrimitiveKind::MonochromeSprite.place() < PrimitiveKind::SubpixelSprite.place()
            < PrimitiveKind::PolychromeSprite.place() < PrimitiveKind::Surface.place()
            < KIND_COUNT,
        a.place() == b.place() ==> a == b,
        0 <= a.place() < KIND_COUNT,
{
}

/// The kind at a place.
spec fn kind_at(place: int) -> PrimitiveKind {
    if place == 0 {
        PrimitiveKind::Shadow
    } else if place == 1 {
        PrimitiveKind::Quad
    } else if place == 2 {
        PrimitiveKind::BackdropBlurRect
    } else if place == 3 {
        PrimitiveKind::EffectQuad
    } else if place == 4 {
        PrimitiveKind::Path
    } else if place == 5 {
        PrimitiveKind::Underline
    } else if place == 6 {
        PrimitiveKind::MonochromeSprite
    } else if place == 7 {
        PrimitiveKind::SubpixelSprite
    } else if place == 8 {
        PrimitiveKind::PolychromeSprite
    } else {
        PrimitiveKind::Surface
    }
}

/// Law: batching sees every primitive of every kind, each with its own order,
/// effect quads with their effect and sprites with their texture.
pub proof fn lemma_batching_sees_the_lists(scene: SceneModel, kind: PrimitiveKind)
    ensures
        lanes(scene).len() == KIND_COUNT,
        lanes(scene)[kind.place()].len() == kind_count(scene, kind),
        forall|i: int|
            0 <= i < kind_count(scene, kind) ==> {
                let item = #[trigger] lanes(scene)[kind.place()][i];
                &&& item.order == kind_order(scene, kind, i)
                &&& item.key == match kind {
                    PrimitiveKind::EffectQuad => BatchKey::Effect(scene.effect_quads[i].effect_id),
                    PrimitiveKind::MonochromeSprite => BatchKey::Texture(
                        scene.monochrome_sprites[i].tile.texture_id,
                    ),
                    PrimitiveKind::SubpixelSprite => BatchKey::Texture(
                        scene.subpixel_sprites[i].tile.texture_id,
                    ),
                    PrimitiveKind::PolychromeSprite => BatchKey::Texture(
                        scene.polychrome_sprites[i].tile.texture_id,
                    ),
                    _ => BatchKey::Whole,
                }
            },
{
}

/// What a batch says of itself is what it draws.
proof fn lemma_run_draws(batch: PrimitiveBatch, kind: PrimitiveKind, i: int)
    ensures
        draws(batch, kind, i) <==> batch.run().kind == kind.place() && batch.run().start <= i
            < batch.run().end,
{
}

proof fn lemma_below_top(scene: SceneModel)
    requires
        orders_leave_room(scene),
    ensures
        below_the_top(scene),
        below_top(lanes(scene)),
        within(lanes(scene), first_positions()),
{
    let lanes = lanes(scene);
    assert forall|k: int, i: int| 0 <= k < KIND_COUNT && 0 <= i < lane(scene, k).len() implies (
    #[trigger] lane(scene, k)[i]).order < u32::MAX by {
        let kind = kind_at(k);
        lemma_batching_sees_the_lists(scene, kind);
        assert(kind.place() == k);
        assert(lanes[k] == lane(scene, k));
        assert(lanes[k][i].order == kind_order(scene, kind, i));
    }
    assert forall|k: int, i: int| 0 <= k < lanes.len() && 0 <= i < lanes[k].len() implies (
    #[trigger] lanes[k][i]).order < u32::MAX by {
        assert(lane(scene, k)[i].order < u32::MAX);
    }
}

/// The items of a run are among the items of all.
proof fn lemma_run_is_drawn(runs: Seq<BatchRun>, b: int, i: int)
    requires
        0 <= b < runs.len(),
        runs[b].start <= i < runs[b].end,
    ensures
        all_items(runs).contains((runs[b].kind, i)),
    decreases runs.len(),
{
    let head = run_items(runs[0]);
    let rest = runs.drop_first();
    let all = all_items(runs);
    if b == 0 {
        assert(all[i - runs[0].start] == (runs[0].kind, i));
    } else {
        lemma_run_is_drawn(rest, b - 1, i);
        let tail = all_items(rest);
        let n = choose|n: int| 0 <= n < tail.len() && tail[n] == (runs[b].kind, i);
        assert(all[head.len() + n] == (runs[b].kind, i));
    }
}

/// An item of all is in some run.
proof fn lemma_drawn_is_in_a_run(runs: Seq<BatchRun>, k: int, i: int) -> (b: int)
    requires
        all_items(runs).contains((k, i)),
        forall|b: int| 0 <= b < runs.len() ==> (#[trigger] runs[b]).start <= runs[b].end,
    ensures
        0 <= b < runs.len(),
        runs[b].kind == k,
        runs[b].start <= i < runs[b].end,
    decreases runs.len(),
{
    let head = run_items(runs[0]);
    let rest = runs.drop_first();
    let all = all_items(runs);
    let n = choose|n: int| 0 <= n < all.len() && all[n] == (k, i);
    if n < head.len() {
        assert(all[n] == head[n]);
        0
    } else {
        let tail = all_items(rest);
        assert(tail[n - head.len()] == (k, i));
        let c = lemma_drawn_is_in_a_run(rest, k, i);
        c + 1
    }
}

/// A later run holds nothing that an earlier one holds, and only items that are
/// still left.
proof fn lemma_later_run_is_left(
    lanes: Seq<Seq<DrawItem>>,
    positions: Seq<nat>,
    b: int,
    c: int,
    i: int,
    j: int,
)
    requires
        below_top(lanes),
        within(lanes, positions),
        0 <= b < c < runs(lanes, positions).len(),
        runs(lanes, positions)[b].start <= i < runs(lanes, positions)[b].end,
        runs(lanes, positions)[c].start <= j < runs(lanes, positions)[c].end,
    ensures
        runs(lanes, positions)[b].kind != runs(lanes, positions)[c].kind || i < j,
    decreases b,
{
    lemma_batch_takes_next(lanes, positions);
    lemma_batch_takes_some(lanes, positions);
    let run = next_run(lanes, positions)->0;
    let after = positions.update(run.kind, run.end as nat);
    let all = runs(lanes, positions);
    let rest = runs(lanes, after);
    assert(all == seq![run] + rest);
    assert(all[c] == rest[c - 1]);
    if b == 0 {
        lemma_run_is_drawn(rest, c - 1, j);
        lemma_everything_is_drawn_once(lanes, after);
        assert(all_items(rest).contains((rest[c - 1].kind, j)));
    } else {
        assert(all[b] == rest[b - 1]);
        lemma_later_run_is_left(lanes, after, b - 1, c - 1, i, j);
    }
}

/// Nothing of a later run is drawn before something of an earlier one.
proof fn lemma_runs_are_in_order(
    lanes: Seq<Seq<DrawItem>>,
    positions: Seq<nat>,
    b: int,
    c: int,
    i: int,
    j: int,
)
    requires
        drawable(lanes),
        within(lanes, positions),
        0 <= b < c < runs(lanes, positions).len(),
        runs(lanes, positions)[b].start <= i < runs(lanes, positions)[b].end,
        runs(lanes, positions)[c].start <= j < runs(lanes, positions)[c].end,
    ensures
        ({
            let k = runs(lanes, positions)[b].kind;
            let l = runs(lanes, positions)[c].kind;
            !drawn_before(lanes[l][j].order, l, lanes[k][i].order, k)
        }),
    decreases b,
{
    lemma_batch_takes_next(lanes, positions);
    lemma_batch_takes_some(lanes, positions);
    let run = next_run(lanes, positions)->0;
    let after = positions.update(run.kind, run.end as nat);
    let all = runs(lanes, positions);
    let rest = runs(lanes, after);
    assert(all == seq![run] + rest);
    assert(all[c] == rest[c - 1]);
    if b == 0 {
        lemma_run_is_drawn(rest, c - 1, j);
        lemma_everything_is_drawn_once(lanes, after);
        assert(all_items(rest).contains((rest[c - 1].kind, j)));
        lemma_batch_draws_first(lanes, positions, i, rest[c - 1].kind, j);
    } else {
        assert(all[b] == rest[b - 1]);
        lemma_runs_are_in_order(lanes, after, b - 1, c - 1, i, j);
    }
}

/// All items of a run have its key and are there, and the next run is of another
/// kind or key.
proof fn lemma_runs_have_their_keys(lanes: Seq<Seq<DrawItem>>, positions: Seq<nat>, b: int)
    requires
        below_top(lanes),
        within(lanes, positions),
        0 <= b < runs(lanes, positions).len(),
    ensures
        ({
            let run = runs(lanes, positions)[b];
            &&& 0 <= run.kind < lanes.len()
            &&& 0 <= run.start < run.end <= lanes[run.kind].len()
            &&& forall|i: int|
                run.start <= i < run.end ==> (#[trigger] lanes[run.kind][i]).key == run.key
            &&& b + 1 < runs(lanes, positions).len() ==> {
                let then = runs(lanes, positions)[b + 1];
                then.kind != run.kind || then.key != run.key
            }
        }),
    decreases b,
{
    lemma_batch_takes_next(lanes, positions);
    lemma_batch_takes_some(lanes, positions);
    lemma_batches_are_maximal(lanes, positions);
    let run = next_run(lanes, positions)->0;
    let after = positions.update(run.kind, run.end as nat);
    let all = runs(lanes, positions);
    let rest = runs(lanes, after);
    assert(all == seq![run] + rest);
    if b == 0 {
        if all.len() > 1 {
            assert(all[1] == rest[0]);
            lemma_batch_takes_next(lanes, after);
            lemma_batch_takes_some(lanes, after);
        }
    } else {
        assert(all[b] == rest[b - 1]);
        lemma_runs_have_their_keys(lanes, after, b - 1);
        if b + 1 < all.len() {
            assert(all[b + 1] == rest[b]);
        }
    }
}

/// Law: the batches of a scene draw every primitive of every kind once and no
/// other, as long as no order is as high as orders go. The sprites of a batch are
/// on its texture, and the effect quads of a batch have its effect.
pub proof fn lemma_batches_draw_every_primitive_once(
    scene: SceneModel,
    batches: Seq<PrimitiveBatch>,
    kind: PrimitiveKind,
    i: int,
)
    requires
        orders_leave_room(scene),
        batches_of(scene, batches),
    ensures
        0 <= i < kind_count(scene, kind) ==> exists|b: int|
            0 <= b < batches.len() && #[trigger] draws(batches[b], kind, i),
        forall|b: int, kind: PrimitiveKind, i: int|
            0 <= b < batches.len() && #[trigger] draws(batches[b], kind, i) ==> 0 <= i
                < kind_count(scene, kind),
        forall|b: int, c: int, kind: PrimitiveKind, i: int|
            0 <= b < c < batches.len() && #[trigger] draws(batches[b], kind, i)
                ==> !#[trigger] draws(batches[c], kind, i),
        forall|b: int|
            0 <= b < batches.len() ==> match #[trigger] batches[b] {
                PrimitiveBatch::EffectQuads { effect_id, range } => forall|i: int|
                    range.start <= i < range.end ==> (#[trigger] scene.effect_quads[i]).effect_id
                        == effect_id,
                PrimitiveBatch::MonochromeSprites { texture_id, range } => forall|i: int|
                    range.start <= i < range.end ==> (
                    #[trigger] scene.monochrome_sprites[i]).tile.texture_id == texture_id,
                PrimitiveBatch::SubpixelSprites { texture_id, range } => forall|i: int|
                    range.start <= i < range.end ==> (
                    #[trigger] scene.subpixel_sprites[i]).tile.texture_id == texture_id,
                PrimitiveBatch::PolychromeSprites { texture_id, range } => forall|i: int|
                    range.start <= i < range.end ==> (
                    #[trigger] scene.polychrome_sprites[i]).tile.texture_id == texture_id,
                _ => true,
            },
{
    let all = lanes(scene);
    let start = first_positions();
    let runs = runs(all, start);
    lemma_below_top(scene);
    lemma_everything_is_drawn_once(all, start);
    if 0 <= i < kind_count(scene, kind) {
        lemma_batching_sees_the_lists(scene, kind);
        assert(all_items(runs).contains((kind.place(), i)));
        assert forall|b: int| 0 <= b < runs.len() implies (#[trigger] runs[b]).start
            <= runs[b].end by {
            lemma_runs_have_their_keys(all, start, b);
        }
        let b = lemma_drawn_is_in_a_run(runs, kind.place(), i);
        lemma_run_draws(batches[b], kind, i);
        assert(draws(batches[b], kind, i));
    }
    assert forall|b: int, kind: PrimitiveKind, i: int|
        0 <= b < batches.len() && #[trigger] draws(batches[b], kind, i) implies 0 <= i
        < kind_count(scene, kind) by {
        lemma_run_draws(batches[b], kind, i);
        lemma_runs_have_their_keys(all, start, b);
        lemma_batching_sees_the_lists(scene, kind);
    }
    assert forall|b: int, c: int, kind: PrimitiveKind, i: int|
        0 <= b < c < batches.len() && #[trigger] draws(batches[b], kind, i) implies !
        #[trigger] draws(batches[c], kind, i) by {
        if draws(batches[c], kind, i) {
            lemma_run_draws(batches[b], kind, i);
            lemma_run_draws(batches[c], kind, i);
            lemma_later_run_is_left(all, start, b, c, i, i);
        }
    }
    assert forall|b: int| 0 <= b < batches.len() implies match #[trigger] batches[b] {
        PrimitiveBatch::EffectQuads { effect_id, range } => forall|i: int|
            range.start <= i < range.end ==> (#[trigger] scene.effect_quads[i]).effect_id
                == effect_id,
        PrimitiveBatch::MonochromeSprites { texture_id, range } => forall|i: int|
            range.start <= i < range.end ==> (
            #[trigger] scene.monochrome_sprites[i]).tile.texture_id == texture_id,
        PrimitiveBatch::SubpixelSprites { texture_id, range } => forall|i: int|
            range.start <= i < range.end ==> (
            #[trigger] scene.subpixel_sprites[i]).tile.texture_id == texture_id,
        PrimitiveBatch::PolychromeSprites { texture_id, range } => forall|i: int|
            range.start <= i < range.end ==> (
            #[trigger] scene.polychrome_sprites[i]).tile.texture_id == texture_id,
        _ => true,
    } by {
        lemma_runs_have_their_keys(all, start, b);
        let run = runs[b];
        let kind = kind_at(run.kind);
        lemma_batching_sees_the_lists(scene, kind);
        assert(batches[b].run() == run);
        assert forall|i: int| run.start <= i < run.end implies (#[trigger] all[run.kind][i]).key
            == run.key by {}
        match batches[b] {
            PrimitiveBatch::EffectQuads { effect_id, range } => {
                assert forall|i: int| range.start <= i < range.end implies (
                #[trigger] scene.effect_quads[i]).effect_id == effect_id by {
                    assert(all[run.kind][i].key == run.key);
                }
            },
            PrimitiveBatch::MonochromeSprites { texture_id, range } => {
                assert forall|i: int| range.start <= i < range.end implies (
                #[trigger] scene.monochrome_sprites[i]).tile.texture_id == texture_id by {
                    assert(all[run.kind][i].key == run.key);
                }
            },
            PrimitiveBatch::SubpixelSprites { texture_id, range } => {
                assert forall|i: int| range.start <= i < range.end implies (
                #[trigger] scene.subpixel_sprites[i]).tile.texture_id == texture_id by {
                    assert(all[run.kind][i].key == run.key);
                }
            },
            PrimitiveBatch::PolychromeSprites { texture_id, range } => {
                assert forall|i: int| range.start <= i < range.end implies (
                #[trigger] scene.polychrome_sprites[i]).tile.texture_id == texture_id by {
                    assert(all[run.kind][i].key == run.key);
                }
            },
            _ => {},
        }
    }
}

/// Law: reading the batches of a finished scene one after the other, the order
/// fields of the primitives never decrease, and of primitives of one order the
/// places of their kinds never do. This holds within a batch too.
pub proof fn lemma_batches_draw_in_order(
    scene: SceneModel,
    finished: SceneModel,
    batches: Seq<PrimitiveBatch>,
    b: int,
    c: int,
    k: PrimitiveKind,
    l: PrimitiveKind,
    i: int,
    j: int,
)
    requires
        scene.finished_as(finished),
        orders_leave_room(finished),
        batches_of(finished, batches),
        0 <= b <= c < batches.len(),
        b == c ==> i <= j,
        draws(batches[b], k, i),
        draws(batches[c], l, j),
    ensures
        kind_order(finished, k, i) <= kind_order(finished, l, j),
        kind_order(finished, k, i) == kind_order(finished, l, j) ==> k.place() <= l.place(),
{
    let all = lanes(finished);
    let start = first_positions();
    lemma_below_top(finished);
    lemma_finished_scene_is_drawable(scene, finished);
    lemma_run_draws(batches[b], k, i);
    lemma_run_draws(batches[c], l, j);
    lemma_batching_sees_the_lists(finished, k);
    lemma_batching_sees_the_lists(finished, l);
    lemma_runs_have_their_keys(all, start, b);
    lemma_runs_have_their_keys(all, start, c);
    assert(all[k.place()][i].order == kind_order(finished, k, i));
    assert(all[l.place()][j].order == kind_order(finished, l, j));
    if b < c {
        lemma_runs_are_in_order(all, start, b, c, i, j);
    } else {
        lemma_kinds_have_their_places(k, l);
        assert(crate::batch_laws::lane_sorted(all[k.place()]));
    }
}

/// Law: no draw call more is made than the order and the split by texture and
/// effect need: of two batches in a row, the second is of another kind, on
/// another texture or of another effect.
pub proof fn lemma_batches_in_a_row_differ(
    scene: SceneModel,
    batches: Seq<PrimitiveBatch>,
    b: int,
)
    requires
        orders_leave_room(scene),
        batches_of(scene, batches),
        0 <= b,
        b + 1 < batches.len(),
    ensures
        match (batches[b], batches[b + 1]) {
            (PrimitiveBatch::Shadows(_), PrimitiveBatch::Shadows(_)) => false,
            (PrimitiveBatch::Quads(_), PrimitiveBatch::Quads(_)) => false,
            (PrimitiveBatch::BackdropBlurRects(_), PrimitiveBatch::BackdropBlurRects(_)) => false,
            (
                PrimitiveBatch::EffectQuads { effect_id, .. },
                PrimitiveBatch::EffectQuads { effect_id: next, .. },
            ) => effect_id != next,
            (PrimitiveBatch::Paths(_), PrimitiveBatch::Paths(_)) => false,
            (PrimitiveBatch::Underlines(_), PrimitiveBatch::Underlines(_)) => false,
            (
                PrimitiveBatch::MonochromeSprites { texture_id, .. },
                PrimitiveBatch::MonochromeSprites { texture_id: next, .. },
            ) => texture_id != next,
            (
                PrimitiveBatch::SubpixelSprites { texture_id, .. },
                PrimitiveBatch::SubpixelSprites { texture_id: next, .. },
            ) => texture_id != next,
            (
                PrimitiveBatch::PolychromeSprites { texture_id, .. },
                PrimitiveBatch::PolychromeSprites { texture_id: next, .. },
            ) => texture_id != next,
            (PrimitiveBatch::Surfaces(_), PrimitiveBatch::Surfaces(_)) => false,
            _ => true,
        },
{
    lemma_below_top(scene);
    lemma_runs_have_their_keys(lanes(scene), first_positions(), b);
}

/// The instances that some steps composite, one after the other.
pub open spec fn composited(steps: Seq<BackdropStep>) -> Seq<int>
    decreases steps.len(),
{
    if steps.len() == 0 {
        Seq::empty()
    } else {
        let before = composited(steps.drop_last());
        match steps.last() {
            BackdropStep::Composite { first, count, blurred } => before + Seq::new(
                count as nat,
                |i: int| first + i,
            ),
            _ => before,
        }
    }
}

/// The instances from `first` on, `count` of them.
pub open spec fn instances_from(first: int, count: nat) -> Seq<int> {
    Seq::new(count, |i: int| first + i)
}

proof fn lemma_composited_adds(a: Seq<BackdropStep>, b: Seq<BackdropStep>)
    ensures
        composited(a + b) == composited(a) + composited(b),
    decreases b.len(),
{
    if b.len() == 0 {
        assert(a + b =~= a);
        assert(composited(a) + composited(b) =~= composited(a));
    } else {
        lemma_composited_adds(a, b.drop_last());
        assert((a + b).drop_last() =~= a + b.drop_last());
        assert((a + b).last() == b.last());
        assert(composited(a + b) =~= composited(a) + composited(b));
    }
}

/// Law: to blur by so many levels, but five at most, the snapshot is halved into
/// the first texture of the pyramid and each texture into the next; from the last
/// one reached, each texture is doubled into the one before, down to the first.
pub proof fn lemma_blur_goes_down_and_up(levels: nat)
    ensures
        levels == 0 ==> blur_passes(levels).len() == 0,
        levels > 0 ==> {
            let passes = blur_passes(levels);
            let depth: int = if levels < 5 {
                levels as int
            } else {
                5
            };
            &&& passes.len() == 2 * depth - 1
            &&& passes[0] == BackdropStep::DownsampleSnapshot { target: 0 }
            &&& forall|i: int|
                1 <= i < depth ==> #[trigger] passes[i] == BackdropStep::Downsample {
                    source: (i - 1) as usize,
                    target: i as usize,
                }
            &&& forall|i: int|
                depth <= i < 2 * depth - 1 ==> #[trigger] passes[i] == BackdropStep::Upsample {
                    source: (2 * depth - 1 - i) as usize,
                    target: (2 * depth - 2 - i) as usize,
                }
        },
{
    reveal_with_fuel(down_passes, 6);
    reveal_with_fuel(up_passes, 6);
}

proof fn lemma_blurring_composites_nothing(levels: nat)
    ensures
        composited(blur_passes(levels)) == Seq::<int>::empty(),
{
    let passes = blur_passes(levels);
    lemma_blur_goes_down_and_up(levels);
    assert forall|i: int| 0 <= i < passes.len() implies !(#[trigger] passes[i] is Composite) by {}
    lemma_composites_nothing(passes);
}

proof fn lemma_composites_nothing(steps: Seq<BackdropStep>)
    requires
        forall|i: int| 0 <= i < steps.len() ==> !(#[trigger] steps[i] is Composite),
    ensures
        composited(steps) == Seq::<int>::empty(),
    decreases steps.len(),
{
    if steps.len() > 0 {
        assert(!(steps[steps.len() - 1] is Composite));
        assert forall|i: int| 0 <= i < steps.drop_last().len() implies !(
        #[trigger] steps.drop_last()[i] is Composite) by {
            assert(!(steps[i] is Composite));
        }
        lemma_composites_nothing(steps.drop_last());
    }
}

/// Law: a group is painted by copying what is there into the snapshot, blurring
/// it by the levels of the group's first item, and drawing the group's items, and
/// no other, over it; they sample the pyramid exactly if there was a blur.
pub proof fn lemma_group_is_painted_over_its_snapshot(
    items: Seq<BackdropItem>,
    first: int,
    start: int,
    end: int,
)
    requires
        0 <= first,
        0 <= start < end <= items.len(),
        first + items.len() <= usize::MAX,
    ensures
        ({
            let steps = group_steps(items, first, start, end);
            let passes = blur_passes(items[start].levels as nat);
            &&& steps.len() == passes.len() + 2
            &&& steps[0] == BackdropStep::CopySnapshot
            &&& steps.subrange(1, steps.len() - 1) == passes
            &&& steps.last() matches BackdropStep::Composite { first: f, count, blurred } && f
                == first + start && count == end - start && blurred == (items[start].levels != 0)
            &&& composited(steps) == instances_from(first + start, (end - start) as nat)
        }),
{
    let steps = group_steps(items, first, start, end);
    let passes = blur_passes(items[start].levels as nat);
    assert(steps.subrange(1, steps.len() - 1) =~= passes);
    let head = seq![BackdropStep::CopySnapshot];
    let last = steps.last();
    assert(steps =~= head + passes + seq![last]);
    lemma_composited_adds(head + passes, seq![last]);
    lemma_composited_adds(head, passes);
    lemma_blurring_composites_nothing(items[start].levels as nat);
    lemma_composites_nothing(head);
    assert(seq![last].drop_last() =~= Seq::empty());
    reveal_with_fuel(composited, 2);
    assert(composited(seq![last]) =~= instances_from(first + start, (end - start) as nat));
    assert(composited(steps) =~= instances_from(first + start, (end - start) as nat));
}

proof fn lemma_steps_composite_the_rest(items: Seq<BackdropItem>, first: int, start: int)
    requires
        0 <= first,
        0 <= start <= items.len(),
        first + items.len() <= usize::MAX,
    ensures
        composited(steps_from(items, first, start)) == instances_from(
            first + start,
            (items.len() - start) as nat,
        ),
    decreases items.len() - start,
{
    if start < items.len() {
        lemma_group_end(items, start, start + 1);
        let end = group_end(items, start, start + 1);
        lemma_group_is_painted_over_its_snapshot(items, first, start, end);
        lemma_steps_composite_the_rest(items, first, end);
        lemma_composited_adds(group_steps(items, first, start, end), steps_from(items, first, end));
        assert(instances_from(first + start, (end - start) as nat) + instances_from(
            first + end,
            (items.len() - end) as nat,
        ) =~= instances_from(first + start, (items.len() - start) as nat));
    } else {
        assert(instances_from(first + start, 0) =~= Seq::empty());
    }
}

/// Law: painting primitives that read the backdrop draws each of them once, in
/// order, after making sure of the textures; and where there are none, nothing is
/// done.
pub proof fn lemma_every_backdrop_item_is_composited_once(items: Seq<BackdropItem>, first: int)
    requires
        0 <= first,
        first + items.len() <= usize::MAX,
    ensures
        composited(backdrop_steps(items, first)) == instances_from(first, items.len()),
        items.len() == 0 <==> backdrop_steps(items, first).len() == 0,
        items.len() > 0 ==> backdrop_steps(items, first)[0] == BackdropStep::EnsureResources,
        items.len() > 0 ==> backdrop_steps(items, first).skip(1) == steps_from(items, first, 0),
{
    if items.len() > 0 {
        assert(backdrop_steps(items, first).skip(1) =~= steps_from(items, first, 0));
    }
    if items.len() > 0 {
        let head = seq![BackdropStep::EnsureResources];
        lemma_steps_composite_the_rest(items, first, 0);
        lemma_composited_adds(head, steps_from(items, first, 0));
        lemma_composites_nothing(head);
        assert(composited(backdrop_steps(items, first)) =~= instances_from(first, items.len()));
    } else {
        assert(instances_from(first, 0) =~= Seq::empty());
    }
}

/// Law: a batch of shadows, quads, underlines or sprites is drawn with one draw of
/// all its instances by the pipeline of its kind, from the batch's texture if it
/// has one; of paths, from the first to the last; of backdrop blurs, with each
/// composited once and in order. Only surfaces and empty batches are left out.
pub proof fn lemma_batch_is_drawn_by_its_pipeline(
    scene: SceneModel,
    batch: PrimitiveBatch,
    built: Seq<bool>,
)
    ensures
        match batch {
            PrimitiveBatch::Shadows(range) => if range.start < range.end {
                batch_plan(scene, batch, built) == BatchPlanModel::Instances {
                    pipeline: InstancePipeline::Shadows,
                    texture: None,
                    first: range.start,
                    count: (range.end - range.start) as usize,
                }
            } else {
                batch_plan(scene, batch, built) is Skip
            },
            PrimitiveBatch::Quads(range) => if range.start < range.end {
                batch_plan(scene, batch, built) == BatchPlanModel::Instances {
                    pipeline: InstancePipeline::Quads,
                    texture: None,
                    first: range.start,
                    count: (range.end - range.start) as usize,
                }
            } else {
                batch_plan(scene, batch, built) is Skip
            },
            PrimitiveBatch::Underlines(range) => if range.start < range.end {
                batch_plan(scene, batch, built) == BatchPlanModel::Instances {
                    pipeline: InstancePipeline::Underlines,
                    texture: None,
                    first: range.start,
                    count: (range.end - range.start) as usize,
                }
            } else {
                batch_plan(scene, batch, built) is Skip
            },
            PrimitiveBatch::MonochromeSprites { texture_id, range } => if range.start < range.end {
                batch_plan(scene, batch, built) == BatchPlanModel::Instances {
                    pipeline: InstancePipeline::MonochromeSprites,
                    texture: Some(texture_id),
                    first: range.start,
                    count: (range.end - range.start) as usize,
                }
            } else {
                batch_plan(scene, batch, built) is Skip
            },
            PrimitiveBatch::SubpixelSprites { texture_id, range } => if range.start < range.end {
                batch_plan(scene, batch, built) == BatchPlanModel::Instances {
                    pipeline: InstancePipeline::SubpixelSprites,
                    texture: Some(texture_id),
                    first: range.start,
                    count: (range.end - range.start) as usize,
                }
            } else {
                batch_plan(scene, batch, built) is Skip
            },
            PrimitiveBatch::PolychromeSprites { texture_id, range } => if range.start < range.end {
                batch_plan(scene, batch, built) == BatchPlanModel::Instances {
                    pipeline: InstancePipeline::PolychromeSprites,
                    texture: Some(texture_id),
                    first: range.start,
                    count: (range.end - range.start) as usize,
                }
            } else {
                batch_plan(scene, batch, built) is Skip
            },
            PrimitiveBatch::Paths(range) => batch_plan(scene, batch, built)
                == BatchPlanModel::Paths { start: range.start, end: range.end },
            PrimitiveBatch::Surfaces(range) => batch_plan(scene, batch, built) is Skip,
            PrimitiveBatch::BackdropBlurRects(range) => range.start <= range.end
                <= scene.backdrop_blur_rects.len() && range.end <= usize::MAX ==> (batch_plan(
                scene,
                batch,
                built,
            ) matches BatchPlanModel::Blur(steps) && composited(steps) == instances_from(
                range.start as int,
                (range.end - range.start) as nat,
            )),
            PrimitiveBatch::EffectQuads { effect_id, range } => batch_plan(
                scene,
                batch,
                built,
            ) matches BatchPlanModel::Effect { effect_id: id, plan } && id == effect_id,
        },
{
    match batch {
        PrimitiveBatch::BackdropBlurRects(range) => {
            if range.start <= range.end <= scene.backdrop_blur_rects.len() {
                let rects = scene.backdrop_blur_rects.subrange(
                    range.start as int,
                    range.end as int,
                );
                lemma_every_backdrop_item_is_composited_once(
                    blur_items(rects),
                    range.start as int,
                );
            }
        },
        _ => {},
    }
}

/// Law: quads of an effect are drawn exactly if there are some and the effect has
/// a pipeline: each of them composited once and in order over snapshots if the
/// first one reads the backdrop, and else all of them in one blended draw.
pub proof fn lemma_effect_quads_are_drawn(
    effect_id: u32,
    quads: Seq<EffectQuad>,
    first: int,
    built: Seq<bool>,
)
    requires
        0 <= first,
        first + quads.len() <= usize::MAX,
    ensures
        match effect_plan(effect_id, quads, first, built) {
            EffectPlanModel::Skip => quads.len() == 0 || effect_id >= built.len()
                || !built[effect_id as int],
            EffectPlanModel::Blend { first: f, count } => {
                &&& quads.len() > 0
                &&& effect_id < built.len() && built[effect_id as int]
                &&& quads[0].flags & EFFECT_FLAG_NEEDS_BACKDROP == 0
                &&& f == first
                &&& count == quads.len()
            },
            EffectPlanModel::Backdrop(steps) => {
                &&& quads.len() > 0
                &&& effect_id < built.len() && built[effect_id as int]
                &&& quads[0].flags & EFFECT_FLAG_NEEDS_BACKDROP != 0
                &&& composited(steps) == instances_from(first, quads.len())
                &&& steps == backdrop_steps(effect_items(quads), first)
            },
        },
{
    if quads.len() > 0 {
        let flags: u32 = quads[0].flags;
        assert((flags & 1 != 0) == (flags % 2 == 1)) by (bit_vector);
    }
    lemma_every_backdrop_item_is_composited_once(effect_items(quads), first);
}

/// Law: the quads of an effect batch are those that the batch names.
pub proof fn lemma_effect_batch_draws_its_quads(
    scene: SceneModel,
    effect_id: u32,
    range: std::ops::Range<usize>,
    built: Seq<bool>,
)
    requires
        range.start <= range.end <= scene.effect_quads.len(),
    ensures
        ({
            let quads = Seq::new(
                (range.end - range.start) as nat,
                |i: int| scene.effect_quads[range.start + i],
            );
            batch_plan(scene, PrimitiveBatch::EffectQuads { effect_id, range }, built)
                == BatchPlanModel::Effect {
                effect_id,
                plan: effect_plan(effect_id, quads, range.start as int, built),
            }
        }),
{
    let quads = Seq::new(
        (range.end - range.start) as nat,
        |i: int| scene.effect_quads[range.start + i],
    );
    assert(scene.effect_quads.subrange(range.start as int, range.end as int) =~= quads);
}

/// Law: the rectangles of a batch of backdrop blurs are those that the batch names.
pub proof fn lemma_blur_batch_draws_its_rects(
    scene: SceneModel,
    range: std::ops::Range<usize>,
    built: Seq<bool>,
)
    requires
        range.start <= range.end <= scene.backdrop_blur_rects.len(),
    ensures
        ({
            let rects = Seq::new(
                (range.end - range.start) as nat,
                |i: int| scene.backdrop_blur_rects[range.start + i],
            );
            batch_plan(scene, PrimitiveBatch::BackdropBlurRects(range), built)
                == BatchPlanModel::Blur(backdrop_steps(blur_items(rects), range.start as int))
        }),
{
    let rects = Seq::new(
        (range.end - range.start) as nat,
        |i: int| scene.backdrop_blur_rects[range.start + i],
    );
    assert(scene.backdrop_blur_rects.subrange(range.start as int, range.end as int) =~= rects);
}

/// Law: what is said of a plan is what is in it.
pub proof fn lemma_plan_shows_itself(plan: BatchPlan, effect: EffectPlan)
    ensures
        match plan {
            BatchPlan::Skip => plan@ is Skip,
            BatchPlan::Instances { pipeline, texture, first, count } => plan@
                == BatchPlanModel::Instances { pipeline, texture, first, count },
            BatchPlan::Blur(steps) => plan@ == BatchPlanModel::Blur(steps@),
            BatchPlan::Effect { effect_id, plan: of } => plan@ == BatchPlanModel::Effect {
                effect_id,
                plan: of@,
            },
            BatchPlan::Paths { start, end } => plan@ == BatchPlanModel::Paths { start, end },
        },
        match effect {
            EffectPlan::Skip => effect@ is Skip,
            EffectPlan::Blend { first, count } => effect@ == EffectPlanModel::Blend {
                first,
                count,
            },
            EffectPlan::Backdrop(steps) => effect@ == EffectPlanModel::Backdrop(steps@),
        },
{
}

/// Where an upload stands among all that a scene can take, with so many effects.
pub open spec fn upload_rank(upload: BufferUpload, effects: int) -> int {
    match upload {
        BufferUpload::Shadows => 0,
        BufferUpload::Quads => 1,
        BufferUpload::BackdropBlurRects => 2,
        BufferUpload::EffectQuads(effect) => 3 + effect,
        BufferUpload::Underlines => 3 + effects,
        BufferUpload::MonochromeSprites => 4 + effects,
        BufferUpload::SubpixelSprites => 5 + effects,
        BufferUpload::PolychromeSprites => 6 + effects,
    }
}

/// Whether the uploads come in order, each once, from one place up to another.
spec fn rising(uploads: Seq<BufferUpload>, effects: int, from: int, to: int) -> bool {
    &&& forall|i: int|
        0 <= i < uploads.len() ==> from <= upload_rank(#[trigger] uploads[i], effects) < to
    &&& forall|i: int, j: int|
        0 <= i < j < uploads.len() ==> upload_rank(#[trigger] uploads[i], effects) < upload_rank(
            #[trigger] uploads[j],
            effects,
        )
}

proof fn lemma_rising_adds(
    a: Seq<BufferUpload>,
    b: Seq<BufferUpload>,
    effects: int,
    from: int,
    middle: int,
    to: int,
)
    requires
        rising(a, effects, from, middle),
        rising(b, effects, middle, to),
        from <= middle <= to,
    ensures
        rising(a + b, effects, from, to),
{
}

proof fn lemma_effect_uploads_rise(quads: Seq<EffectQuad>, built: Seq<bool>, count: nat)
    requires
        count <= built.len() <= usize::MAX,
    ensures
        rising(effect_uploads(quads, built, count), built.len() as int, 3, 3 + count as int),
        forall|i: int|
            0 <= i < effect_uploads(quads, built, count).len() ==> #[trigger] effect_uploads(
                quads,
                built,
                count,
            )[i] is EffectQuads,
    decreases count,
{
    if count > 0 {
        lemma_effect_uploads_rise(quads, built, (count - 1) as nat);
    }
}

/// Law: the lists are uploaded in the order of their kinds, effect quads effect by
/// effect, and nothing is uploaded twice.
pub proof fn lemma_uploads_come_in_order(scene: SceneModel, built: Seq<bool>)
    requires
        built.len() <= usize::MAX,
    ensures
        forall|i: int, j: int|
            0 <= i < j < scene_uploads(scene, built).len() ==> upload_rank(
                #[trigger] scene_uploads(scene, built)[i],
                built.len() as int,
            ) < upload_rank(#[trigger] scene_uploads(scene, built)[j], built.len() as int),
{
    let n = built.len() as int;
    let shadows = upload_if(scene.shadows.len() > 0, BufferUpload::Shadows);
    let quads = upload_if(scene.quads.len() > 0, BufferUpload::Quads);
    let blurs = upload_if(scene.backdrop_blur_rects.len() > 0, BufferUpload::BackdropBlurRects);
    let effects = effect_uploads(scene.effect_quads, built, built.len());
    let underlines = upload_if(scene.underlines.len() > 0, BufferUpload::Underlines);
    let mono = upload_if(scene.monochrome_sprites.len() > 0, BufferUpload::MonochromeSprites);
    let sub = upload_if(scene.subpixel_sprites.len() > 0, BufferUpload::SubpixelSprites);
    let poly = upload_if(scene.polychrome_sprites.len() > 0, BufferUpload::PolychromeSprites);
    lemma_effect_uploads_rise(scene.effect_quads, built, built.len());
    lemma_rising_adds(shadows, quads, n, 0, 1, 2);
    lemma_rising_adds(shadows + quads, blurs, n, 0, 2, 3);
    lemma_rising_adds(shadows + quads + blurs, effects, n, 0, 3, 3 + n);
    lemma_rising_adds(shadows + quads + blurs + effects, underlines, n, 0, 3 + n, 4 + n);
    lemma_rising_adds(shadows + quads + blurs + effects + underlines, mono, n, 0, 4 + n, 5 + n);
    lemma_rising_adds(
        shadows + quads + blurs + effects + underlines + mono,
        sub,
        n,
        0,
        5 + n,
        6 + n,
    );
    lemma_rising_adds(
        shadows + quads + blurs + effects + underlines + mono + sub,
        poly,
        n,
        0,
        6 + n,
        7 + n,
    );
}

/// Law: a list is uploaded exactly if it is not empty, effect quads to exactly
/// those effects that have a pipeline and are used.
pub proof fn lemma_uploads_are_what_is_drawn(
    scene: SceneModel,
    built: Seq<bool>,
    upload: BufferUpload,
)
    requires
        built.len() <= usize::MAX,
    ensures
        scene_uploads(scene, built).contains(upload) <==> match upload {
            BufferUpload::Shadows => scene.shadows.len() > 0,
            BufferUpload::Quads => scene.quads.len() > 0,
            BufferUpload::BackdropBlurRects => scene.backdrop_blur_rects.len() > 0,
            BufferUpload::EffectQuads(effect) => effect < built.len() && built[effect as int]
                && exists|i: int|
                0 <= i < scene.effect_quads.len() && (#[trigger] scene.effect_quads[i]).effect_id
                    == effect,
            BufferUpload::Underlines => scene.underlines.len() > 0,
            BufferUpload::MonochromeSprites => scene.monochrome_sprites.len() > 0,
            BufferUpload::SubpixelSprites => scene.subpixel_sprites.len() > 0,
            BufferUpload::PolychromeSprites => scene.polychrome_sprites.len() > 0,
        },
{
    let shadows = upload_if(scene.shadows.len() > 0, BufferUpload::Shadows);
    let quads = upload_if(scene.quads.len() > 0, BufferUpload::Quads);
    let blurs = upload_if(scene.backdrop_blur_rects.len() > 0, BufferUpload::BackdropBlurRects);
    let effects = effect_uploads(scene.effect_quads, built, built.len());
    let underlines = upload_if(scene.underlines.len() > 0, BufferUpload::Underlines);
    let mono = upload_if(scene.monochrome_sprites.len() > 0, BufferUpload::MonochromeSprites);
    let sub = upload_if(scene.subpixel_sprites.len() > 0, BufferUpload::SubpixelSprites);
    let poly = upload_if(scene.polychrome_sprites.len() > 0, BufferUpload::PolychromeSprites);
    lemma_effect_uploads_rise(scene.effect_quads, built, built.len());
    let all = scene_uploads(scene, built);
    lemma_parts(shadows, quads, upload);
    lemma_parts(shadows + quads, blurs, upload);
    lemma_parts(shadows + quads + blurs, effects, upload);
    lemma_parts(shadows + quads + blurs + effects, underlines, upload);
    lemma_parts(shadows + quads + blurs + effects + underlines, mono, upload);
    lemma_parts(shadows + quads + blurs + effects + underlines + mono, sub, upload);
    lemma_parts(shadows + quads + blurs + effects + underlines + mono + sub, poly, upload);
    assert(all == shadows + quads + blurs + effects + underlines + mono + sub + poly);
    lemma_upload_if(scene.shadows.len() > 0, BufferUpload::Shadows, upload);
    lemma_upload_if(scene.quads.len() > 0, BufferUpload::Quads, upload);
    lemma_upload_if(scene.backdrop_blur_rects.len() > 0, BufferUpload::BackdropBlurRects, upload);
    lemma_upload_if(scene.underlines.len() > 0, BufferUpload::Underlines, upload);
    lemma_upload_if(scene.monochrome_sprites.len() > 0, BufferUpload::MonochromeSprites, upload);
    lemma_upload_if(scene.subpixel_sprites.len() > 0, BufferUpload::SubpixelSprites, upload);
    lemma_upload_if(scene.polychrome_sprites.len() > 0, BufferUpload::PolychromeSprites, upload);
    match upload {
        BufferUpload::EffectQuads(effect) => {
            lemma_effect_uploaded_iff_used(scene.effect_quads, built, built.len(), effect);
        },
        _ => {
            assert(!effects.contains(upload)) by {
                if effects.contains(upload) {
                    let i = choose|i: int| 0 <= i < effects.len() && effects[i] == upload;
                    assert(effects[i] is EffectQuads);
                }
            }
        },
    }
}

/// What two lists of uploads hold together.
proof fn lemma_parts(a: Seq<BufferUpload>, b: Seq<BufferUpload>, upload: BufferUpload)
    ensures
        (a + b).contains(upload) <==> a.contains(upload) || b.contains(upload),
{
    if a.contains(upload) {
        let i = choose|i: int| 0 <= i < a.len() && a[i] == upload;
        assert((a + b)[i] == upload);
    }
    if b.contains(upload) {
        let i = choose|i: int| 0 <= i < b.len() && b[i] == upload;
        assert((a + b)[a.len() + i] == upload);
    }
    if (a + b).contains(upload) {
        let i = choose|i: int| 0 <= i < (a + b).len() && (a + b)[i] == upload;
        if i < a.len() {
            assert(a[i] == upload);
        } else {
            assert(b[i - a.len()] == upload);
        }
    }
}

proof fn lemma_upload_if(needed: bool, one: BufferUpload, upload: BufferUpload)
    ensures
        upload_if(needed, one).contains(upload) <==> needed && upload == one,
        upload_if(needed, one).len() <= 1,
{
    if needed {
        assert(upload_if(needed, one)[0] == one);
    }
}

/// Law: a frame draws the batches of its scene one after the other, each as it is planned.
pub proof fn lemma_frame_draws_its_batches(
    scene: SceneModel,
    built: Seq<bool>,
    frame: Seq<BatchDraw>,
    i: int,
)
    requires
        draws_runs(scene, built, frame, runs(lanes(scene), first_positions())),
        0 <= i < frame.len(),
    ensures
        batches_of(scene, frame.map_values(|draw: BatchDraw| draw.batch)),
        frame[i].plan@ == batch_plan(scene, frame[i].batch, built),
{
    let batches = frame.map_values(|draw: BatchDraw| draw.batch);
    assert forall|b: int| 0 <= b < batches.len() implies (#[trigger] batches[b]).run() == runs(
        lanes(scene),
        first_positions(),
    )[b] by {
        assert(frame[b].batch.run() == runs(lanes(scene), first_positions())[b]);
    }
}

/// What the primitives of a kind are called.
pub open spec fn kind_name(kind: PrimitiveKind) -> Seq<char> {
    match kind {
        PrimitiveKind::Shadow => "shadows"@,
        PrimitiveKind::Quad => "quads"@,
        PrimitiveKind::BackdropBlurRect => "backdrop blur rects"@,
        PrimitiveKind::EffectQuad => "effect quads"@,
        PrimitiveKind::Path => "paths"@,
        PrimitiveKind::Underline => "underlines"@,
        PrimitiveKind::MonochromeSprite => "monochrome sprites"@,
        PrimitiveKind::SubpixelSprite => "subpixel sprites"@,
        PrimitiveKind::PolychromeSprite => "polychrome sprites"@,
        PrimitiveKind::Surface => "surfaces"@,
    }
}

/// Law: a batch is called by the kind of what it draws and by how much that is, an effect's
/// by the effect too, and one of sprites by the slot of their texture.
pub proof fn lemma_batch_is_called_by_what_it_draws(batch: PrimitiveBatch, kind: PrimitiveKind)
    requires
        batch.run().kind == kind.place(),
        batch.run().start <= batch.run().end,
    ensures
        batch.label_text() == kind_name(kind) + " ("@ + decimal(
            (batch.run().end - batch.run().start) as nat,
        ) + ")"@ + (match batch.run().key {
            BatchKey::Whole => Seq::empty(),
            BatchKey::Effect(effect) => " with effect "@ + decimal(effect as nat),
            BatchKey::Texture(texture) => " on atlas "@ + decimal(texture.index as nat),
        }),
{
    let told = kind_name(kind) + " ("@ + decimal((batch.run().end - batch.run().start) as nat)
        + ")"@;
    assert(told + Seq::<char>::empty() =~= told);
    match batch.run().key {
        BatchKey::Whole => {},
        BatchKey::Effect(effect) => {
            assert(told + " with effect "@ + decimal(effect as nat) =~= told + (" with effect "@
                + decimal(effect as nat)));
        },
        BatchKey::Texture(texture) => {
            assert(told + " on atlas "@ + decimal(texture.index as nat) =~= told + (" on atlas "@
                + decimal(texture.index as nat)));
        },
    }
}

/// The kinds in the order in which a scene that is too large is told, and what each is
/// called there.
pub open spec fn told_kinds() -> Seq<(PrimitiveKind, Seq<char>)> {
    seq![
        (PrimitiveKind::Path, "paths"@),
        (PrimitiveKind::Shadow, "shadows"@),
        (PrimitiveKind::Quad, "quads"@),
        (PrimitiveKind::BackdropBlurRect, "backdrop blur rects"@),
        (PrimitiveKind::EffectQuad, "effect quads"@),
        (PrimitiveKind::Underline, "underlines"@),
        (PrimitiveKind::MonochromeSprite, "mono"@),
        (PrimitiveKind::SubpixelSprite, "subpixel"@),
        (PrimitiveKind::PolychromeSprite, "poly"@),
        (PrimitiveKind::Surface, "surfaces"@),
    ]
}

/// The first of these kinds, each with how many there are in a scene.
pub open spec fn told(scene: SceneModel, count: nat) -> Seq<char>
    decreases count,
{
    if count == 0 {
        "scene too large:"@
    } else {
        let kind = told_kinds()[count - 1];
        told(scene, (count - 1) as nat) + decimal(kind_count(scene, kind.0)) + (" "@ + kind.1 + (
        if count < told_kinds().len() {
            ", "@
        } else {
            Seq::empty()
        }))
    }
}

/// Law: a scene that is too large is told by how many primitives of each kind it holds.
pub proof fn lemma_large_scene_is_told_by_kind(scene: SceneModel)
    ensures
        scene_summary(scene) == told(scene, 10),
{
    reveal_strlit(" ");
    reveal_strlit(", ");
    reveal_strlit("paths");
    reveal_strlit(" paths, ");
    reveal_strlit("shadows");
    reveal_strlit(" shadows, ");
    reveal_strlit("quads");
    reveal_strlit(" quads, ");
    reveal_strlit("backdrop blur rects");
    reveal_strlit(" backdrop blur rects, ");
    reveal_strlit("effect quads");
    reveal_strlit(" effect quads, ");
    reveal_strlit("underlines");
    reveal_strlit(" underlines, ");
    reveal_strlit("mono");
    reveal_strlit(" mono, ");
    reveal_strlit("subpixel");
    reveal_strlit(" subpixel, ");
    reveal_strlit("poly");
    reveal_strlit(" poly, ");
    reveal_strlit("surfaces");
    reveal_strlit(" surfaces");
    assert(" "@ + "paths"@ + ", "@ =~= " paths, "@);
    assert(" "@ + "shadows"@ + ", "@ =~= " shadows, "@);
    assert(" "@ + "quads"@ + ", "@ =~= " quads, "@);
    assert(" "@ + "backdrop blur rects"@ + ", "@ =~= " backdrop blur rects, "@);
    assert(" "@ + "effect quads"@ + ", "@ =~= " effect quads, "@);
    assert(" "@ + "underlines"@ + ", "@ =~= " underlines, "@);
    assert(" "@ + "mono"@ + ", "@ =~= " mono, "@);
    assert(" "@ + "subpixel"@ + ", "@ =~= " subpixel, "@);
    assert(" "@ + "poly"@ + ", "@ =~= " poly, "@);
    assert(" "@ + "surfaces"@ + Seq::<char>::empty() =~= " surfaces"@);
    reveal_with_fuel(told, 11);
}

} // verus!
