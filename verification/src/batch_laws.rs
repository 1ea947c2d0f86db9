//! What holds of the batches of a scene: they draw everything once, a finished
//! scene in the order of painting, and no draw call more is made than that
//! needs.

use crate::batch::{
    drawn_before, first_positions, foremost, heads, lane, lanes, next_run, run_end, BatchKey,
    BatchRun, DrawItem, KIND_COUNT,
};
use crate::scene::SceneModel;
use crate::sort::{sorts_as, stable_sorted, Keyed};
use vstd::prelude::*;

verus! {

/// Whether the items stand in the order in which they are drawn.
pub open spec fn lane_sorted(lane: Seq<DrawItem>) -> bool {
    forall|i: int, j: int|
        0 <= i <= j < lane.len() ==> (#[trigger] lane[i]).order <= (#[trigger] lane[j]).order
}

/// Whether there are two kinds or more, and no item is as high as orders go.
pub open spec fn below_top(lanes: Seq<Seq<DrawItem>>) -> bool {
    &&& lanes.len() >= 2
    &&& forall|k: int, i: int|
        0 <= k < lanes.len() && 0 <= i < lanes[k].len() ==> (
        #[trigger] lanes[k][i]).order < u32::MAX
}

/// Whether the items of every kind stand in the order in which they are drawn,
/// and none is as high as orders go.
pub open spec fn drawable(lanes: Seq<Seq<DrawItem>>) -> bool {
    &&& below_top(lanes)
    &&& forall|k: int| 0 <= k < lanes.len() ==> lane_sorted(#[trigger] lanes[k])
}

/// Whether the positions are places in the lanes.
pub open spec fn within(lanes: Seq<Seq<DrawItem>>, positions: Seq<nat>) -> bool {
    &&& positions.len() == lanes.len()
    &&& forall|k: int| 0 <= k < lanes.len() ==> #[trigger] positions[k] <= lanes[k].len()
}

/// The foremost kind is drawn before every other.
proof fn lemma_foremost(heads: Seq<u32>, count: nat, skip: int)
    requires
        count <= heads.len(),
    ensures
        count >= 2 || (count == 1 && skip != 0) ==> foremost(heads, count, skip) >= 0,
        foremost(heads, count, skip) >= 0 ==> {
            &&& foremost(heads, count, skip) < count
            &&& foremost(heads, count, skip) != skip
            &&& forall|k: int|
                0 <= k < count && k != skip && k != foremost(heads, count, skip) ==> drawn_before(
                    heads[foremost(heads, count, skip)],
                    foremost(heads, count, skip),
                    #[trigger] heads[k],
                    k,
                )
        },
    decreases count,
{
    if count > 0 {
        lemma_foremost(heads, (count - 1) as nat, skip);
    }
}

/// A run ends where it must.
proof fn lemma_run_end(
    lane: Seq<DrawItem>,
    from: int,
    kind: int,
    key: BatchKey,
    limit: u32,
    limit_kind: int,
)
    requires
        0 <= from <= lane.len(),
    ensures
        from <= run_end(lane, from, kind, key, limit, limit_kind) <= lane.len(),
        forall|i: int|
            from <= i < run_end(lane, from, kind, key, limit, limit_kind) ==> (
            #[trigger] lane[i]).key == key && drawn_before(lane[i].order, kind, limit, limit_kind),
        run_end(lane, from, kind, key, limit, limit_kind) < lane.len() ==> {
            let item = lane[run_end(lane, from, kind, key, limit, limit_kind)];
            item.key != key || !drawn_before(item.order, kind, limit, limit_kind)
        },
    decreases lane.len() - from,
{
    if from < lane.len() && drawn_before(lane[from].order, kind, limit, limit_kind)
        && lane[from].key == key {
        lemma_run_end(lane, from + 1, kind, key, limit, limit_kind);
    }
}

/// Law: there is a next batch exactly as long as something is left to draw, and
/// a batch takes at least one primitive, the next ones of its kind, all with
/// the same key.
pub proof fn lemma_batch_takes_next(lanes: Seq<Seq<DrawItem>>, positions: Seq<nat>)
    requires
        below_top(lanes),
        within(lanes, positions),
    ensures
        next_run(lanes, positions) is None <==> (forall|k: int|
            0 <= k < lanes.len() ==> #[trigger] positions[k] == lanes[k].len()),
        next_run(lanes, positions) matches Some(run) ==> {
            &&& 0 <= run.kind < lanes.len()
            &&& run.start == positions[run.kind]
            &&& run.start < run.end <= lanes[run.kind].len()
            &&& within(lanes, positions.update(run.kind, run.end as nat))
            &&& forall|i: int|
                run.start <= i < run.end ==> (#[trigger] lanes[run.kind][i]).key == run.key
        },
{
    let heads = heads(lanes, positions);
    lemma_foremost(heads, lanes.len(), -1);
    let kind = foremost(heads, lanes.len(), -1);
    lemma_foremost(heads, lanes.len(), kind);
    let second = foremost(heads, lanes.len(), kind);
    let start = positions[kind] as int;
    if start < lanes[kind].len() {
        let key = lanes[kind][start].key;
        lemma_run_end(lanes[kind], start + 1, kind, key, heads[second], second);
        assert(positions[kind] != lanes[kind].len());
    } else {
        assert forall|k: int| 0 <= k < lanes.len() implies #[trigger] positions[k]
            == lanes[k].len() by {
            if positions[k] < lanes[k].len() {
                assert(lanes[k][positions[k] as int].order < u32::MAX);
                assert(heads[k] < u32::MAX);
                assert(heads[kind] == u32::MAX);
                assert(false);
            }
        }
    }
}

/// Law: nothing of a batch is drawn later than what is left after it: the order
/// of drawing is by draw order first and then by kind.
pub proof fn lemma_batch_draws_first(
    lanes: Seq<Seq<DrawItem>>,
    positions: Seq<nat>,
    i: int,
    k: int,
    j: int,
)
    requires
        drawable(lanes),
        within(lanes, positions),
        next_run(lanes, positions) matches Some(run) && run.start <= i < run.end && 0 <= k
            < lanes.len() && positions.update(run.kind, run.end as nat)[k] <= j < lanes[k].len(),
    ensures
        next_run(lanes, positions) matches Some(run) ==> !drawn_before(
            lanes[k][j].order,
            k,
            lanes[run.kind][i].order,
            run.kind,
        ),
{
    lemma_batch_takes_next(lanes, positions);
    let run = next_run(lanes, positions)->0;
    let kind = run.kind;
    let heads = heads(lanes, positions);
    lemma_foremost(heads, lanes.len(), -1);
    lemma_foremost(heads, lanes.len(), kind);
    let second = foremost(heads, lanes.len(), kind);
    lemma_run_end(lanes[kind], run.start + 1, kind, run.key, heads[second], second);
    assert(lane_sorted(lanes[kind]));
    assert(lane_sorted(lanes[k]));
    if k == kind {
        assert(lanes[k][i].order <= lanes[k][j].order);
    } else {
        let p = positions[k] as int;
        assert(lanes[k][p].order <= lanes[k][j].order);
        assert(heads[k] == lanes[k][p].order);
        assert(heads[kind] == lanes[kind][run.start].order);
        if i > run.start {
            assert(drawn_before(lanes[kind][i].order, kind, heads[second], second));
            if k != second {
                assert(drawn_before(heads[second], second, heads[k], k));
            }
        } else {
            assert(drawn_before(heads[kind], kind, heads[k], k));
        }
    }
}

/// Law: two batches of one kind in a row differ in their keys. A draw call ends
/// only where another kind has its turn or another pipeline or texture is
/// needed.
pub proof fn lemma_batches_are_maximal(lanes: Seq<Seq<DrawItem>>, positions: Seq<nat>)
    requires
        below_top(lanes),
        within(lanes, positions),
    ensures
        next_run(lanes, positions) matches Some(run) ==> (next_run(
            lanes,
            positions.update(run.kind, run.end as nat),
        ) matches Some(then) ==> then.kind != run.kind || then.key != run.key),
{
    lemma_batch_takes_next(lanes, positions);
    if next_run(lanes, positions) is Some {
        let run = next_run(lanes, positions)->0;
        let after = positions.update(run.kind, run.end as nat);
        lemma_batch_takes_next(lanes, after);
        if next_run(lanes, after) is Some {
            let then = next_run(lanes, after)->0;
            let kind = run.kind;
            let old_heads = heads(lanes, positions);
            lemma_foremost(old_heads, lanes.len(), -1);
            lemma_foremost(old_heads, lanes.len(), kind);
            let second = foremost(old_heads, lanes.len(), kind);
            lemma_run_end(lanes[kind], run.start + 1, kind, run.key, old_heads[second], second);
            let new_heads = heads(lanes, after);
            lemma_foremost(new_heads, lanes.len(), -1);
            if then.kind == kind && then.key == run.key {
                assert(!drawn_before(
                    lanes[kind][run.end].order,
                    kind,
                    old_heads[second],
                    second,
                ));
                assert(new_heads[second] == old_heads[second]);
                assert(new_heads[kind] == lanes[kind][run.end].order);
                assert(drawn_before(new_heads[kind], kind, new_heads[second], second));
            }
        }
    }
}

/// How many primitives are left to draw, over the first `count` kinds.
pub open spec fn left(lanes: Seq<Seq<DrawItem>>, positions: Seq<nat>, count: nat) -> int
    decreases count,
{
    if count == 0 {
        0
    } else {
        left(lanes, positions, (count - 1) as nat) + lanes[count - 1].len() - positions[count - 1]
    }
}

/// Drawing some of a kind leaves so much less.
proof fn lemma_left_shrinks(
    lanes: Seq<Seq<DrawItem>>,
    positions: Seq<nat>,
    kind: int,
    end: nat,
    count: nat,
)
    requires
        positions.len() == lanes.len(),
        0 <= kind < lanes.len(),
        count <= lanes.len(),
    ensures
        left(lanes, positions.update(kind, end), count) == left(lanes, positions, count) - (if kind
            < count {
            end - positions[kind]
        } else {
            0
        }),
    decreases count,
{
    if count > 0 {
        lemma_left_shrinks(lanes, positions, kind, end, (count - 1) as nat);
    }
}

/// Law: what is left to draw is never less than nothing.
pub proof fn lemma_left_is_natural(lanes: Seq<Seq<DrawItem>>, positions: Seq<nat>, count: nat)
    requires
        within(lanes, positions),
        count <= lanes.len(),
    ensures
        left(lanes, positions, count) >= 0,
    decreases count,
{
    if count > 0 {
        lemma_left_is_natural(lanes, positions, (count - 1) as nat);
        assert(positions[count - 1] <= lanes[count - 1].len());
    }
}

/// Law: a batch takes at least one primitive, the next ones of its kind, so that
/// less is left after it.
pub proof fn lemma_batch_takes_some(lanes: Seq<Seq<DrawItem>>, positions: Seq<nat>)
    requires
        lanes.len() >= 2,
        within(lanes, positions),
    ensures
        next_run(lanes, positions) matches Some(run) ==> {
            &&& 0 <= run.kind < lanes.len()
            &&& run.start == positions[run.kind]
            &&& run.start < run.end <= lanes[run.kind].len()
            &&& within(lanes, positions.update(run.kind, run.end as nat))
            &&& 0 <= left(lanes, positions.update(run.kind, run.end as nat), lanes.len()) < left(
                lanes,
                positions,
                lanes.len(),
            )
        },
{
    let heads = heads(lanes, positions);
    lemma_foremost(heads, lanes.len(), -1);
    let kind = foremost(heads, lanes.len(), -1);
    lemma_foremost(heads, lanes.len(), kind);
    let second = foremost(heads, lanes.len(), kind);
    let start = positions[kind] as int;
    if start < lanes[kind].len() {
        let key = lanes[kind][start].key;
        lemma_run_end(lanes[kind], start + 1, kind, key, heads[second], second);
        let end = run_end(lanes[kind], start + 1, kind, key, heads[second], second);
        lemma_left_shrinks(lanes, positions, kind, end as nat, lanes.len());
        lemma_left_is_natural(lanes, positions.update(kind, end as nat), lanes.len());
    }
}

/// The batches that draw what is left, one after the other.
pub open spec fn runs(lanes: Seq<Seq<DrawItem>>, positions: Seq<nat>) -> Seq<BatchRun>
    decreases left(lanes, positions, lanes.len()),
    when lanes.len() >= 2 && within(lanes, positions)
{
    match next_run(lanes, positions) {
        None => Seq::empty(),
        Some(run) => {
            proof {
                lemma_batch_takes_some(lanes, positions);
            }
            seq![run] + runs(lanes, positions.update(run.kind, run.end as nat))
        },
    }
}

/// The primitives of a run, by kind and place.
pub open spec fn run_items(run: BatchRun) -> Seq<(int, int)> {
    Seq::new((run.end - run.start) as nat, |i: int| (run.kind, run.start + i))
}

/// The primitives of some runs, by kind and place, run after run.
pub open spec fn all_items(runs: Seq<BatchRun>) -> Seq<(int, int)>
    decreases runs.len(),
{
    if runs.len() == 0 {
        Seq::empty()
    } else {
        run_items(runs[0]) + all_items(runs.drop_first())
    }
}

/// Law: drawing batch after batch draws each primitive that is left exactly
/// once, with at most as many batches as primitives are left, in whatever order
/// the primitives of a kind stand.
pub proof fn lemma_everything_is_drawn_once(lanes: Seq<Seq<DrawItem>>, positions: Seq<nat>)
    requires
        below_top(lanes),
        within(lanes, positions),
    ensures
        runs(lanes, positions).len() <= left(lanes, positions, lanes.len()),
        forall|k: int, j: int|
            #[trigger] all_items(runs(lanes, positions)).contains((k, j)) <==> 0 <= k < lanes.len()
                && positions[k] <= j < lanes[k].len(),
        all_items(runs(lanes, positions)).no_duplicates(),
    decreases left(lanes, positions, lanes.len()),
{
    lemma_batch_takes_next(lanes, positions);
    lemma_batch_takes_some(lanes, positions);
    lemma_left_is_natural(lanes, positions, lanes.len());
    let all = all_items(runs(lanes, positions));
    match next_run(lanes, positions) {
        None => {
            assert(all =~= Seq::empty());
            assert forall|k: int, j: int|
                #[trigger] all.contains((k, j)) <==> 0 <= k < lanes.len() && positions[k] <= j
                    < lanes[k].len() by {
                if 0 <= k < lanes.len() {
                    assert(positions[k] == lanes[k].len());
                }
            }
        },
        Some(run) => {
            let after = positions.update(run.kind, run.end as nat);
            lemma_everything_is_drawn_once(lanes, after);
            let head = run_items(run);
            let tail = all_items(runs(lanes, after));
            assert(runs(lanes, positions) == seq![run] + runs(lanes, after));
            assert(runs(lanes, positions).drop_first() =~= runs(lanes, after));
            assert(all == head + tail);
            assert forall|k: int, j: int|
                #[trigger] all.contains((k, j)) <==> 0 <= k < lanes.len() && positions[k] <= j
                    < lanes[k].len() by {
                if all.contains((k, j)) {
                    let n = choose|n: int| 0 <= n < all.len() && all[n] == (k, j);
                    if n >= head.len() {
                        assert(tail[n - head.len()] == (k, j));
                        assert(tail.contains((k, j)));
                    }
                } else if 0 <= k < lanes.len() && positions[k] <= j < lanes[k].len() {
                    if k == run.kind && j < run.end {
                        assert(head[j - run.start] == (k, j));
                        assert(all[j - run.start] == (k, j));
                    } else {
                        assert(tail.contains((k, j)));
                        let n = choose|n: int| 0 <= n < tail.len() && tail[n] == (k, j);
                        assert(all[head.len() + n] == (k, j));
                    }
                }
            }
            assert(all.no_duplicates()) by {
                assert forall|a: int, b: int|
                    0 <= a < all.len() && 0 <= b < all.len() && a != b implies all[a]
                    != all[b] by {
                    if a < head.len() && b >= head.len() {
                        assert(tail.contains(tail[b - head.len()]));
                        let y = tail[b - head.len()];
                        assert(tail.contains((y.0, y.1)));
                    } else if b < head.len() && a >= head.len() {
                        assert(tail.contains(tail[a - head.len()]));
                        let y = tail[a - head.len()];
                        assert(tail.contains((y.0, y.1)));
                    } else if a >= head.len() && b >= head.len() {
                        assert(tail[a - head.len()] != tail[b - head.len()]);
                    }
                }
            }
        },
    }
}

/// Law: where the primitives of every kind stand in the order in which they are
/// drawn, drawing batch after batch draws those that are left by draw order
/// first and then by kind.
pub proof fn lemma_everything_is_drawn_in_order(lanes: Seq<Seq<DrawItem>>, positions: Seq<nat>)
    requires
        drawable(lanes),
        within(lanes, positions),
    ensures
        forall|a: int, b: int|
            0 <= a < b < all_items(runs(lanes, positions)).len() ==> {
                let x = #[trigger] all_items(runs(lanes, positions))[a];
                let y = #[trigger] all_items(runs(lanes, positions))[b];
                !drawn_before(lanes[y.0][y.1].order, y.0, lanes[x.0][x.1].order, x.0)
            },
    decreases left(lanes, positions, lanes.len()),
{
    lemma_batch_takes_next(lanes, positions);
    lemma_batch_takes_some(lanes, positions);
    lemma_left_is_natural(lanes, positions, lanes.len());
    let all = all_items(runs(lanes, positions));
    match next_run(lanes, positions) {
        None => {
            assert(all =~= Seq::empty());
        },
        Some(run) => {
            let after = positions.update(run.kind, run.end as nat);
            lemma_everything_is_drawn_in_order(lanes, after);
            lemma_everything_is_drawn_once(lanes, after);
            let head = run_items(run);
            let tail = all_items(runs(lanes, after));
            assert(runs(lanes, positions) == seq![run] + runs(lanes, after));
            assert(runs(lanes, positions).drop_first() =~= runs(lanes, after));
            assert(all == head + tail);
            assert forall|a: int, b: int| 0 <= a < b < all.len() implies {
                let x = #[trigger] all[a];
                let y = #[trigger] all[b];
                !drawn_before(lanes[y.0][y.1].order, y.0, lanes[x.0][x.1].order, x.0)
            } by {
                let x = all[a];
                let y = all[b];
                if b < head.len() {
                    assert(lane_sorted(lanes[run.kind]));
                    assert(lanes[run.kind][run.start + a].order <= lanes[run.kind][run.start
                        + b].order);
                } else if a < head.len() {
                    let m = b - head.len();
                    assert(tail.contains(tail[m]));
                    assert(tail.contains((y.0, y.1)));
                    lemma_batch_draws_first(lanes, positions, run.start + a, y.0, y.1);
                } else {
                    assert(x == tail[a - head.len()]);
                    assert(y == tail[b - head.len()]);
                }
            }
        },
    }
}

/// Items that cannot be told apart and stand together go into one batch.
proof fn lemma_equal_items_stay_together(
    lanes: Seq<Seq<DrawItem>>,
    positions: Seq<nat>,
    i: int,
    j: int,
)
    requires
        below_top(lanes),
        within(lanes, positions),
        next_run(lanes, positions) matches Some(run) && run.start <= i < run.end && i <= j
            < lanes[run.kind].len() && forall|m: int|
            i <= m <= j ==> (#[trigger] lanes[run.kind][m]) == lanes[run.kind][i],
    ensures
        next_run(lanes, positions) matches Some(run) ==> j < run.end,
{
    lemma_batch_takes_next(lanes, positions);
    let run = next_run(lanes, positions)->0;
    let kind = run.kind;
    let heads = heads(lanes, positions);
    lemma_foremost(heads, lanes.len(), -1);
    lemma_foremost(heads, lanes.len(), kind);
    let second = foremost(heads, lanes.len(), kind);
    lemma_run_end(lanes[kind], run.start + 1, kind, run.key, heads[second], second);
    if j >= run.end {
        assert(lanes[kind][run.end] == lanes[kind][i]);
        assert(heads[kind] == lanes[kind][run.start].order);
        assert(drawn_before(heads[kind], kind, heads[second], second));
        if i > run.start {
            assert(drawn_before(lanes[kind][i].order, kind, heads[second], second));
        }
    }
}

/// Whether the keys of the items do not decrease.
pub open spec fn keys_sorted<T: Keyed>(items: Seq<T>) -> bool {
    forall|i: int, j: int|
        0 <= i <= j < items.len() ==> !crate::sort::key_before(
            (#[trigger] items[j]).key(),
            (#[trigger] items[i]).key(),
        )
}

proof fn lemma_sorted_keys<T: Keyed>(before: Seq<T>, after: Seq<T>)
    requires
        stable_sorted(before, after),
    ensures
        keys_sorted(after),
{
    let from = choose|from: Seq<int>| sorts_as(before, after, from);
    assert forall|i: int, j: int| 0 <= i <= j < after.len() implies !crate::sort::key_before(
        (#[trigger] after[j]).key(),
        (#[trigger] after[i]).key(),
    ) by {
        if i < j {
            assert(crate::sort::key_before(after[i].key(), after[j].key()) || (after[i].key()
                == after[j].key() && from[i] < from[j]));
        }
    }
}

/// Whether no primitive of the scene is as high as orders go.
pub open spec fn below_the_top(scene: SceneModel) -> bool {
    forall|k: int, i: int|
        0 <= k < KIND_COUNT && 0 <= i < lane(scene, k).len() ==> (
        #[trigger] lane(scene, k)[i]).order < u32::MAX
}

/// Law: the batches of a scene draw each of its primitives exactly once, also
/// where the scene was not finished. This leaves out a scene with a primitive as
/// high as orders go.
pub proof fn lemma_scene_is_drawn_once(scene: SceneModel)
    requires
        below_the_top(scene),
    ensures
        ({
            let drawn = all_items(runs(lanes(scene), first_positions()));
            &&& forall|k: int, j: int|
                #[trigger] drawn.contains((k, j)) <==> 0 <= k < KIND_COUNT && 0 <= j < lane(
                    scene,
                    k,
                ).len()
            &&& drawn.no_duplicates()
        }),
{
    let lanes = lanes(scene);
    assert forall|k: int, i: int| 0 <= k < lanes.len() && 0 <= i < lanes[k].len() implies (
    #[trigger] lanes[k][i]).order < u32::MAX by {
        assert(lane(scene, k)[i].order < u32::MAX);
    }
    lemma_everything_is_drawn_once(lanes, first_positions());
}

/// Law: the primitives of a finished scene stand in the order in which they are
/// drawn, so that its batches draw everything once and in order. This leaves
/// out a scene with a primitive as high as orders go.
pub proof fn lemma_finished_scene_is_drawable(scene: SceneModel, finished: SceneModel)
    requires
        scene.finished_as(finished),
        below_the_top(finished),
    ensures
        drawable(lanes(finished)),
        within(lanes(finished), first_positions()),
{
    lemma_sorted_keys(scene.shadows, finished.shadows);
    lemma_sorted_keys(scene.quads, finished.quads);
    lemma_sorted_keys(scene.backdrop_blur_rects, finished.backdrop_blur_rects);
    lemma_sorted_keys(scene.effect_quads, finished.effect_quads);
    lemma_sorted_keys(scene.paths, finished.paths);
    lemma_sorted_keys(scene.underlines, finished.underlines);
    lemma_sorted_keys(scene.monochrome_sprites, finished.monochrome_sprites);
    lemma_sorted_keys(scene.subpixel_sprites, finished.subpixel_sprites);
    lemma_sorted_keys(scene.polychrome_sprites, finished.polychrome_sprites);
    lemma_sorted_keys(scene.surfaces, finished.surfaces);
    assert(lane_sorted(lane(finished, 0)));
    assert(lane_sorted(lane(finished, 1)));
    assert(lane_sorted(lane(finished, 2)));
    assert(lane_sorted(lane(finished, 3)));
    assert(lane_sorted(lane(finished, 4)));
    assert(lane_sorted(lane(finished, 5)));
    assert(lane_sorted(lane(finished, 6)));
    assert(lane_sorted(lane(finished, 7)));
    assert(lane_sorted(lane(finished, 8)));
    assert(lane_sorted(lane(finished, 9)));
    let lanes = lanes(finished);
    assert forall|k: int| 0 <= k < lanes.len() implies lane_sorted(#[trigger] lanes[k]) by {
        assert(lanes[k] == lane(finished, k));
    }
    assert forall|k: int, i: int| 0 <= k < lanes.len() && 0 <= i < lanes[k].len() implies (
    #[trigger] lanes[k][i]).order < u32::MAX by {
        assert(lane(finished, k)[i].order < u32::MAX);
    }
}

/// Law: the batches of a finished scene draw each of its primitives exactly once,
/// by draw order first and then by kind. This leaves out a scene with a
/// primitive as high as orders go.
pub proof fn lemma_finished_scene_is_drawn_once_in_order(scene: SceneModel, finished: SceneModel)
    requires
        scene.finished_as(finished),
        below_the_top(finished),
    ensures
        ({
            let drawn = all_items(runs(lanes(finished), first_positions()));
            &&& forall|k: int, j: int|
                #[trigger] drawn.contains((k, j)) <==> 0 <= k < KIND_COUNT && 0 <= j < lane(
                    finished,
                    k,
                ).len()
            &&& drawn.no_duplicates()
            &&& forall|a: int, b: int|
                0 <= a < b < drawn.len() ==> {
                    let x = #[trigger] drawn[a];
                    let y = #[trigger] drawn[b];
                    !drawn_before(
                        lane(finished, y.0)[y.1].order,
                        y.0,
                        lane(finished, x.0)[x.1].order,
                        x.0,
                    )
                }
        }),
{
    lemma_finished_scene_is_drawable(scene, finished);
    let lanes = lanes(finished);
    lemma_everything_is_drawn_once(lanes, first_positions());
    lemma_everything_is_drawn_in_order(lanes, first_positions());
    let drawn = all_items(runs(lanes, first_positions()));
    assert forall|a: int, b: int| 0 <= a < b < drawn.len() implies {
        let x = #[trigger] drawn[a];
        let y = #[trigger] drawn[b];
        !drawn_before(
            lane(finished, y.0)[y.1].order,
            y.0,
            lane(finished, x.0)[x.1].order,
            x.0,
        )
    } by {
        let x = drawn[a];
        let y = drawn[b];
        assert(drawn.contains((x.0, x.1)));
        assert(drawn.contains((y.0, y.1)));
        assert(!drawn_before(lanes[y.0][y.1].order, y.0, lanes[x.0][x.1].order, x.0));
    }
}

/// Law: in a finished scene, the effect quads of one draw order and one effect
/// go into one batch.
pub proof fn lemma_effect_stays_in_one_batch(
    scene: SceneModel,
    finished: SceneModel,
    positions: Seq<nat>,
    i: int,
    j: int,
)
    requires
        scene.finished_as(finished),
        below_the_top(finished),
        within(lanes(finished), positions),
        next_run(lanes(finished), positions) matches Some(run) && run.kind
            == crate::primitives::PrimitiveKind::EffectQuad.place() && run.start <= i < run.end,
        i <= j < finished.effect_quads.len(),
        finished.effect_quads[j].order == finished.effect_quads[i].order,
        finished.effect_quads[j].effect_id == finished.effect_quads[i].effect_id,
    ensures
        next_run(lanes(finished), positions) matches Some(run) ==> j < run.end,
{
    lemma_finished_scene_is_drawable(scene, finished);
    lemma_sorted_keys(scene.effect_quads, finished.effect_quads);
    let quads = finished.effect_quads;
    let items = lanes(finished)[3];
    lemma_batch_takes_next(lanes(finished), positions);
    assert forall|m: int| i <= m <= j implies (#[trigger] items[m]) == items[i] by {
        assert(!crate::sort::key_before(quads[m].key(), quads[i].key()));
        assert(!crate::sort::key_before(quads[j].key(), quads[m].key()));
    }
    lemma_equal_items_stay_together(lanes(finished), positions, i, j);
}

} // verus!
