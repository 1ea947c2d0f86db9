//! Painting that reads what was painted before it: groups that share a
//! snapshot, and the passes that blur it.

use crate::effect::{kernel_levels, BackdropBlurRect, EffectQuad};
use crate::geometry::{Bounds, Size};
use crate::scalar::ScaledPixels;
use vstd::arithmetic::power2::pow2;
use vstd::prelude::*;

verus! {

/// How many textures the blur pyramid has.
pub const BLUR_TEXTURE_LEVELS: usize = 5;

/// What grouping needs to know of a primitive that reads the backdrop.
#[derive(Clone, Copy, Debug)]
pub struct BackdropItem {
    pub levels: u32,
    pub bounds: Bounds<ScaledPixels>,
}

/// One step of painting such primitives.
#[derive(Clone, Copy, Debug, PartialEq, Eq, Structural)]
pub enum BackdropStep {
    /// Make sure that the snapshot and the pyramid exist.
    EnsureResources,
    /// Copy the render target into the snapshot.
    CopySnapshot,
    /// Halve the snapshot into a texture of the pyramid.
    DownsampleSnapshot { target: usize },
    /// Halve a texture of the pyramid into the next.
    Downsample { source: usize, target: usize },
    /// Double a texture of the pyramid into the one before.
    Upsample { source: usize, target: usize },
    /// Draw some instances over the snapshot, with the first texture of the
    /// pyramid for a backdrop, or the snapshot itself.
    Composite { first: usize, count: usize, blurred: bool },
}

/// Primitives that are painted over one snapshot: places from `start` up to,
/// but without, `end`.
pub struct BackdropGroup {
    pub start: int,
    pub end: int,
}

/// What grouping sees of backdrop blur rectangles.
pub open spec fn blur_items(rects: Seq<BackdropBlurRect>) -> Seq<BackdropItem> {
    rects.map_values(
        |rect: BackdropBlurRect|
            BackdropItem {
                levels: kernel_levels(rect.blur_radius.0) as u32,
                bounds: rect.bounds,
            },
    )
}

/// What grouping sees of effect quads.
pub open spec fn effect_items(quads: Seq<EffectQuad>) -> Seq<BackdropItem> {
    quads.map_values(
        |quad: EffectQuad| BackdropItem { levels: quad.levels() as u32, bounds: quad.bounds },
    )
}

/// Whether the item at `next` can be painted over the snapshot of a group that
/// begins at `start` and so far ends before it: it needs as many levels, and
/// overlaps none of the group.
pub open spec fn joins(items: Seq<BackdropItem>, start: int, next: int) -> bool {
    &&& items[next].levels == items[start].levels
    &&& forall|i: int|
        start <= i < next ==> !(#[trigger] items[i]).bounds.meets(items[next].bounds)
}

/// Where a group that begins at `start` and reaches at least to `end` ends.
pub open spec fn group_end(items: Seq<BackdropItem>, start: int, end: int) -> int
    decreases items.len() - end,
{
    if end < items.len() && joins(items, start, end) {
        group_end(items, start, end + 1)
    } else {
        end
    }
}

/// The groups from the item at `start` on.
pub open spec fn groups(items: Seq<BackdropItem>, start: int) -> Seq<BackdropGroup>
    decreases items.len() - start,
{
    if start < items.len() {
        proof {
            lemma_group_end(items, start, start + 1);
        }
        let end = group_end(items, start, start + 1);
        seq![BackdropGroup { start, end }] + groups(items, end)
    } else {
        Seq::empty()
    }
}

/// Law: a group takes in one item after the other as long as the next one joins.
pub proof fn lemma_group_end(items: Seq<BackdropItem>, start: int, end: int)
    requires
        start < end <= items.len(),
    ensures
        end <= group_end(items, start, end) <= items.len(),
        forall|i: int|
            end <= i < group_end(items, start, end) ==> #[trigger] joins(items, start, i),
        group_end(items, start, end) < items.len() ==> !joins(
            items,
            start,
            group_end(items, start, end),
        ),
    decreases items.len() - end,
{
    if end < items.len() && joins(items, start, end) {
        lemma_group_end(items, start, end + 1);
    }
}

/// The passes down the first `level` textures of the pyramid.
pub open spec fn down_passes(level: nat) -> Seq<BackdropStep>
    decreases level,
{
    if level == 0 {
        Seq::empty()
    } else if level == 1 {
        seq![BackdropStep::DownsampleSnapshot { target: 0 }]
    } else {
        down_passes((level - 1) as nat).push(
            BackdropStep::Downsample { source: (level - 2) as usize, target: (level - 1) as usize },
        )
    }
}

/// The passes up the pyramid, from the texture `level` to the first.
pub open spec fn up_passes(level: nat) -> Seq<BackdropStep>
    decreases level,
{
    if level == 0 {
        Seq::empty()
    } else {
        seq![BackdropStep::Upsample { source: level as usize, target: (level - 1) as usize }]
            + up_passes((level - 1) as nat)
    }
}

/// The passes that blur the snapshot by so many levels: down the pyramid by as
/// many textures, and up again to the first.
pub open spec fn blur_passes(levels: nat) -> Seq<BackdropStep> {
    if levels == 0 {
        Seq::empty()
    } else {
        let depth: nat = if levels < BLUR_TEXTURE_LEVELS {
            levels
        } else {
            BLUR_TEXTURE_LEVELS as nat
        };
        down_passes(depth) + up_passes((depth - 1) as nat)
    }
}

/// The steps that paint one group, the first item of which is instance
/// `first`.
pub open spec fn group_steps(
    items: Seq<BackdropItem>,
    first: int,
    start: int,
    end: int,
) -> Seq<BackdropStep> {
    seq![BackdropStep::CopySnapshot] + blur_passes(items[start].levels as nat) + seq![
        BackdropStep::Composite {
            first: (first + start) as usize,
            count: (end - start) as usize,
            blurred: items[start].levels > 0,
        },
    ]
}

/// The steps that paint the groups from the item at `start` on.
pub open spec fn steps_from(items: Seq<BackdropItem>, first: int, start: int) -> Seq<BackdropStep>
    decreases items.len() - start,
{
    if start < items.len() {
        proof {
            lemma_group_end(items, start, start + 1);
        }
        let end = group_end(items, start, start + 1);
        group_steps(items, first, start, end) + steps_from(items, first, end)
    } else {
        Seq::empty()
    }
}

/// The steps that paint primitives that read the backdrop, the first of which
/// is instance `first`.
pub open spec fn backdrop_steps(items: Seq<BackdropItem>, first: int) -> Seq<BackdropStep> {
    if items.len() == 0 {
        Seq::empty()
    } else {
        seq![BackdropStep::EnsureResources] + steps_from(items, first, 0)
    }
}

fn find_group_end(items: &Vec<BackdropItem>, start: usize) -> (result: usize)
    requires
        start < items.len(),
    ensures
        start < result <= items.len(),
        result == group_end(items@, start as int, start + 1),
{
    let mut end: usize = start + 1;
    let mut open = true;
    while open && end < items.len()
        invariant
            start < end <= items.len(),
            group_end(items@, start as int, start + 1) == group_end(
                items@,
                start as int,
                end as int,
            ),
            !open ==> group_end(items@, start as int, end as int) == end,
        decreases items.len() - end, (if open { 1int } else { 0int }),
    {
        let candidate = items[end];
        let mut fits = candidate.levels == items[start].levels;
        let mut index: usize = start;
        while fits && index < end
            invariant
                start <= index <= end < items.len(),
                candidate == items@[end as int],
                fits ==> candidate.levels == items@[start as int].levels && forall|i: int|
                    start <= i < index ==> !(#[trigger] items@[i]).bounds.meets(candidate.bounds),
                !fits ==> !joins(items@, start as int, end as int),
            decreases end - index,
        {
            if items[index].bounds.intersects(&candidate.bounds) {
                assert(items@[index as int].bounds.meets(items@[end as int].bounds));
                fits = false;
            }
            index = index + 1;
        }
        if fits {
            assert(joins(items@, start as int, end as int));
            end = end + 1;
        } else {
            open = false;
        }
    }
    end
}

/// Appends the passes that blur the snapshot by so many levels.
fn push_blur_passes(steps: &mut Vec<BackdropStep>, levels: u32)
    ensures
        final(steps)@ == old(steps)@ + blur_passes(levels as nat),
{
    if levels == 0 {
        assert(steps@ =~= old(steps)@ + blur_passes(0));
        return;
    }
    let depth: usize = if (levels as usize) < BLUR_TEXTURE_LEVELS {
        levels as usize
    } else {
        BLUR_TEXTURE_LEVELS
    };
    steps.push(BackdropStep::DownsampleSnapshot { target: 0 });
    let mut level: usize = 1;
    assert(steps@ =~= old(steps)@ + down_passes(1));
    while level < depth
        invariant
            1 <= level <= depth <= BLUR_TEXTURE_LEVELS,
            steps@ == old(steps)@ + down_passes(level as nat),
        decreases depth - level,
    {
        steps.push(BackdropStep::Downsample { source: level - 1, target: level });
        level = level + 1;
        assert(steps@ =~= old(steps)@ + down_passes(level as nat));
    }
    let ghost down = steps@;
    let mut level: usize = depth - 1;
    assert(steps@ + up_passes(level as nat) =~= down + up_passes((depth - 1) as nat));
    while level > 0
        invariant
            level < depth,
            steps@ + up_passes(level as nat) == down + up_passes((depth - 1) as nat),
        decreases level,
    {
        let ghost before = steps@;
        steps.push(BackdropStep::Upsample { source: level, target: level - 1 });
        assert(steps@ + up_passes((level - 1) as nat) =~= before + up_passes(level as nat));
        level = level - 1;
    }
    assert(steps@ =~= down + up_passes((depth - 1) as nat));
    assert(steps@ =~= old(steps)@ + blur_passes(levels as nat));
}

/// The steps that paint primitives that read the backdrop, the first of which
/// is instance `first`.
///
/// A group needs one depth of the pyramid and holds no two items that overlap.
/// Every group gets a snapshot of its own, so that a panel painted over another
/// one sees it; items that do not overlap share one.
pub fn plan_backdrop_items(items: &Vec<BackdropItem>, first: usize) -> (result: Vec<BackdropStep>)
    requires
        first + items.len() <= usize::MAX,
    ensures
        result@ == backdrop_steps(items@, first as int),
{
    let mut steps: Vec<BackdropStep> = Vec::new();
    if items.len() == 0 {
        assert(steps@ =~= backdrop_steps(items@, first as int));
        return steps;
    }
    steps.push(BackdropStep::EnsureResources);
    let mut start: usize = 0;
    assert(steps@ + steps_from(items@, first as int, 0) =~= backdrop_steps(items@, first as int));
    while start < items.len()
        invariant
            start <= items.len(),
            first + items.len() <= usize::MAX,
            steps@ + steps_from(items@, first as int, start as int) == backdrop_steps(
                items@,
                first as int,
            ),
        decreases items.len() - start,
    {
        let end: usize = find_group_end(items, start);
        let levels: u32 = items[start].levels;
        let ghost before = steps@;
        steps.push(BackdropStep::CopySnapshot);
        push_blur_passes(&mut steps, levels);
        steps.push(
            BackdropStep::Composite {
                first: first + start,
                count: end - start,
                blurred: levels > 0,
            },
        );
        proof {
            let this = group_steps(items@, first as int, start as int, end as int);
            assert(steps@ =~= before + this);
            assert(steps@ + steps_from(items@, first as int, end as int) =~= before + steps_from(
                items@,
                first as int,
                start as int,
            ));
        }
        start = end;
    }
    assert(steps@ =~= backdrop_steps(items@, first as int));
    steps
}

/// The steps that paint backdrop blur rectangles, the first of which is
/// instance `first`.
pub fn draw_backdrop_blur_rects(rects: &[BackdropBlurRect], first: usize) -> (result: Vec<
    BackdropStep,
>)
    requires
        first + rects.len() <= usize::MAX,
    ensures
        result@ == backdrop_steps(blur_items(rects@), first as int),
{
    let mut items: Vec<BackdropItem> = Vec::new();
    let mut index: usize = 0;
    while index < rects.len()
        invariant
            index <= rects.len(),
            items@ == blur_items(rects@).take(index as int),
        decreases rects.len() - index,
    {
        let rect = rects[index];
        items.push(BackdropItem { levels: rect.effective_kernel_levels(), bounds: rect.bounds });
        index = index + 1;
        assert(items@ =~= blur_items(rects@).take(index as int));
    }
    assert(items@ =~= blur_items(rects@));
    plan_backdrop_items(&items, first)
}

/// What grouping sees of effect quads.
pub(crate) fn list_effect_items(quads: &[EffectQuad]) -> (result: Vec<BackdropItem>)
    ensures
        result@ == effect_items(quads@),
{
    let mut items: Vec<BackdropItem> = Vec::new();
    let mut index: usize = 0;
    while index < quads.len()
        invariant
            index <= quads.len(),
            items@ == effect_items(quads@).take(index as int),
        decreases quads.len() - index,
    {
        let quad = quads[index];
        items.push(BackdropItem { levels: quad.effective_kernel_levels(), bounds: quad.bounds });
        index = index + 1;
        assert(items@ =~= effect_items(quads@).take(index as int));
    }
    assert(items@ =~= effect_items(quads@));
    items
}

/// The length of a texture of the pyramid: halved once more with every level,
/// but never nothing.
pub open spec fn pyramid_length(length: u32, level: nat) -> int {
    let halved = length as int / pow2(level + 1) as int;
    if halved < 1 {
        1
    } else {
        halved
    }
}

/// The sizes of the textures of the pyramid for a window of the given size.
pub fn create_blur_textures(width: u32, height: u32) -> (result: Vec<Size<u32>>)
    ensures
        result@.len() == BLUR_TEXTURE_LEVELS,
        forall|level: int|
            0 <= level < BLUR_TEXTURE_LEVELS ==> (#[trigger] result@[level]).width
                == pyramid_length(width, level as nat) && result@[level].height == pyramid_length(
                height,
                level as nat,
            ),
{
    let mut sizes: Vec<Size<u32>> = Vec::new();
    let mut level: usize = 0;
    let mut divisor: u32 = 2;
    proof {
        vstd::arithmetic::power2::lemma2_to64();
    }
    while level < BLUR_TEXTURE_LEVELS
        invariant
            level <= BLUR_TEXTURE_LEVELS,
            sizes@.len() == level,
            divisor == pow2((level + 1) as nat),
            2 <= divisor <= 64,
            level == 0 ==> divisor == 2,
            level == 1 ==> divisor == 4,
            level == 2 ==> divisor == 8,
            level == 3 ==> divisor == 16,
            level == 4 ==> divisor == 32,
            forall|i: int|
                0 <= i < level ==> (#[trigger] sizes@[i]).width == pyramid_length(width, i as nat)
                    && sizes@[i].height == pyramid_length(height, i as nat),
        decreases BLUR_TEXTURE_LEVELS - level,
    {
        let halved_width: u32 = width / divisor;
        let halved_height: u32 = height / divisor;
        sizes.push(
            Size {
                width: if halved_width < 1 {
                    1
                } else {
                    halved_width
                },
                height: if halved_height < 1 {
                    1
                } else {
                    halved_height
                },
            },
        );
        proof {
            vstd::arithmetic::power2::lemma2_to64();
        }
        level = level + 1;
        divisor = divisor * 2;
    }
    sizes
}

/// Law: the groups follow one another without a gap and take in every item, so
/// that each item is painted exactly once and in order.
pub proof fn lemma_groups_cover(items: Seq<BackdropItem>, start: int)
    requires
        0 <= start <= items.len(),
    ensures
        start < items.len() ==> groups(items, start).len() > 0 && groups(items, start)[0].start
            == start && groups(items, start).last().end == items.len(),
        forall|g: int|
            0 <= g < groups(items, start).len() ==> (#[trigger] groups(items, start)[g]).start
                < groups(items, start)[g].end <= items.len(),
        forall|g: int, h: int|
            0 <= g && h == g + 1 && h < groups(items, start).len() ==> (#[trigger] groups(
                items,
                start,
            )[g]).end == (#[trigger] groups(items, start)[h]).start,
    decreases items.len() - start,
{
    if start < items.len() {
        lemma_group_end(items, start, start + 1);
        let end = group_end(items, start, start + 1);
        lemma_groups_cover(items, end);
        let rest = groups(items, end);
        let all = groups(items, start);
        assert(all == seq![BackdropGroup { start, end }] + rest);
        assert forall|g: int| 0 <= g < all.len() implies (#[trigger] all[g]).start < all[g].end
            <= items.len() by {
            if g > 0 {
                assert(all[g] == rest[g - 1]);
            }
        }
        assert forall|g: int, h: int| 0 <= g && h == g + 1 && h < all.len() implies (
        #[trigger] all[g]).end == (#[trigger] all[h]).start by {
            assert(all[h] == rest[h - 1]);
            if g > 0 {
                assert(all[g] == rest[g - 1]);
            }
        }
        if rest.len() > 0 {
            assert(all.last() == rest.last());
        }
    }
}

/// Law: in a group, no two items overlap and all need the same levels; and a
/// group ends only where the next item overlaps one of it or needs other
/// levels.
pub proof fn lemma_groups_are_apart(items: Seq<BackdropItem>, start: int, g: int)
    requires
        0 <= start <= items.len(),
        0 <= g < groups(items, start).len(),
    ensures
        ({
            let group = groups(items, start)[g];
            &&& 0 <= group.start < group.end <= items.len()
            &&& forall|i: int, j: int|
                group.start <= i < j < group.end ==> !(#[trigger] items[i]).bounds.meets(
                    (#[trigger] items[j]).bounds,
                )
            &&& forall|i: int|
                group.start <= i < group.end ==> (#[trigger] items[i]).levels
                    == items[group.start].levels
            &&& group.end < items.len() ==> !joins(items, group.start, group.end)
        }),
    decreases items.len() - start,
{
    lemma_group_end(items, start, start + 1);
    let end = group_end(items, start, start + 1);
    let group = groups(items, start)[g];
    if g == 0 {
        assert(group.start == start && group.end == end);
        assert forall|i: int, j: int| start <= i < j < end implies !(
        #[trigger] items[i]).bounds.meets((#[trigger] items[j]).bounds) by {
            assert(joins(items, start, j));
        }
        assert forall|i: int| start <= i < end implies (#[trigger] items[i]).levels
            == items[start].levels by {
            if i > start {
                assert(joins(items, start, i));
            }
        }
    } else {
        assert(group == groups(items, end)[g - 1]);
        lemma_groups_are_apart(items, end, g - 1);
    }
}

/// Law: each group is painted over a snapshot of its own, taken after all
/// groups before it were painted.
pub proof fn lemma_every_group_has_its_snapshot(items: Seq<BackdropItem>, first: int, start: int)
    requires
        0 <= start < items.len(),
    ensures
        ({
            let end = group_end(items, start, start + 1);
            let steps = steps_from(items, first, start);
            let this = group_steps(items, first, start, end);
            &&& groups(items, start)[0] == BackdropGroup { start, end }
            &&& steps == this + steps_from(items, first, end)
            &&& this[0] == BackdropStep::CopySnapshot
            &&& this.last() is Composite
        }),
{
    lemma_group_end(items, start, start + 1);
}

/// Law: blurring goes as far up the pyramid as it went down: it ends in the
/// first texture, after as many passes up as passes between textures down.
pub proof fn lemma_blur_ends_in_first_texture(levels: nat)
    requires
        levels > 0,
    ensures
        blur_passes(levels).len() % 2 == 1,
        levels <= BLUR_TEXTURE_LEVELS ==> blur_passes(levels).len() == 2 * levels - 1,
        match blur_passes(levels).last() {
            BackdropStep::DownsampleSnapshot { target } => target == 0,
            BackdropStep::Upsample { source, target } => target == 0 && source == 1,
            _ => false,
        },
{
    reveal_with_fuel(down_passes, 6);
    reveal_with_fuel(up_passes, 6);
}

/// Law: an item that reads the backdrop is grouped by the bounds of its record and
/// the levels that its blur takes.
pub proof fn lemma_items_are_what_is_painted(
    rects: Seq<BackdropBlurRect>,
    quads: Seq<EffectQuad>,
    i: int,
)
    ensures
        blur_items(rects).len() == rects.len(),
        effect_items(quads).len() == quads.len(),
        0 <= i < rects.len() ==> blur_items(rects)[i].bounds == rects[i].bounds && blur_items(
            rects,
        )[i].levels == kernel_levels(rects[i].blur_radius.0),
        0 <= i < quads.len() ==> effect_items(quads)[i].bounds == quads[i].bounds && effect_items(
            quads,
        )[i].levels == quads[i].levels(),
{
    if 0 <= i < rects.len() && !rects[i].blur_radius.0.nan() {
        crate::effect::lemma_kernel_levels_saturate(rects[i].blur_radius.0);
    }
    if 0 <= i < quads.len() && !quads[i].backdrop_blur_radius.0.nan() {
        crate::effect::lemma_kernel_levels_saturate(quads[i].backdrop_blur_radius.0);
    }
}

/// Law: an item joins a group exactly if it takes as many levels as the group's
/// first item and overlaps none that is in the group.
pub proof fn lemma_what_joins_a_group(items: Seq<BackdropItem>, start: int, next: int)
    requires
        0 <= start < next < items.len(),
    ensures
        joins(items, start, next) <==> items[next].levels == items[start].levels && !exists|i: int|
            start <= i < next && (#[trigger] items[i]).bounds.meets(items[next].bounds),
{
}

/// Law: the textures of the pyramid halve, level after level, from half the window
/// on, and none is without extent.
pub proof fn lemma_pyramid_halves(length: u32, level: nat)
    ensures
        pyramid_length(length, level) >= 1,
        pyramid_length(length, 0) == (if length < 2 {
            1
        } else {
            length as int / 2
        }),
        pyramid_length(length, level + 1) == (if pyramid_length(length, level) < 2 {
            1
        } else {
            pyramid_length(length, level) / 2
        }),
{
    vstd::arithmetic::power2::lemma2_to64();
    vstd::arithmetic::power2::lemma_pow2_pos(level + 1);
    vstd::arithmetic::power2::lemma_pow2_unfold(level + 2);
    let p = pow2(level + 1) as int;
    vstd::arithmetic::div_mod::lemma_div_denominator(length as int, p, 2);
    assert(pow2(level + 2) == p * 2);
}

} // verus!
