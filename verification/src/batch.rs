//! Runs of primitives that one draw call can paint.

use crate::primitives::PrimitiveKind;
use crate::scene::{Scene, SceneModel};
use crate::text::{decimal, push_decimal};
use crate::tile::AtlasTextureId;
use std::ops::Range;
use vstd::prelude::*;
use vstd::string::StringExecFns;

verus! {

/// How many kinds of primitives there are.
pub const KIND_COUNT: usize = 10;

/// What the primitives of one batch must have in common besides their kind.
#[derive(Clone, Copy, Debug, PartialEq, Eq, Structural)]
pub enum BatchKey {
    /// Nothing more.
    Whole,
    /// The effect, each of which has a pipeline of its own.
    Effect(u32),
    /// The texture that the sprites are sampled from.
    Texture(AtlasTextureId),
}

/// What batching needs to know of a primitive.
#[derive(Clone, Copy, Debug, PartialEq, Eq, Structural)]
pub struct DrawItem {
    pub order: u32,
    pub key: BatchKey,
}

/// Primitives of one kind that are drawn at once, by their places in the
/// scene's list of that kind.
#[derive(Debug)]
pub enum PrimitiveBatch {
    Shadows(Range<usize>),
    Quads(Range<usize>),
    BackdropBlurRects(Range<usize>),
    EffectQuads { effect_id: u32, range: Range<usize> },
    Paths(Range<usize>),
    Underlines(Range<usize>),
    MonochromeSprites { texture_id: AtlasTextureId, range: Range<usize> },
    SubpixelSprites { texture_id: AtlasTextureId, range: Range<usize> },
    PolychromeSprites { texture_id: AtlasTextureId, range: Range<usize> },
    Surfaces(Range<usize>),
}

/// What a [`PrimitiveBatch`] holds.
pub struct BatchRun {
    /// The place of the kind among the kinds.
    pub kind: int,
    pub start: int,
    pub end: int,
    pub key: BatchKey,
}

impl PrimitiveKind {
    /// The place of a kind among the kinds.
    pub open spec fn place(self) -> int {
        match self {
            PrimitiveKind::Shadow => 0,
            PrimitiveKind::Quad => 1,
            PrimitiveKind::BackdropBlurRect => 2,
            PrimitiveKind::EffectQuad => 3,
            PrimitiveKind::Path => 4,
            PrimitiveKind::Underline => 5,
            PrimitiveKind::MonochromeSprite => 6,
            PrimitiveKind::SubpixelSprite => 7,
            PrimitiveKind::PolychromeSprite => 8,
            PrimitiveKind::Surface => 9,
        }
    }

    /// The kind at a place.
    fn at(place: usize) -> (result: PrimitiveKind)
        requires
            place < KIND_COUNT,
        ensures
            result.place() == place,
    {
        match place {
            0 => PrimitiveKind::Shadow,
            1 => PrimitiveKind::Quad,
            2 => PrimitiveKind::BackdropBlurRect,
            3 => PrimitiveKind::EffectQuad,
            4 => PrimitiveKind::Path,
            5 => PrimitiveKind::Underline,
            6 => PrimitiveKind::MonochromeSprite,
            7 => PrimitiveKind::SubpixelSprite,
            8 => PrimitiveKind::PolychromeSprite,
            _ => PrimitiveKind::Surface,
        }
    }
}

impl PrimitiveBatch {
    /// What the batch holds.
    pub open spec fn run(self) -> BatchRun {
        match self {
            PrimitiveBatch::Shadows(range) => BatchRun {
                kind: PrimitiveKind::Shadow.place(),
                start: range.start as int,
                end: range.end as int,
                key: BatchKey::Whole,
            },
            PrimitiveBatch::Quads(range) => BatchRun {
                kind: PrimitiveKind::Quad.place(),
                start: range.start as int,
                end: range.end as int,
                key: BatchKey::Whole,
            },
            PrimitiveBatch::BackdropBlurRects(range) => BatchRun {
                kind: PrimitiveKind::BackdropBlurRect.place(),
                start: range.start as int,
                end: range.end as int,
                key: BatchKey::Whole,
            },
            PrimitiveBatch::EffectQuads { effect_id, range } => BatchRun {
                kind: PrimitiveKind::EffectQuad.place(),
                start: range.start as int,
                end: range.end as int,
                key: BatchKey::Effect(effect_id),
            },
            PrimitiveBatch::Paths(range) => BatchRun {
                kind: PrimitiveKind::Path.place(),
                start: range.start as int,
                end: range.end as int,
                key: BatchKey::Whole,
            },
            PrimitiveBatch::Underlines(range) => BatchRun {
                kind: PrimitiveKind::Underline.place(),
                start: range.start as int,
                end: range.end as int,
                key: BatchKey::Whole,
            },
            PrimitiveBatch::MonochromeSprites { texture_id, range } => BatchRun {
                kind: PrimitiveKind::MonochromeSprite.place(),
                start: range.start as int,
                end: range.end as int,
                key: BatchKey::Texture(texture_id),
            },
            PrimitiveBatch::SubpixelSprites { texture_id, range } => BatchRun {
                kind: PrimitiveKind::SubpixelSprite.place(),
                start: range.start as int,
                end: range.end as int,
                key: BatchKey::Texture(texture_id),
            },
            PrimitiveBatch::PolychromeSprites { texture_id, range } => BatchRun {
                kind: PrimitiveKind::PolychromeSprite.place(),
                start: range.start as int,
                end: range.end as int,
                key: BatchKey::Texture(texture_id),
            },
            PrimitiveBatch::Surfaces(range) => BatchRun {
                kind: PrimitiveKind::Surface.place(),
                start: range.start as int,
                end: range.end as int,
                key: BatchKey::Whole,
            },
        }
    }
}

/// How many places a range holds.
pub open spec fn range_len(range: Range<usize>) -> nat {
    if range.start < range.end {
        (range.end - range.start) as nat
    } else {
        0
    }
}

/// The label of a batch: its name, and in round brackets how many primitives
/// it draws.
pub open spec fn counted_label(name: Seq<char>, range: Range<usize>) -> Seq<char> {
    name + " ("@ + decimal(range_len(range)) + ")"@
}

fn label_counted(name: &str, range: &Range<usize>) -> (result: String)
    ensures
        result@ == counted_label(name@, *range),
{
    let mut text = String::from_str(name);
    text.append(" (");
    let count: usize = if range.start < range.end {
        range.end - range.start
    } else {
        0
    };
    push_decimal(&mut text, count as u64);
    text.append(")");
    text
}

fn label_on_atlas(name: &str, range: &Range<usize>, texture_id: &AtlasTextureId) -> (result: String)
    ensures
        result@ == counted_label(name@, *range) + " on atlas "@ + decimal(texture_id.index as nat),
{
    let mut text = label_counted(name, range);
    text.append(" on atlas ");
    push_decimal(&mut text, texture_id.index as u64);
    text
}

impl PrimitiveBatch {
    /// The text by which the batch goes in traces and error messages.
    pub open spec fn label_text(self) -> Seq<char> {
        match self {
            PrimitiveBatch::Shadows(range) => counted_label("shadows"@, range),
            PrimitiveBatch::Quads(range) => counted_label("quads"@, range),
            PrimitiveBatch::BackdropBlurRects(range) => counted_label(
                "backdrop blur rects"@,
                range,
            ),
            PrimitiveBatch::EffectQuads { effect_id, range } => counted_label(
                "effect quads"@,
                range,
            ) + " with effect "@ + decimal(effect_id as nat),
            PrimitiveBatch::Paths(range) => counted_label("paths"@, range),
            PrimitiveBatch::Underlines(range) => counted_label("underlines"@, range),
            PrimitiveBatch::MonochromeSprites { texture_id, range } => counted_label(
                "monochrome sprites"@,
                range,
            ) + " on atlas "@ + decimal(texture_id.index as nat),
            PrimitiveBatch::SubpixelSprites { texture_id, range } => counted_label(
                "subpixel sprites"@,
                range,
            ) + " on atlas "@ + decimal(texture_id.index as nat),
            PrimitiveBatch::PolychromeSprites { texture_id, range } => counted_label(
                "polychrome sprites"@,
                range,
            ) + " on atlas "@ + decimal(texture_id.index as nat),
            PrimitiveBatch::Surfaces(range) => counted_label("surfaces"@, range),
        }
    }

    /// The text by which the batch goes in traces and error messages.
    pub fn label(&self) -> (result: String)
        ensures
            result@ == self.label_text(),
    {
        match self {
            PrimitiveBatch::Shadows(range) => label_counted("shadows", range),
            PrimitiveBatch::Quads(range) => label_counted("quads", range),
            PrimitiveBatch::BackdropBlurRects(range) => label_counted("backdrop blur rects", range),
            PrimitiveBatch::EffectQuads { effect_id, range } => {
                let mut text = label_counted("effect quads", range);
                text.append(" with effect ");
                push_decimal(&mut text, *effect_id as u64);
                text
            },
            PrimitiveBatch::Paths(range) => label_counted("paths", range),
            PrimitiveBatch::Underlines(range) => label_counted("underlines", range),
            PrimitiveBatch::MonochromeSprites { texture_id, range } => label_on_atlas(
                "monochrome sprites",
                range,
                texture_id,
            ),
            PrimitiveBatch::SubpixelSprites { texture_id, range } => label_on_atlas(
                "subpixel sprites",
                range,
                texture_id,
            ),
            PrimitiveBatch::PolychromeSprites { texture_id, range } => label_on_atlas(
                "polychrome sprites",
                range,
                texture_id,
            ),
            PrimitiveBatch::Surfaces(range) => label_counted("surfaces", range),
        }
    }
}

/// The primitives of one kind, as batching sees them.
pub open spec fn lane(scene: SceneModel, kind: int) -> Seq<DrawItem> {
    if kind == 0 {
        scene.shadows.map_values(
            |p: crate::primitives::Shadow| DrawItem { order: p.order, key: BatchKey::Whole },
        )
    } else if kind == 1 {
        scene.quads.map_values(
            |p: crate::primitives::Quad| DrawItem { order: p.order, key: BatchKey::Whole },
        )
    } else if kind == 2 {
        scene.backdrop_blur_rects.map_values(
            |p: crate::effect::BackdropBlurRect| DrawItem { order: p.order, key: BatchKey::Whole },
        )
    } else if kind == 3 {
        scene.effect_quads.map_values(
            |p: crate::effect::EffectQuad|
                DrawItem { order: p.order, key: BatchKey::Effect(p.effect_id) },
        )
    } else if kind == 4 {
        scene.paths.map_values(
            |p: crate::path::PathModel<crate::scalar::ScaledPixels>|
                DrawItem { order: p.order, key: BatchKey::Whole },
        )
    } else if kind == 5 {
        scene.underlines.map_values(
            |p: crate::primitives::Underline| DrawItem { order: p.order, key: BatchKey::Whole },
        )
    } else if kind == 6 {
        scene.monochrome_sprites.map_values(
            |p: crate::primitives::MonochromeSprite|
                DrawItem { order: p.order, key: BatchKey::Texture(p.tile.texture_id) },
        )
    } else if kind == 7 {
        scene.subpixel_sprites.map_values(
            |p: crate::primitives::SubpixelSprite|
                DrawItem { order: p.order, key: BatchKey::Texture(p.tile.texture_id) },
        )
    } else if kind == 8 {
        scene.polychrome_sprites.map_values(
            |p: crate::primitives::PolychromeSprite|
                DrawItem { order: p.order, key: BatchKey::Texture(p.tile.texture_id) },
        )
    } else {
        scene.surfaces.map_values(
            |p: crate::primitives::PaintSurface| DrawItem { order: p.order, key: BatchKey::Whole },
        )
    }
}

/// The primitives of a scene by kind, in the order of the kinds.
pub open spec fn lanes(scene: SceneModel) -> Seq<Seq<DrawItem>> {
    Seq::new(KIND_COUNT as nat, |kind: int| lane(scene, kind))
}

/// Whether a primitive of order `a` and the kind at place `i` is drawn before
/// one of order `b` and the kind at place `j`.
pub open spec fn drawn_before(a: u32, i: int, b: u32, j: int) -> bool {
    a < b || (a == b && i < j)
}

/// The order of the next primitive of each kind, and the highest order for a
/// kind that has none left.
pub open spec fn heads(lanes: Seq<Seq<DrawItem>>, positions: Seq<nat>) -> Seq<u32> {
    Seq::new(
        lanes.len(),
        |kind: int|
            if positions[kind] < lanes[kind].len() {
                lanes[kind][positions[kind] as int].order
            } else {
                u32::MAX
            },
    )
}

/// Among the first `count` kinds but for `skip`, the one whose next primitive
/// is drawn first; -1 where there is no kind to choose from.
pub open spec fn foremost(heads: Seq<u32>, count: nat, skip: int) -> int
    decreases count,
{
    if count == 0 {
        -1
    } else {
        let best = foremost(heads, (count - 1) as nat, skip);
        let kind = count - 1;
        if kind == skip {
            best
        } else if best < 0 || heads[kind] < heads[best] {
            kind
        } else {
            best
        }
    }
}

/// Where a run that holds the item before `from` ends: at the first item with
/// another key, or one that is not drawn before the primitive of order `limit`
/// and the kind at place `limit_kind`.
pub open spec fn run_end(
    lane: Seq<DrawItem>,
    from: int,
    kind: int,
    key: BatchKey,
    limit: u32,
    limit_kind: int,
) -> int
    decreases lane.len() - from,
{
    if from < lane.len() && drawn_before(lane[from].order, kind, limit, limit_kind)
        && lane[from].key == key {
        run_end(lane, from + 1, kind, key, limit, limit_kind)
    } else {
        from
    }
}

/// The next batch: it begins with the primitive that is drawn first, and goes
/// on until a primitive of another kind has its turn or the key changes.
pub open spec fn next_run(lanes: Seq<Seq<DrawItem>>, positions: Seq<nat>) -> Option<BatchRun> {
    let heads = heads(lanes, positions);
    let kind = foremost(heads, lanes.len(), -1);
    let second = foremost(heads, lanes.len(), kind);
    let start = positions[kind] as int;
    if start < lanes[kind].len() {
        let key = lanes[kind][start].key;
        let end = run_end(lanes[kind], start + 1, kind, key, heads[second], second);
        Some(BatchRun { kind, start, end, key })
    } else {
        None
    }
}

/// Yields the batches of a scene in the order in which they are drawn.
pub struct BatchIterator<'a> {
    scene: &'a Scene,
    starts: [usize; 10],
}

impl<'a> BatchIterator<'a> {
    /// The scene that is drawn.
    pub closed spec fn scene(&self) -> SceneModel {
        self.scene@
    }

    /// How many primitives of each kind went into batches so far.
    pub closed spec fn positions(&self) -> Seq<nat> {
        Seq::new(KIND_COUNT as nat, |kind: int| self.starts@[kind] as nat)
    }

    #[verifier::type_invariant]
    spec fn in_range(self) -> bool {
        forall|kind: int|
            0 <= kind < KIND_COUNT ==> #[trigger] self.starts@[kind] <= lane(
                self.scene@,
                kind,
            ).len()
    }

    fn count(&self, kind: usize) -> (result: usize)
        requires
            kind < KIND_COUNT,
        ensures
            result == lane(self.scene@, kind as int).len(),
    {
        match PrimitiveKind::at(kind) {
            PrimitiveKind::Shadow => self.scene.shadows.len(),
            PrimitiveKind::Quad => self.scene.quads.len(),
            PrimitiveKind::BackdropBlurRect => self.scene.backdrop_blur_rects.len(),
            PrimitiveKind::EffectQuad => self.scene.effect_quads.len(),
            PrimitiveKind::Path => self.scene.paths.len(),
            PrimitiveKind::Underline => self.scene.underlines.len(),
            PrimitiveKind::MonochromeSprite => self.scene.monochrome_sprites.len(),
            PrimitiveKind::SubpixelSprite => self.scene.subpixel_sprites.len(),
            PrimitiveKind::PolychromeSprite => self.scene.polychrome_sprites.len(),
            PrimitiveKind::Surface => self.scene.surfaces.len(),
        }
    }

    fn item(&self, kind: usize, index: usize) -> (result: DrawItem)
        requires
            kind < KIND_COUNT,
            index < lane(self.scene@, kind as int).len(),
        ensures
            result == lane(self.scene@, kind as int)[index as int],
    {
        match PrimitiveKind::at(kind) {
            PrimitiveKind::Shadow => DrawItem {
                order: self.scene.shadows[index].order,
                key: BatchKey::Whole,
            },
            PrimitiveKind::Quad => DrawItem {
                order: self.scene.quads[index].order,
                key: BatchKey::Whole,
            },
            PrimitiveKind::BackdropBlurRect => DrawItem {
                order: self.scene.backdrop_blur_rects[index].order,
                key: BatchKey::Whole,
            },
            PrimitiveKind::EffectQuad => DrawItem {
                order: self.scene.effect_quads[index].order,
                key: BatchKey::Effect(self.scene.effect_quads[index].effect_id),
            },
            PrimitiveKind::Path => DrawItem {
                order: self.scene.paths[index].order,
                key: BatchKey::Whole,
            },
            PrimitiveKind::Underline => DrawItem {
                order: self.scene.underlines[index].order,
                key: BatchKey::Whole,
            },
            PrimitiveKind::MonochromeSprite => DrawItem {
                order: self.scene.monochrome_sprites[index].order,
                key: BatchKey::Texture(self.scene.monochrome_sprites[index].tile.texture_id),
            },
            PrimitiveKind::SubpixelSprite => DrawItem {
                order: self.scene.subpixel_sprites[index].order,
                key: BatchKey::Texture(self.scene.subpixel_sprites[index].tile.texture_id),
            },
            PrimitiveKind::PolychromeSprite => DrawItem {
                order: self.scene.polychrome_sprites[index].order,
                key: BatchKey::Texture(self.scene.polychrome_sprites[index].tile.texture_id),
            },
            PrimitiveKind::Surface => DrawItem {
                order: self.scene.surfaces[index].order,
                key: BatchKey::Whole,
            },
        }
    }

    fn head(&self, kind: usize) -> (result: u32)
        requires
            kind < KIND_COUNT,
        ensures
            result == heads(lanes(self.scene@), self.positions())[kind as int],
    {
        let start: usize = self.starts[kind];
        if start < self.count(kind) {
            self.item(kind, start).order
        } else {
            u32::MAX
        }
    }

    fn foremost_kind(&self, skip: usize) -> (result: usize)
        ensures
            result < KIND_COUNT,
            result == foremost(
                heads(lanes(self.scene@), self.positions()),
                KIND_COUNT as nat,
                if skip < KIND_COUNT {
                    skip as int
                } else {
                    -1
                },
            ),
    {
        let ghost heads = heads(lanes(self.scene@), self.positions());
        let ghost skipped: int = if skip < KIND_COUNT {
            skip as int
        } else {
            -1
        };
        let mut best: usize = if skip == 0 {
            1
        } else {
            0
        };
        let mut kind: usize = best + 1;
        proof {
            reveal_with_fuel(foremost, 3);
        }
        while kind < KIND_COUNT
            invariant
                1 <= kind <= KIND_COUNT,
                best < kind,
                heads == crate::batch::heads(lanes(self.scene@), self.positions()),
                skipped == (if skip < KIND_COUNT {
                    skip as int
                } else {
                    -1
                }),
                best == foremost(heads, kind as nat, skipped),
            decreases KIND_COUNT - kind,
        {
            if kind != skip && self.head(kind) < self.head(best) {
                best = kind;
            }
            kind = kind + 1;
        }
        best
    }

    /// The next batch.
    pub fn next(&mut self) -> (result: Option<PrimitiveBatch>)
        ensures
            final(self).scene() == old(self).scene(),
            result matches Some(batch) ==> batch.run().start < batch.run().end <= lane(
                old(self).scene(),
                batch.run().kind,
            ).len(),
            match result {
                Some(batch) => next_run(lanes(old(self).scene()), old(self).positions()) == Some(
                    batch.run(),
                ) && final(self).positions() == old(self).positions().update(
                    batch.run().kind,
                    batch.run().end as nat,
                ),
                None => next_run(lanes(old(self).scene()), old(self).positions()) is None
                    && final(self).positions() == old(self).positions(),
            },
    {
        proof {
            use_type_invariant(&*self);
        }
        let kind: usize = self.foremost_kind(KIND_COUNT);
        let second: usize = self.foremost_kind(kind);
        let start: usize = self.starts[kind];
        let count: usize = self.count(kind);
        if start >= count {
            return None;
        }
        let limit: u32 = self.head(second);
        let first = self.item(kind, start);
        let ghost items = lane(self.scene@, kind as int);
        let mut end: usize = start + 1;
        let mut running: bool = true;
        while end < count && running
            invariant
                start < end <= count == items.len(),
                kind < KIND_COUNT,
                second < KIND_COUNT,
                *self == *old(self),
                items == lane(self.scene@, kind as int),
                run_end(items, start + 1, kind as int, first.key, limit, second as int) == run_end(
                    items,
                    end as int,
                    kind as int,
                    first.key,
                    limit,
                    second as int,
                ),
                !running ==> run_end(
                    items,
                    end as int,
                    kind as int,
                    first.key,
                    limit,
                    second as int,
                ) == end,
            decreases count - end, (if running { 1int } else { 0int }),
        {
            let item = self.item(kind, end);
            let before = item.order < limit || (item.order == limit && kind < second);
            if before && item.key == first.key {
                end = end + 1;
            } else {
                running = false;
            }
        }
        self.starts[kind] = end;
        proof {
            assert(self.positions() =~= old(self).positions().update(kind as int, end as nat));
        }
        let range = Range { start, end };
        Some(
            match PrimitiveKind::at(kind) {
                PrimitiveKind::Shadow => PrimitiveBatch::Shadows(range),
                PrimitiveKind::Quad => PrimitiveBatch::Quads(range),
                PrimitiveKind::BackdropBlurRect => PrimitiveBatch::BackdropBlurRects(range),
                PrimitiveKind::EffectQuad => PrimitiveBatch::EffectQuads {
                    effect_id: self.scene.effect_quads[start].effect_id,
                    range,
                },
                PrimitiveKind::Path => PrimitiveBatch::Paths(range),
                PrimitiveKind::Underline => PrimitiveBatch::Underlines(range),
                PrimitiveKind::MonochromeSprite => PrimitiveBatch::MonochromeSprites {
                    texture_id: self.scene.monochrome_sprites[start].tile.texture_id,
                    range,
                },
                PrimitiveKind::SubpixelSprite => PrimitiveBatch::SubpixelSprites {
                    texture_id: self.scene.subpixel_sprites[start].tile.texture_id,
                    range,
                },
                PrimitiveKind::PolychromeSprite => PrimitiveBatch::PolychromeSprites {
                    texture_id: self.scene.polychrome_sprites[start].tile.texture_id,
                    range,
                },
                PrimitiveKind::Surface => PrimitiveBatch::Surfaces(range),
            },
        )
    }
}

/// How far batching has come before the first batch.
pub open spec fn first_positions() -> Seq<nat> {
    Seq::new(KIND_COUNT as nat, |kind: int| 0nat)
}

impl Scene {
    /// The batches that draw the scene, one by one.
    pub fn batches(&self) -> (result: BatchIterator<'_>)
        ensures
            result.scene() == self@,
            result.positions() == first_positions(),
    {
        let result = BatchIterator { scene: self, starts: [0, 0, 0, 0, 0, 0, 0, 0, 0, 0] };
        assert(result.positions() =~= first_positions());
        result
    }
}

} // verus!
