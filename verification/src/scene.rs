//! The scene: everything that one frame paints, in the order in which it has to
//! be painted.

use crate::bounds_tree::{next_order, top_order, BoundsTree, Placed};
use crate::effect::{BackdropBlurRect, EffectQuad};
use crate::geometry::Bounds;
use crate::path::{Path, PathId, PathModel};
use crate::primitives::{
    DrawOrder, MonochromeSprite, PaintSurface, PolychromeSprite, Primitive, PrimitiveModel, Quad,
    Shadow, SubpixelSprite, Underline,
};
use crate::scalar::ScaledPixels;
use crate::sort::{sort_stably, stable_sorted, Keyed, SortKey};
use std::ops::Range;
use vstd::prelude::*;
use vstd::std_specs::convert::IntoSpec;

verus! {

/// An open layer. Its bounds are kept so that it can be placed again, higher.
#[derive(Clone, Copy, Debug)]
pub struct Layer {
    pub order: DrawOrder,
    pub bounds: Bounds<ScaledPixels>,
}

/// A step of painting, as the scene records it.
pub enum PaintOperation {
    Primitive(Primitive),
    StartLayer(Bounds<ScaledPixels>),
    EndLayer,
}

/// What a [`PaintOperation`] holds.
#[verifier::ext_equal]
pub enum OperationModel {
    Primitive(PrimitiveModel),
    StartLayer(Bounds<ScaledPixels>),
    EndLayer,
}

impl View for PaintOperation {
    type V = OperationModel;

    open spec fn view(&self) -> OperationModel {
        match *self {
            PaintOperation::Primitive(primitive) => OperationModel::Primitive(primitive@),
            PaintOperation::StartLayer(bounds) => OperationModel::StartLayer(bounds),
            PaintOperation::EndLayer => OperationModel::EndLayer,
        }
    }
}

/// What a scene remembers of how it was painted.
pub struct Recording {
    paint_operations: Vec<PaintOperation>,
    primitive_bounds: BoundsTree<ScaledPixels>,
    layer_stack: Vec<Layer>,
    /// The lowest order that a newly opened layer may take. A primitive that
    /// is composited from a snapshot raises it.
    backdrop_blur_floor: DrawOrder,
    /// The highest order that a primitive has taken.
    highest_order: DrawOrder,
    /// What is seen of the primitives that took the order of a layer.
    layered_bounds: BoundsTree<ScaledPixels>,
}

/// Everything that one frame paints.
pub struct Scene {
    pub recording: Recording,
    pub shadows: Vec<Shadow>,
    pub quads: Vec<Quad>,
    pub backdrop_blur_rects: Vec<BackdropBlurRect>,
    pub effect_quads: Vec<EffectQuad>,
    pub paths: Vec<Path<ScaledPixels>>,
    pub underlines: Vec<Underline>,
    pub monochrome_sprites: Vec<MonochromeSprite>,
    pub subpixel_sprites: Vec<SubpixelSprite>,
    pub polychrome_sprites: Vec<PolychromeSprite>,
    pub surfaces: Vec<PaintSurface>,
}

/// What a [`Scene`] holds.
#[verifier::ext_equal]
pub struct SceneModel {
    /// The steps recorded so far.
    pub operations: Seq<OperationModel>,
    /// The rectangles placed so far.
    pub tree: Seq<Placed<ScaledPixels>>,
    /// The open layers, the innermost last.
    pub layers: Seq<Layer>,
    /// The lowest order that a newly opened layer may take.
    pub floor: u32,
    /// The highest order that a primitive has taken.
    pub highest: u32,
    /// What is seen of the primitives that took the order of a layer.
    pub layered: Seq<Placed<ScaledPixels>>,
    pub shadows: Seq<Shadow>,
    pub quads: Seq<Quad>,
    pub backdrop_blur_rects: Seq<BackdropBlurRect>,
    pub effect_quads: Seq<EffectQuad>,
    pub paths: Seq<PathModel<ScaledPixels>>,
    pub underlines: Seq<Underline>,
    pub monochrome_sprites: Seq<MonochromeSprite>,
    pub subpixel_sprites: Seq<SubpixelSprite>,
    pub polychrome_sprites: Seq<PolychromeSprite>,
    pub surfaces: Seq<PaintSurface>,
}

/// What the paths of a list hold.
pub open spec fn path_models(paths: Seq<Path<ScaledPixels>>) -> Seq<PathModel<ScaledPixels>> {
    Seq::new(paths.len(), |i: int| paths[i]@)
}

/// What the operations of a list hold.
pub open spec fn operation_models(operations: Seq<PaintOperation>) -> Seq<OperationModel> {
    Seq::new(operations.len(), |i: int| operations[i]@)
}

impl View for Scene {
    type V = SceneModel;

    open spec fn view(&self) -> SceneModel {
        SceneModel {
            operations: self.recording.operations(),
            tree: self.recording.tree(),
            layers: self.recording.layers(),
            floor: self.recording.floor(),
            highest: self.recording.highest(),
            layered: self.recording.layered(),
            shadows: self.shadows@,
            quads: self.quads@,
            backdrop_blur_rects: self.backdrop_blur_rects@,
            effect_quads: self.effect_quads@,
            paths: path_models(self.paths@),
            underlines: self.underlines@,
            monochrome_sprites: self.monochrome_sprites@,
            subpixel_sprites: self.subpixel_sprites@,
            polychrome_sprites: self.polychrome_sprites@,
            surfaces: self.surfaces@,
        }
    }
}

/// The layers once each of them has reached at least `order`.
pub open spec fn raised(layers: Seq<Layer>, order: u32) -> Seq<Layer> {
    layers.map_values(
        |layer: Layer|
            if layer.order < order {
                Layer { order, ..layer }
            } else {
                layer
            },
    )
}

/// The rectangles of those layers that have to rise to reach `order`, placed
/// there.
pub open spec fn risen(layers: Seq<Layer>, order: u32) -> Seq<Placed<ScaledPixels>>
    decreases layers.len(),
{
    if layers.len() == 0 {
        Seq::empty()
    } else {
        let below = risen(layers.drop_last(), order);
        if layers.last().order < order {
            below.push(Placed { bounds: layers.last().bounds, order })
        } else {
            below
        }
    }
}

impl SceneModel {
    /// A scene that paints nothing.
    pub open spec fn empty() -> Self {
        SceneModel {
            operations: Seq::empty(),
            tree: Seq::empty(),
            layers: Seq::empty(),
            floor: 0,
            highest: 0,
            layered: Seq::empty(),
            shadows: Seq::empty(),
            quads: Seq::empty(),
            backdrop_blur_rects: Seq::empty(),
            effect_quads: Seq::empty(),
            paths: Seq::empty(),
            underlines: Seq::empty(),
            monochrome_sprites: Seq::empty(),
            subpixel_sprites: Seq::empty(),
            polychrome_sprites: Seq::empty(),
            surfaces: Seq::empty(),
        }
    }

    /// The order at which a layer opened now is placed: above whatever its
    /// bounds overlap, and never below the floor.
    pub open spec fn layer_order(self, bounds: Bounds<ScaledPixels>) -> u32 {
        let order = next_order(top_order(self.tree, bounds));
        if order < self.floor {
            self.floor
        } else {
            order
        }
    }

    /// The scene with one layer more.
    pub open spec fn opened(self, bounds: Bounds<ScaledPixels>) -> Self {
        let found = next_order(top_order(self.tree, bounds));
        let order = self.layer_order(bounds);
        let tree = self.tree.push(Placed { bounds, order: found });
        SceneModel {
            operations: self.operations.push(OperationModel::StartLayer(bounds)),
            tree: if found < self.floor {
                tree.push(Placed { bounds, order })
            } else {
                tree
            },
            layers: self.layers.push(Layer { order, bounds }),
            ..self
        }
    }

    /// The scene without its innermost layer.
    pub open spec fn shut(self) -> Self {
        SceneModel {
            operations: self.operations.push(OperationModel::EndLayer),
            layers: if self.layers.len() == 0 {
                self.layers
            } else {
                self.layers.drop_last()
            },
            ..self
        }
    }

    /// The order that a primitive painted now takes.
    ///
    /// In a layer, it is the layer's order; outside, it is above whatever the
    /// primitive overlaps. A primitive that is composited from a snapshot goes,
    /// in a layer, above the layer and every order that a primitive has taken so
    /// far; outside, it goes above whatever it overlaps, what was painted in
    /// layers included.
    pub open spec fn primitive_order(
        self,
        snapshots: bool,
        clipped: Bounds<ScaledPixels>,
    ) -> u32 {
        let under = if self.layers.len() == 0 {
            top_order(self.tree, clipped)
        } else {
            self.layers.last().order
        };
        let painted = if self.layers.len() == 0 {
            top_order(self.layered, clipped)
        } else {
            self.highest
        };
        if snapshots {
            next_order(
                if under < painted {
                    painted
                } else {
                    under
                },
            )
        } else if self.layers.len() == 0 {
            next_order(under)
        } else {
            under
        }
    }

    /// The scene once such a primitive has taken its order. A snapshot pushes
    /// every open layer, and the floor, above itself.
    pub open spec fn ordered(self, snapshots: bool, clipped: Bounds<ScaledPixels>) -> Self {
        let order = self.primitive_order(snapshots, clipped);
        let entry = Placed { bounds: clipped, order };
        let next = next_order(order);
        let highest = if self.highest < order {
            order
        } else {
            self.highest
        };
        if snapshots {
            SceneModel {
                highest,
                tree: self.tree.push(entry) + risen(self.layers, next),
                layers: raised(self.layers, next),
                floor: if self.floor < next {
                    next
                } else {
                    self.floor
                },
                ..self
            }
        } else if self.layers.len() == 0 {
            SceneModel { tree: self.tree.push(entry), highest, ..self }
        } else {
            SceneModel { layered: self.layered.push(entry), highest, ..self }
        }
    }

    /// The scene with a primitive at the end of the list of its kind.
    pub open spec fn appended(self, primitive: PrimitiveModel) -> Self {
        match primitive {
            PrimitiveModel::Shadow(p) => SceneModel { shadows: self.shadows.push(p), ..self },
            PrimitiveModel::Quad(p) => SceneModel { quads: self.quads.push(p), ..self },
            PrimitiveModel::BackdropBlurRect(p) => SceneModel {
                backdrop_blur_rects: self.backdrop_blur_rects.push(p),
                ..self
            },
            PrimitiveModel::EffectQuad(p) => SceneModel {
                effect_quads: self.effect_quads.push(p),
                ..self
            },
            PrimitiveModel::Path(p) => SceneModel { paths: self.paths.push(p), ..self },
            PrimitiveModel::Underline(p) => SceneModel {
                underlines: self.underlines.push(p),
                ..self
            },
            PrimitiveModel::MonochromeSprite(p) => SceneModel {
                monochrome_sprites: self.monochrome_sprites.push(p),
                ..self
            },
            PrimitiveModel::SubpixelSprite(p) => SceneModel {
                subpixel_sprites: self.subpixel_sprites.push(p),
                ..self
            },
            PrimitiveModel::PolychromeSprite(p) => SceneModel {
                polychrome_sprites: self.polychrome_sprites.push(p),
                ..self
            },
            PrimitiveModel::Surface(p) => SceneModel { surfaces: self.surfaces.push(p), ..self },
        }
    }

    /// The primitive as the scene would keep it if it were painted now.
    pub open spec fn kept(self, primitive: PrimitiveModel) -> PrimitiveModel {
        primitive.placed(
            self.primitive_order(primitive.snapshots(), primitive.clipped()),
            self.paths.len(),
        )
    }

    /// The scene with a primitive painted, unless nothing of it is seen.
    pub open spec fn painted(self, primitive: PrimitiveModel) -> Self {
        if primitive.clipped().flat() {
            self
        } else {
            let kept = self.kept(primitive);
            let after = self.ordered(primitive.snapshots(), primitive.clipped()).appended(kept);
            SceneModel {
                operations: self.operations.push(OperationModel::Primitive(kept)),
                ..after
            }
        }
    }

    /// The scene after one operation.
    pub open spec fn performed(self, operation: OperationModel) -> Self {
        match operation {
            OperationModel::Primitive(primitive) => self.painted(primitive),
            OperationModel::StartLayer(bounds) => self.opened(bounds),
            OperationModel::EndLayer => self.shut(),
        }
    }

    /// The scene after a series of operations.
    pub open spec fn run(self, operations: Seq<OperationModel>) -> Self
        decreases operations.len(),
    {
        if operations.len() == 0 {
            self
        } else {
            self.run(operations.drop_last()).performed(operations.last())
        }
    }

    /// Whether `after` is this scene with every list sorted for drawing.
    pub open spec fn finished_as(self, after: Self) -> bool {
        &&& after.operations == self.operations
        &&& after.tree == self.tree
        &&& after.layers == self.layers
        &&& after.floor == self.floor
        &&& after.highest == self.highest
        &&& after.layered == self.layered
        &&& stable_sorted(self.shadows, after.shadows)
        &&& stable_sorted(self.quads, after.quads)
        &&& stable_sorted(self.backdrop_blur_rects, after.backdrop_blur_rects)
        &&& stable_sorted(self.effect_quads, after.effect_quads)
        &&& stable_sorted(self.paths, after.paths)
        &&& stable_sorted(self.underlines, after.underlines)
        &&& stable_sorted(self.monochrome_sprites, after.monochrome_sprites)
        &&& stable_sorted(self.subpixel_sprites, after.subpixel_sprites)
        &&& stable_sorted(self.polychrome_sprites, after.polychrome_sprites)
        &&& stable_sorted(self.surfaces, after.surfaces)
    }
}

impl Recording {
    /// The operations recorded so far.
    pub closed spec fn operations(&self) -> Seq<OperationModel> {
        operation_models(self.paint_operations@)
    }

    /// The rectangles placed so far.
    pub closed spec fn tree(&self) -> Seq<Placed<ScaledPixels>> {
        self.primitive_bounds@
    }

    /// The open layers, the innermost last.
    pub closed spec fn layers(&self) -> Seq<Layer> {
        self.layer_stack@
    }

    /// The lowest order that a newly opened layer may take.
    pub closed spec fn floor(&self) -> u32 {
        self.backdrop_blur_floor
    }

    /// The highest order that a primitive has taken.
    pub closed spec fn highest(&self) -> u32 {
        self.highest_order
    }

    /// What is seen of the primitives that took the order of a layer.
    pub closed spec fn layered(&self) -> Seq<Placed<ScaledPixels>> {
        self.layered_bounds@
    }
}

impl Scene {
    /// Empties the scene.
    pub fn clear(&mut self)
        ensures
            final(self)@ == SceneModel::empty(),
    {
        self.recording.paint_operations.clear();
        self.recording.primitive_bounds.clear();
        self.recording.layer_stack.clear();
        self.recording.backdrop_blur_floor = 0;
        self.recording.highest_order = 0;
        self.recording.layered_bounds.clear();
        self.paths.clear();
        self.shadows.clear();
        self.quads.clear();
        self.backdrop_blur_rects.clear();
        self.effect_quads.clear();
        self.underlines.clear();
        self.monochrome_sprites.clear();
        self.subpixel_sprites.clear();
        self.polychrome_sprites.clear();
        self.surfaces.clear();
    }

    /// How many operations were recorded.
    pub fn len(&self) -> (result: usize)
        ensures
            result == self@.operations.len(),
    {
        self.recording.paint_operations.len()
    }

    /// Opens a layer. A layer opened after a backdrop blur never sinks below
    /// it, even where the bounds do not overlap: those of its children may.
    pub fn push_layer(&mut self, bounds: Bounds<ScaledPixels>)
        ensures
            final(self)@ == old(self)@.opened(bounds),
    {
        let mut order: u32 = self.recording.primitive_bounds.insert(bounds);
        if order < self.recording.backdrop_blur_floor {
            order = self.recording.backdrop_blur_floor;
            self.recording.primitive_bounds.insert_with_order(bounds, order);
        }
        self.recording.layer_stack.push(Layer { order, bounds });
        self.recording.paint_operations.push(PaintOperation::StartLayer(bounds));
        assert(self@ =~= old(self)@.opened(bounds));
    }

    /// Closes the innermost layer.
    pub fn pop_layer(&mut self)
        ensures
            final(self)@ == old(self)@.shut(),
    {
        let _ = self.recording.layer_stack.pop();
        self.recording.paint_operations.push(PaintOperation::EndLayer);
        assert(self@ =~= old(self)@.shut());
    }

    /// Paints a primitive, unless nothing of it is seen.
    pub fn insert_primitive<T: Into<Primitive>>(&mut self, primitive: T)
        ensures
            exists|p: Primitive| #[trigger]
                call_ensures(T::into, (primitive,), p) && final(self)@ == old(self)@.painted(p@),
            T::obeys_into_spec() ==> final(self)@ == old(self)@.painted(primitive.into_spec()@),
    {
        let primitive: Primitive = primitive.into();
        self.insert(primitive);
    }

    /// Paints a primitive, unless nothing of it is seen.
    pub fn insert(&mut self, primitive: Primitive)
        ensures
            final(self)@ == old(self)@.painted(primitive@),
    {
        let clipped_bounds = primitive.bounds().intersect(&primitive.content_mask().bounds);
        if clipped_bounds.is_empty() {
            return;
        }
        let ghost given = primitive@;
        let order: u32 = self.draw_order_for_primitive(&primitive, clipped_bounds);
        let ghost ordered = self@;
        let ghost kept = old(self)@.kept(given);
        let kept_primitive = match primitive {
            Primitive::Shadow(p) => {
                let p = Shadow { order, ..p };
                self.shadows.push(p);
                Primitive::Shadow(p)
            },
            Primitive::Quad(p) => {
                let p = Quad { order, ..p };
                self.quads.push(p);
                Primitive::Quad(p)
            },
            Primitive::BackdropBlurRect(p) => {
                let p = BackdropBlurRect { order, ..p };
                self.backdrop_blur_rects.push(p);
                Primitive::BackdropBlurRect(p)
            },
            Primitive::EffectQuad(p) => {
                let p = EffectQuad { order, ..p };
                self.effect_quads.push(p);
                Primitive::EffectQuad(p)
            },
            Primitive::Path(path) => {
                let mut path = path;
                path.order = order;
                path.id = PathId(self.paths.len());
                let copy = path.clone();
                self.paths.push(copy);
                Primitive::Path(path)
            },
            Primitive::Underline(p) => {
                let p = Underline { order, ..p };
                self.underlines.push(p);
                Primitive::Underline(p)
            },
            Primitive::MonochromeSprite(p) => {
                let p = MonochromeSprite { order, ..p };
                self.monochrome_sprites.push(p);
                Primitive::MonochromeSprite(p)
            },
            Primitive::SubpixelSprite(p) => {
                let p = SubpixelSprite { order, ..p };
                self.subpixel_sprites.push(p);
                Primitive::SubpixelSprite(p)
            },
            Primitive::PolychromeSprite(p) => {
                let p = PolychromeSprite { order, ..p };
                self.polychrome_sprites.push(p);
                Primitive::PolychromeSprite(p)
            },
            Primitive::Surface(p) => {
                let p = PaintSurface { order, ..p };
                self.surfaces.push(p);
                Primitive::Surface(p)
            },
        };
        proof {
            assert(kept_primitive@ =~= kept);
            assert(self@ =~= ordered.appended(kept));
        }
        self.recording.paint_operations.push(PaintOperation::Primitive(kept_primitive));
        assert(self@ =~= old(self)@.painted(given));
    }

    /// Paints again what another scene recorded.
    pub fn replay(&mut self, range: Range<usize>, prev_scene: &Scene)
        requires
            range.start <= range.end <= prev_scene@.operations.len(),
        ensures
            final(self)@ == old(self)@.run(
                prev_scene@.operations.subrange(range.start as int, range.end as int),
            ),
    {
        let ghost operations = prev_scene@.operations.subrange(
            range.start as int,
            range.end as int,
        );
        let mut index: usize = range.start;
        assert(operations.take(0) =~= Seq::<OperationModel>::empty());
        while index < range.end
            invariant
                range.start <= index <= range.end <= prev_scene@.operations.len(),
                operations == prev_scene@.operations.subrange(
                    range.start as int,
                    range.end as int,
                ),
                self@ == old(self)@.run(operations.take(index - range.start)),
            decreases range.end - index,
        {
            let ghost done = operations.take(index - range.start);
            proof {
                let more = operations.take(index + 1 - range.start);
                assert(more.drop_last() =~= done);
                assert(more.last() == prev_scene@.operations[index as int]);
            }
            match &prev_scene.recording.paint_operations[index] {
                PaintOperation::Primitive(primitive) => {
                    let copy = primitive.clone();
                    self.insert(copy);
                },
                PaintOperation::StartLayer(bounds) => self.push_layer(*bounds),
                PaintOperation::EndLayer => self.pop_layer(),
            }
            index = index + 1;
        }
        assert(operations.take(index - range.start) =~= operations);
    }

    /// Sorts what was painted into the order in which it is drawn. Within one
    /// draw order, effect quads of one effect come together, and so do sprites
    /// of one tile.
    pub fn finish(&mut self)
        ensures
            old(self)@.finished_as(final(self)@),
    {
        sort_stably(&mut self.shadows);
        sort_stably(&mut self.quads);
        sort_stably(&mut self.backdrop_blur_rects);
        sort_stably(&mut self.effect_quads);
        let ghost paths = self.paths@;
        sort_stably(&mut self.paths);
        sort_stably(&mut self.underlines);
        sort_stably(&mut self.monochrome_sprites);
        sort_stably(&mut self.subpixel_sprites);
        sort_stably(&mut self.polychrome_sprites);
        sort_stably(&mut self.surfaces);
        proof {
            lemma_sorted_path_models(paths, self.paths@);
        }
    }

    /// Picks the draw order for a primitive that is about to be painted.
    ///
    /// A primitive that is composited from a snapshot of the render target
    /// reads it when it is drawn. So whatever was painted before it must be
    /// drawn before it, and whatever is painted after it must be drawn after
    /// it. In a layer it goes above every order taken so far, and outside above
    /// whatever it overlaps, which is all that can be seen there. All open
    /// layers rise above it, and later ones may not sink below it; outside any
    /// layer the tree sees to that for what overlaps.
    fn draw_order_for_primitive(
        &mut self,
        primitive: &Primitive,
        clipped_bounds: Bounds<ScaledPixels>,
    ) -> (order: DrawOrder)
        ensures
            order == old(self)@.primitive_order(primitive@.snapshots(), clipped_bounds),
            final(self)@ == old(self)@.ordered(primitive@.snapshots(), clipped_bounds),
    {
        let depth: usize = self.recording.layer_stack.len();
        if !primitive.snapshots_backdrop() {
            let order: u32 = if depth > 0 {
                let order: u32 = self.recording.layer_stack[depth - 1].order;
                self.recording.layered_bounds.insert_with_order(clipped_bounds, order);
                order
            } else {
                self.recording.primitive_bounds.insert(clipped_bounds)
            };
            if self.recording.highest_order < order {
                self.recording.highest_order = order;
            }
            assert(self@ =~= old(self)@.ordered(false, clipped_bounds));
            return order;
        }
        let under: u32 = if depth > 0 {
            self.recording.layer_stack[depth - 1].order
        } else {
            self.recording.primitive_bounds.highest_under(&clipped_bounds)
        };
        let painted: u32 = if depth > 0 {
            self.recording.highest_order
        } else {
            self.recording.layered_bounds.highest_under(&clipped_bounds)
        };
        let blur_order: u32 = if under < painted {
            painted.saturating_add(1)
        } else {
            under.saturating_add(1)
        };
        self.recording.primitive_bounds.insert_with_order(clipped_bounds, blur_order);
        if self.recording.highest_order < blur_order {
            self.recording.highest_order = blur_order;
        }
        let next: u32 = blur_order.saturating_add(1);
        let ghost layers = self.recording.layer_stack@;
        let ghost tree = self.recording.primitive_bounds@;
        let ghost before = self@;
        let mut index: usize = 0;
        assert(tree =~= tree + risen(layers.take(0), next));
        while index < depth
            invariant
                index <= depth == layers.len() == self.recording.layer_stack.len(),
                forall|i: int| index <= i < depth ==> self.recording.layer_stack@[i] == layers[i],
                forall|i: int|
                    0 <= i < index ==> (#[trigger] self.recording.layer_stack@[i]) == raised(
                        layers,
                        next,
                    )[i],
                self.recording.primitive_bounds@ == tree + risen(layers.take(index as int), next),
                self@ == (SceneModel {
                    tree: self.recording.primitive_bounds@,
                    layers: self.recording.layer_stack@,
                    ..before
                }),
            decreases depth - index,
        {
            proof {
                assert(layers.take(index + 1).drop_last() =~= layers.take(index as int));
            }
            let layer = self.recording.layer_stack[index];
            if layer.order < next {
                self.recording.primitive_bounds.insert_with_order(layer.bounds, next);
                self.recording.layer_stack.set(index, Layer { order: next, bounds: layer.bounds });
            }
            proof {
                assert(self.recording.primitive_bounds@ =~= tree + risen(
                    layers.take(index + 1),
                    next,
                ));
            }
            index = index + 1;
        }
        if self.recording.backdrop_blur_floor < next {
            self.recording.backdrop_blur_floor = next;
        }
        proof {
            assert(layers.take(index as int) =~= layers);
            assert(self.recording.layer_stack@ =~= raised(layers, next));
            assert(self@ =~= old(self)@.ordered(true, clipped_bounds));
        }
        blur_order
    }
}

impl Default for Scene {
    /// A scene that paints nothing.
    fn default() -> (result: Self)
        ensures
            result@ == SceneModel::empty(),
    {
        let scene = Scene {
            recording: Recording {
                paint_operations: Vec::new(),
                primitive_bounds: BoundsTree::new(),
                layer_stack: Vec::new(),
                backdrop_blur_floor: 0,
                highest_order: 0,
                layered_bounds: BoundsTree::new(),
            },
            shadows: Vec::new(),
            quads: Vec::new(),
            backdrop_blur_rects: Vec::new(),
            effect_quads: Vec::new(),
            paths: Vec::new(),
            underlines: Vec::new(),
            monochrome_sprites: Vec::new(),
            subpixel_sprites: Vec::new(),
            polychrome_sprites: Vec::new(),
            surfaces: Vec::new(),
        };
        assert(scene@ =~= SceneModel::empty());
        scene
    }
}

impl Keyed for PathModel<ScaledPixels> {
    open spec fn key(&self) -> (int, int) {
        (self.order as int, 0)
    }
}

/// Sorting paths sorts what they hold.
proof fn lemma_sorted_path_models(before: Seq<Path<ScaledPixels>>, after: Seq<Path<ScaledPixels>>)
    requires
        stable_sorted(before, after),
    ensures
        stable_sorted(path_models(before), path_models(after)),
{
    let from = choose|from: Seq<int>| crate::sort::sorts_as(before, after, from);
    let b = path_models(before);
    let a = path_models(after);
    assert forall|i: int, j: int| 0 <= i < j < a.len() implies crate::sort::key_before(
        (#[trigger] a[i]).key(),
        (#[trigger] a[j]).key(),
    ) || (a[i].key() == a[j].key() && from[i] < from[j]) by {
        assert(a[i].key() == after[i].key());
        assert(a[j].key() == after[j].key());
    }
    assert(crate::sort::sorts_as(b, a, from));
}

impl Keyed for Shadow {
    open spec fn key(&self) -> (int, int) {
        (self.order as int, 0)
    }
}

impl SortKey for Shadow {
    fn sort_key(&self) -> (result: (u64, u64)) {
        (self.order as u64, 0)
    }
}

impl Keyed for Quad {
    open spec fn key(&self) -> (int, int) {
        (self.order as int, 0)
    }
}

impl SortKey for Quad {
    fn sort_key(&self) -> (result: (u64, u64)) {
        (self.order as u64, 0)
    }
}

impl Keyed for BackdropBlurRect {
    open spec fn key(&self) -> (int, int) {
        (self.order as int, 0)
    }
}

impl SortKey for BackdropBlurRect {
    fn sort_key(&self) -> (result: (u64, u64)) {
        (self.order as u64, 0)
    }
}

impl Keyed for EffectQuad {
    open spec fn key(&self) -> (int, int) {
        (self.order as int, self.effect_id as int)
    }
}

impl SortKey for EffectQuad {
    fn sort_key(&self) -> (result: (u64, u64)) {
        (self.order as u64, self.effect_id as u64)
    }
}

impl Keyed for Path<ScaledPixels> {
    open spec fn key(&self) -> (int, int) {
        (self.order as int, 0)
    }
}

impl SortKey for Path<ScaledPixels> {
    fn sort_key(&self) -> (result: (u64, u64)) {
        (self.order as u64, 0)
    }
}

impl Keyed for Underline {
    open spec fn key(&self) -> (int, int) {
        (self.order as int, 0)
    }
}

impl SortKey for Underline {
    fn sort_key(&self) -> (result: (u64, u64)) {
        (self.order as u64, 0)
    }
}

impl Keyed for MonochromeSprite {
    open spec fn key(&self) -> (int, int) {
        (self.order as int, self.tile.tile_id.0 as int)
    }
}

impl SortKey for MonochromeSprite {
    fn sort_key(&self) -> (result: (u64, u64)) {
        (self.order as u64, self.tile.tile_id.0 as u64)
    }
}

impl Keyed for SubpixelSprite {
    open spec fn key(&self) -> (int, int) {
        (self.order as int, self.tile.tile_id.0 as int)
    }
}

impl SortKey for SubpixelSprite {
    fn sort_key(&self) -> (result: (u64, u64)) {
        (self.order as u64, self.tile.tile_id.0 as u64)
    }
}

impl Keyed for PolychromeSprite {
    open spec fn key(&self) -> (int, int) {
        (self.order as int, self.tile.tile_id.0 as int)
    }
}

impl SortKey for PolychromeSprite {
    fn sort_key(&self) -> (result: (u64, u64)) {
        (self.order as u64, self.tile.tile_id.0 as u64)
    }
}

impl Keyed for PaintSurface {
    open spec fn key(&self) -> (int, int) {
        (self.order as int, 0)
    }
}

impl SortKey for PaintSurface {
    fn sort_key(&self) -> (result: (u64, u64)) {
        (self.order as u64, 0)
    }
}

} // verus!
