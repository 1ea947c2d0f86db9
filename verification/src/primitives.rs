//! The records that a scene is painted from.

use crate::effect::{reads_backdrop, BackdropBlurRect, EffectQuad};
use crate::geometry::{Bounds, ContentMask, Corners, Edges};
use crate::paint::{
    zero_background, zero_bounds, zero_corners, zero_edges, zero_hsla, zero_mask, Background, Hsla,
};
use crate::path::{Path, PathModel};
use crate::scalar::{Scalar, ScaledPixels};
use crate::tile::AtlasTile;
use crate::transform::{unit_matrix, TransformationMatrix};
use vstd::prelude::*;

verus! {

/// Where a primitive stands in the order of painting: lower goes first.
pub type DrawOrder = u32;

/// A boolean kept as a word, so that the records the GPU reads have no padding
/// bytes. The word is 0 or 1 by construction.
#[derive(Clone, Copy, Debug, PartialEq, Eq)]
pub struct PaddedBool32 {
    word: u32,
}

impl PaddedBool32 {
    #[verifier::type_invariant]
    spec fn zero_or_one(self) -> bool {
        self.word <= 1
    }

    /// The boolean.
    pub closed spec fn truth(self) -> bool {
        self.word == 1
    }

    /// The word that shaders read.
    pub fn to_word(self) -> (result: u32)
        ensures
            result == (if self.truth() {
                1u32
            } else {
                0u32
            }),
    {
        proof {
            use_type_invariant(&self);
        }
        self.word
    }
}

impl Default for PaddedBool32 {
    fn default() -> (result: Self)
        ensures
            !result.truth(),
    {
        PaddedBool32 { word: 0 }
    }
}

impl From<bool> for PaddedBool32 {
    fn from(value: bool) -> (result: Self)
        ensures
            result.truth() == value,
    {
        PaddedBool32 { word: if value { 1 } else { 0 } }
    }
}

impl vstd::std_specs::convert::FromSpecImpl<bool> for PaddedBool32 {
    open spec fn obeys_from_spec() -> bool {
        true
    }

    closed spec fn from_spec(value: bool) -> Self {
        PaddedBool32 { word: if value { 1 } else { 0 } }
    }
}

/// The style of a border.
#[derive(Clone, Copy, Debug, PartialEq, Eq, Hash, Structural)]
pub enum BorderStyle {
    /// A solid border.
    Solid,
    /// A dashed border.
    Dashed,
}

impl Default for BorderStyle {
    fn default() -> (result: Self)
        ensures
            result == BorderStyle::Solid,
    {
        BorderStyle::Solid
    }
}

impl BorderStyle {
    /// The word that shaders read.
    pub fn to_word(self) -> (result: u32)
        ensures
            result == (match self {
                BorderStyle::Solid => 0u32,
                BorderStyle::Dashed => 1u32,
            }),
    {
        match self {
            BorderStyle::Solid => 0,
            BorderStyle::Dashed => 1,
        }
    }
}

/// A filled rectangle with a border and rounded corners.
#[derive(Clone, Copy, Debug)]
pub struct Quad {
    pub order: DrawOrder,
    pub border_style: BorderStyle,
    /// The rectangle before its transformation, by which the scene sorts and
    /// culls.
    pub bounds: Bounds<ScaledPixels>,
    pub content_mask: ContentMask<ScaledPixels>,
    pub background: Background,
    pub border_color: Hsla,
    pub corner_radii: Corners<ScaledPixels>,
    pub border_widths: Edges<ScaledPixels>,
    /// A transformation of the quad about its own centre.
    pub transformation: TransformationMatrix,
}

impl Default for Quad {
    fn default() -> (result: Self)
        ensures
            result == (Quad {
                order: 0,
                border_style: BorderStyle::Solid,
                bounds: zero_bounds(),
                content_mask: zero_mask(),
                background: zero_background(),
                border_color: zero_hsla(),
                corner_radii: zero_corners(),
                border_widths: zero_edges(),
                transformation: unit_matrix(),
            }),
    {
        Quad {
            order: 0,
            border_style: BorderStyle::Solid,
            bounds: crate::paint::no_bounds(),
            content_mask: crate::paint::no_mask(),
            background: Background::default(),
            border_color: Hsla::default(),
            corner_radii: crate::paint::no_corners(),
            border_widths: crate::paint::no_edges(),
            transformation: TransformationMatrix::unit(),
        }
    }
}

/// The shadow of a rounded rectangle.
#[derive(Clone, Copy, Debug)]
pub struct Shadow {
    pub order: DrawOrder,
    pub blur_radius: ScaledPixels,
    pub bounds: Bounds<ScaledPixels>,
    pub corner_radii: Corners<ScaledPixels>,
    pub content_mask: ContentMask<ScaledPixels>,
    pub color: Hsla,
    pub element_bounds: Bounds<ScaledPixels>,
    pub element_corner_radii: Corners<ScaledPixels>,
    /// 0 for a drop shadow, outside the element; 1 for an inset shadow.
    pub inset: u32,
    pub pad: u32,
    pub transformation: TransformationMatrix,
}

/// A line under text.
#[derive(Clone, Copy, Debug)]
pub struct Underline {
    pub order: DrawOrder,
    pub pad: u32,
    pub bounds: Bounds<ScaledPixels>,
    pub content_mask: ContentMask<ScaledPixels>,
    pub color: Hsla,
    pub thickness: ScaledPixels,
    pub wavy: PaddedBool32,
    pub transformation: TransformationMatrix,
}

/// A glyph or icon of one colour.
#[derive(Clone, Copy, Debug)]
pub struct MonochromeSprite {
    pub order: DrawOrder,
    pub pad: u32,
    pub bounds: Bounds<ScaledPixels>,
    pub content_mask: ContentMask<ScaledPixels>,
    pub color: Hsla,
    pub tile: AtlasTile,
    pub transformation: TransformationMatrix,
}

/// A glyph of one colour with coverage per colour channel.
#[derive(Clone, Copy, Debug)]
pub struct SubpixelSprite {
    pub order: DrawOrder,
    pub pad: u32,
    pub bounds: Bounds<ScaledPixels>,
    pub content_mask: ContentMask<ScaledPixels>,
    pub color: Hsla,
    pub tile: AtlasTile,
    pub transformation: TransformationMatrix,
}

/// An image or a coloured glyph.
#[derive(Clone, Copy, Debug)]
pub struct PolychromeSprite {
    pub order: DrawOrder,
    pub pad: u32,
    pub grayscale: PaddedBool32,
    pub opacity: Scalar,
    pub bounds: Bounds<ScaledPixels>,
    pub content_mask: ContentMask<ScaledPixels>,
    pub corner_radii: Corners<ScaledPixels>,
    pub tile: AtlasTile,
    pub transformation: TransformationMatrix,
}

/// A surface that something else paints.
#[derive(Clone, Copy, Debug)]
pub struct PaintSurface {
    pub order: DrawOrder,
    pub bounds: Bounds<ScaledPixels>,
    pub content_mask: ContentMask<ScaledPixels>,
}

/// The kinds of primitives, in the order in which primitives of equal draw
/// order are painted.
#[derive(Clone, Copy, Debug, PartialEq, Eq, Structural)]
pub enum PrimitiveKind {
    Shadow,
    Quad,
    BackdropBlurRect,
    EffectQuad,
    Path,
    Underline,
    MonochromeSprite,
    SubpixelSprite,
    PolychromeSprite,
    Surface,
}

/// Anything a scene paints.
pub enum Primitive {
    Shadow(Shadow),
    Quad(Quad),
    BackdropBlurRect(BackdropBlurRect),
    EffectQuad(EffectQuad),
    Path(Path<ScaledPixels>),
    Underline(Underline),
    MonochromeSprite(MonochromeSprite),
    SubpixelSprite(SubpixelSprite),
    PolychromeSprite(PolychromeSprite),
    Surface(PaintSurface),
}

/// What a [`Primitive`] holds.
#[verifier::ext_equal]
pub enum PrimitiveModel {
    Shadow(Shadow),
    Quad(Quad),
    BackdropBlurRect(BackdropBlurRect),
    EffectQuad(EffectQuad),
    Path(PathModel<ScaledPixels>),
    Underline(Underline),
    MonochromeSprite(MonochromeSprite),
    SubpixelSprite(SubpixelSprite),
    PolychromeSprite(PolychromeSprite),
    Surface(PaintSurface),
}

impl View for Primitive {
    type V = PrimitiveModel;

    open spec fn view(&self) -> PrimitiveModel {
        match *self {
            Primitive::Shadow(p) => PrimitiveModel::Shadow(p),
            Primitive::Quad(p) => PrimitiveModel::Quad(p),
            Primitive::BackdropBlurRect(p) => PrimitiveModel::BackdropBlurRect(p),
            Primitive::EffectQuad(p) => PrimitiveModel::EffectQuad(p),
            Primitive::Path(p) => PrimitiveModel::Path(p@),
            Primitive::Underline(p) => PrimitiveModel::Underline(p),
            Primitive::MonochromeSprite(p) => PrimitiveModel::MonochromeSprite(p),
            Primitive::SubpixelSprite(p) => PrimitiveModel::SubpixelSprite(p),
            Primitive::PolychromeSprite(p) => PrimitiveModel::PolychromeSprite(p),
            Primitive::Surface(p) => PrimitiveModel::Surface(p),
        }
    }
}

impl PrimitiveModel {
    /// The primitive's bounds.
    pub open spec fn bounds(self) -> Bounds<ScaledPixels> {
        match self {
            PrimitiveModel::Shadow(p) => p.bounds,
            PrimitiveModel::Quad(p) => p.bounds,
            PrimitiveModel::BackdropBlurRect(p) => p.bounds,
            PrimitiveModel::EffectQuad(p) => p.bounds,
            PrimitiveModel::Path(p) => p.bounds,
            PrimitiveModel::Underline(p) => p.bounds,
            PrimitiveModel::MonochromeSprite(p) => p.bounds,
            PrimitiveModel::SubpixelSprite(p) => p.bounds,
            PrimitiveModel::PolychromeSprite(p) => p.bounds,
            PrimitiveModel::Surface(p) => p.bounds,
        }
    }

    /// The rectangle outside of which the primitive is not painted.
    pub open spec fn content_mask(self) -> ContentMask<ScaledPixels> {
        match self {
            PrimitiveModel::Shadow(p) => p.content_mask,
            PrimitiveModel::Quad(p) => p.content_mask,
            PrimitiveModel::BackdropBlurRect(p) => p.content_mask,
            PrimitiveModel::EffectQuad(p) => p.content_mask,
            PrimitiveModel::Path(p) => p.content_mask,
            PrimitiveModel::Underline(p) => p.content_mask,
            PrimitiveModel::MonochromeSprite(p) => p.content_mask,
            PrimitiveModel::SubpixelSprite(p) => p.content_mask,
            PrimitiveModel::PolychromeSprite(p) => p.content_mask,
            PrimitiveModel::Surface(p) => p.content_mask,
        }
    }

    /// The part of the primitive that is seen.
    pub open spec fn clipped(self) -> Bounds<ScaledPixels> {
        self.bounds().intersection(self.content_mask().bounds)
    }

    /// Whether the primitive is composited from a snapshot of what was painted
    /// before it.
    pub open spec fn snapshots(self) -> bool {
        match self {
            PrimitiveModel::BackdropBlurRect(_) => true,
            PrimitiveModel::EffectQuad(p) => reads_backdrop(p.flags),
            _ => false,
        }
    }

    /// The primitive's kind.
    pub open spec fn kind(self) -> PrimitiveKind {
        match self {
            PrimitiveModel::Shadow(_) => PrimitiveKind::Shadow,
            PrimitiveModel::Quad(_) => PrimitiveKind::Quad,
            PrimitiveModel::BackdropBlurRect(_) => PrimitiveKind::BackdropBlurRect,
            PrimitiveModel::EffectQuad(_) => PrimitiveKind::EffectQuad,
            PrimitiveModel::Path(_) => PrimitiveKind::Path,
            PrimitiveModel::Underline(_) => PrimitiveKind::Underline,
            PrimitiveModel::MonochromeSprite(_) => PrimitiveKind::MonochromeSprite,
            PrimitiveModel::SubpixelSprite(_) => PrimitiveKind::SubpixelSprite,
            PrimitiveModel::PolychromeSprite(_) => PrimitiveKind::PolychromeSprite,
            PrimitiveModel::Surface(_) => PrimitiveKind::Surface,
        }
    }

    /// The primitive's draw order.
    pub open spec fn order(self) -> u32 {
        match self {
            PrimitiveModel::Shadow(p) => p.order,
            PrimitiveModel::Quad(p) => p.order,
            PrimitiveModel::BackdropBlurRect(p) => p.order,
            PrimitiveModel::EffectQuad(p) => p.order,
            PrimitiveModel::Path(p) => p.order,
            PrimitiveModel::Underline(p) => p.order,
            PrimitiveModel::MonochromeSprite(p) => p.order,
            PrimitiveModel::SubpixelSprite(p) => p.order,
            PrimitiveModel::PolychromeSprite(p) => p.order,
            PrimitiveModel::Surface(p) => p.order,
        }
    }

    /// The primitive at another draw order. A path also takes its place in the
    /// scene as its name.
    pub open spec fn placed(self, order: u32, path_count: nat) -> Self {
        match self {
            PrimitiveModel::Shadow(p) => PrimitiveModel::Shadow(Shadow { order, ..p }),
            PrimitiveModel::Quad(p) => PrimitiveModel::Quad(Quad { order, ..p }),
            PrimitiveModel::BackdropBlurRect(p) => PrimitiveModel::BackdropBlurRect(
                BackdropBlurRect { order, ..p },
            ),
            PrimitiveModel::EffectQuad(p) => PrimitiveModel::EffectQuad(
                EffectQuad { order, ..p },
            ),
            PrimitiveModel::Path(p) => PrimitiveModel::Path(
                PathModel { order, id: crate::path::PathId(path_count as usize), ..p },
            ),
            PrimitiveModel::Underline(p) => PrimitiveModel::Underline(Underline { order, ..p }),
            PrimitiveModel::MonochromeSprite(p) => PrimitiveModel::MonochromeSprite(
                MonochromeSprite { order, ..p },
            ),
            PrimitiveModel::SubpixelSprite(p) => PrimitiveModel::SubpixelSprite(
                SubpixelSprite { order, ..p },
            ),
            PrimitiveModel::PolychromeSprite(p) => PrimitiveModel::PolychromeSprite(
                PolychromeSprite { order, ..p },
            ),
            PrimitiveModel::Surface(p) => PrimitiveModel::Surface(PaintSurface { order, ..p }),
        }
    }
}

impl Primitive {
    /// The primitive's bounds.
    pub fn bounds(&self) -> (result: &Bounds<ScaledPixels>)
        ensures
            *result == self@.bounds(),
    {
        match self {
            Primitive::Shadow(p) => &p.bounds,
            Primitive::Quad(p) => &p.bounds,
            Primitive::BackdropBlurRect(p) => &p.bounds,
            Primitive::EffectQuad(p) => &p.bounds,
            Primitive::Path(p) => &p.bounds,
            Primitive::Underline(p) => &p.bounds,
            Primitive::MonochromeSprite(p) => &p.bounds,
            Primitive::SubpixelSprite(p) => &p.bounds,
            Primitive::PolychromeSprite(p) => &p.bounds,
            Primitive::Surface(p) => &p.bounds,
        }
    }

    /// The rectangle outside of which the primitive is not painted.
    pub fn content_mask(&self) -> (result: &ContentMask<ScaledPixels>)
        ensures
            *result == self@.content_mask(),
    {
        match self {
            Primitive::Shadow(p) => &p.content_mask,
            Primitive::Quad(p) => &p.content_mask,
            Primitive::BackdropBlurRect(p) => &p.content_mask,
            Primitive::EffectQuad(p) => &p.content_mask,
            Primitive::Path(p) => &p.content_mask,
            Primitive::Underline(p) => &p.content_mask,
            Primitive::MonochromeSprite(p) => &p.content_mask,
            Primitive::SubpixelSprite(p) => &p.content_mask,
            Primitive::PolychromeSprite(p) => &p.content_mask,
            Primitive::Surface(p) => &p.content_mask,
        }
    }

    /// Whether the primitive is composited from a snapshot of what was painted
    /// before it.
    pub(crate) fn snapshots_backdrop(&self) -> (result: bool)
        ensures
            result == self@.snapshots(),
    {
        match self {
            Primitive::BackdropBlurRect(_) => true,
            Primitive::EffectQuad(effect_quad) => effect_quad.needs_backdrop(),
            _ => false,
        }
    }
}

impl Clone for Primitive {
    fn clone(&self) -> (result: Self)
        ensures
            result@ == self@,
    {
        match self {
            Primitive::Shadow(p) => Primitive::Shadow(*p),
            Primitive::Quad(p) => Primitive::Quad(*p),
            Primitive::BackdropBlurRect(p) => Primitive::BackdropBlurRect(*p),
            Primitive::EffectQuad(p) => Primitive::EffectQuad(*p),
            Primitive::Path(p) => Primitive::Path(p.clone()),
            Primitive::Underline(p) => Primitive::Underline(*p),
            Primitive::MonochromeSprite(p) => Primitive::MonochromeSprite(*p),
            Primitive::SubpixelSprite(p) => Primitive::SubpixelSprite(*p),
            Primitive::PolychromeSprite(p) => Primitive::PolychromeSprite(*p),
            Primitive::Surface(p) => Primitive::Surface(*p),
        }
    }
}

impl From<Shadow> for Primitive {
    fn from(value: Shadow) -> (result: Self) {
        Primitive::Shadow(value)
    }
}

impl vstd::std_specs::convert::FromSpecImpl<Shadow> for Primitive {
    open spec fn obeys_from_spec() -> bool {
        true
    }

    open spec fn from_spec(value: Shadow) -> Self {
        Primitive::Shadow(value)
    }
}

impl From<Quad> for Primitive {
    fn from(value: Quad) -> (result: Self) {
        Primitive::Quad(value)
    }
}

impl vstd::std_specs::convert::FromSpecImpl<Quad> for Primitive {
    open spec fn obeys_from_spec() -> bool {
        true
    }

    open spec fn from_spec(value: Quad) -> Self {
        Primitive::Quad(value)
    }
}

impl From<BackdropBlurRect> for Primitive {
    fn from(value: BackdropBlurRect) -> (result: Self) {
        Primitive::BackdropBlurRect(value)
    }
}

impl vstd::std_specs::convert::FromSpecImpl<BackdropBlurRect> for Primitive {
    open spec fn obeys_from_spec() -> bool {
        true
    }

    open spec fn from_spec(value: BackdropBlurRect) -> Self {
        Primitive::BackdropBlurRect(value)
    }
}

impl From<EffectQuad> for Primitive {
    fn from(value: EffectQuad) -> (result: Self) {
        Primitive::EffectQuad(value)
    }
}

impl vstd::std_specs::convert::FromSpecImpl<EffectQuad> for Primitive {
    open spec fn obeys_from_spec() -> bool {
        true
    }

    open spec fn from_spec(value: EffectQuad) -> Self {
        Primitive::EffectQuad(value)
    }
}

impl From<Path<ScaledPixels>> for Primitive {
    fn from(value: Path<ScaledPixels>) -> (result: Self) {
        Primitive::Path(value)
    }
}

impl vstd::std_specs::convert::FromSpecImpl<Path<ScaledPixels>> for Primitive {
    open spec fn obeys_from_spec() -> bool {
        true
    }

    open spec fn from_spec(value: Path<ScaledPixels>) -> Self {
        Primitive::Path(value)
    }
}

impl From<Underline> for Primitive {
    fn from(value: Underline) -> (result: Self) {
        Primitive::Underline(value)
    }
}

impl vstd::std_specs::convert::FromSpecImpl<Underline> for Primitive {
    open spec fn obeys_from_spec() -> bool {
        true
    }

    open spec fn from_spec(value: Underline) -> Self {
        Primitive::Underline(value)
    }
}

impl From<MonochromeSprite> for Primitive {
    fn from(value: MonochromeSprite) -> (result: Self) {
        Primitive::MonochromeSprite(value)
    }
}

impl vstd::std_specs::convert::FromSpecImpl<MonochromeSprite> for Primitive {
    open spec fn obeys_from_spec() -> bool {
        true
    }

    open spec fn from_spec(value: MonochromeSprite) -> Self {
        Primitive::MonochromeSprite(value)
    }
}

impl From<SubpixelSprite> for Primitive {
    fn from(value: SubpixelSprite) -> (result: Self) {
        Primitive::SubpixelSprite(value)
    }
}

impl vstd::std_specs::convert::FromSpecImpl<SubpixelSprite> for Primitive {
    open spec fn obeys_from_spec() -> bool {
        true
    }

    open spec fn from_spec(value: SubpixelSprite) -> Self {
        Primitive::SubpixelSprite(value)
    }
}

impl From<PolychromeSprite> for Primitive {
    fn from(value: PolychromeSprite) -> (result: Self) {
        Primitive::PolychromeSprite(value)
    }
}

impl vstd::std_specs::convert::FromSpecImpl<PolychromeSprite> for Primitive {
    open spec fn obeys_from_spec() -> bool {
        true
    }

    open spec fn from_spec(value: PolychromeSprite) -> Self {
        Primitive::PolychromeSprite(value)
    }
}

impl From<PaintSurface> for Primitive {
    fn from(value: PaintSurface) -> (result: Self) {
        Primitive::Surface(value)
    }
}

impl vstd::std_specs::convert::FromSpecImpl<PaintSurface> for Primitive {
    open spec fn obeys_from_spec() -> bool {
        true
    }

    open spec fn from_spec(value: PaintSurface) -> Self {
        Primitive::Surface(value)
    }
}

} // verus!
