//! Names of textures and tiles of the sprite atlas.

use crate::geometry::DeviceBounds;
use vstd::prelude::*;

verus! {

/// What the pixels of an atlas texture hold.
#[derive(Clone, Copy, Debug, PartialEq, Eq, Structural)]
pub enum AtlasTextureKind {
    /// Coverage only, one byte a pixel.
    Monochrome,
    /// Colour, four bytes a pixel.
    Polychrome,
    /// Coverage per colour channel, four bytes a pixel.
    Subpixel,
}

/// An atlas texture: its slot in the list of its kind.
#[derive(Clone, Copy, Debug, PartialEq, Eq, Structural)]
pub struct AtlasTextureId {
    pub index: u32,
    pub kind: AtlasTextureKind,
}

/// The number by which an allocation within one texture goes.
#[derive(Clone, Copy, Debug, PartialEq, Eq, Structural)]
pub struct TileId(pub u32);

/// A rectangle of an atlas texture.
#[derive(Clone, Copy, Debug, PartialEq, Eq, Structural)]
pub struct AtlasTile {
    pub texture_id: AtlasTextureId,
    pub tile_id: TileId,
    pub padding: u32,
    pub bounds: DeviceBounds,
}

} // verus!
