//! The built-in effects, by number. A number is the index of the effect's
//! pipeline in the renderer's table.

use vstd::prelude::*;

verus! {

/// `frost(strength, radius?, tint?)`: blurred backdrop, crystalline grain and
/// a rim highlight. Reads the backdrop.
pub const FROST: u32 = 0;

/// `noise(amount, scale?, speed?)`: film grain over the element.
pub const NOISE: u32 = 1;

/// `glow(color?, radius, strength)`: a soft halo around the border box.
pub const GLOW: u32 = 2;

/// How many built-in effects there are.
pub const COUNT: u32 = 3;

/// What an [`EffectSpec`](crate::effect::EffectSpec) carries where CSS said
/// `--shading: none`: clearing is a value.
pub const NONE: u32 = 0xFFFF_FFFF;

} // verus!
