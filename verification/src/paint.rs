//! Colours and the values that records start from.

use crate::geometry::{Bounds, ContentMask, Corners, Edges};
use crate::scalar::{Scalar, ScaledPixels};
use vstd::prelude::*;

verus! {

/// A colour by hue, saturation, lightness and alpha.
#[derive(Clone, Copy, Debug, PartialEq, Eq, Structural)]
pub struct Hsla {
    pub h: Scalar,
    pub s: Scalar,
    pub l: Scalar,
    pub a: Scalar,
}

/// The colour of which every component is zero.
pub open spec fn zero_hsla() -> Hsla {
    Hsla { h: Scalar(0), s: Scalar(0), l: Scalar(0), a: Scalar(0) }
}

impl Default for Hsla {
    fn default() -> (result: Self)
        ensures
            result == zero_hsla(),
    {
        Hsla { h: Scalar(0), s: Scalar(0), l: Scalar(0), a: Scalar(0) }
    }
}

/// A fill (a colour, a gradient or a pattern), as the words the shaders read.
#[derive(Clone, Copy, Debug)]
pub struct Background {
    pub words: [u32; 18],
}

/// The fill of which every word is zero: a solid, transparent black.
pub open spec fn zero_background() -> Background {
    Background { words: [0, 0, 0, 0, 0, 0, 0, 0, 0, 0, 0, 0, 0, 0, 0, 0, 0, 0] }
}

impl Default for Background {
    fn default() -> (result: Self)
        ensures
            result == zero_background(),
    {
        Background { words: [0, 0, 0, 0, 0, 0, 0, 0, 0, 0, 0, 0, 0, 0, 0, 0, 0, 0] }
    }
}

/// The rectangle of no extent at the origin.
pub open spec fn zero_bounds() -> Bounds<ScaledPixels> {
    Bounds {
        left: ScaledPixels(Scalar(0)),
        top: ScaledPixels(Scalar(0)),
        right: ScaledPixels(Scalar(0)),
        bottom: ScaledPixels(Scalar(0)),
        extent: None,
    }
}

/// The mask that shows nothing.
pub open spec fn zero_mask() -> ContentMask<ScaledPixels> {
    ContentMask { bounds: zero_bounds() }
}

/// Corners without radius.
pub open spec fn zero_corners() -> Corners<ScaledPixels> {
    Corners {
        top_left: ScaledPixels(Scalar(0)),
        top_right: ScaledPixels(Scalar(0)),
        bottom_right: ScaledPixels(Scalar(0)),
        bottom_left: ScaledPixels(Scalar(0)),
    }
}

/// Edges without width.
pub open spec fn zero_edges() -> Edges<ScaledPixels> {
    Edges {
        top: ScaledPixels(Scalar(0)),
        right: ScaledPixels(Scalar(0)),
        bottom: ScaledPixels(Scalar(0)),
        left: ScaledPixels(Scalar(0)),
    }
}

pub(crate) fn no_bounds() -> (result: Bounds<ScaledPixels>)
    ensures
        result == zero_bounds(),
{
    Bounds {
        left: ScaledPixels(Scalar(0)),
        top: ScaledPixels(Scalar(0)),
        right: ScaledPixels(Scalar(0)),
        bottom: ScaledPixels(Scalar(0)),
        extent: None,
    }
}

pub(crate) fn no_mask() -> (result: ContentMask<ScaledPixels>)
    ensures
        result == zero_mask(),
{
    ContentMask { bounds: no_bounds() }
}

pub(crate) fn no_corners() -> (result: Corners<ScaledPixels>)
    ensures
        result == zero_corners(),
{
    Corners {
        top_left: ScaledPixels(Scalar(0)),
        top_right: ScaledPixels(Scalar(0)),
        bottom_right: ScaledPixels(Scalar(0)),
        bottom_left: ScaledPixels(Scalar(0)),
    }
}

pub(crate) fn no_edges() -> (result: Edges<ScaledPixels>)
    ensures
        result == zero_edges(),
{
    Edges {
        top: ScaledPixels(Scalar(0)),
        right: ScaledPixels(Scalar(0)),
        bottom: ScaledPixels(Scalar(0)),
        left: ScaledPixels(Scalar(0)),
    }
}

/// Law: the values that records start from are all zero: no colour and no fill, no
/// radius and no width, and a mask that shows no point.
pub proof fn lemma_records_start_from_nothing(x: int, y: int, word: int)
    requires
        0 <= word < 18,
    ensures
        zero_hsla().h.value() == 0 && zero_hsla().s.value() == 0 && zero_hsla().l.value() == 0
            && zero_hsla().a.value() == 0,
        zero_background().words@[word] == 0,
        zero_bounds().left.0.value() == 0 && zero_bounds().top.0.value() == 0
            && zero_bounds().right.0.value() == 0 && zero_bounds().bottom.0.value() == 0
            && zero_bounds().extent is None,
        !zero_bounds().covers(x, y),
        zero_mask().bounds == zero_bounds(),
        zero_corners().top_left.0.value() == 0 && zero_corners().top_right.0.value() == 0
            && zero_corners().bottom_right.0.value() == 0 && zero_corners().bottom_left.0.value()
            == 0,
        zero_edges().top.0.value() == 0 && zero_edges().right.0.value() == 0
            && zero_edges().bottom.0.value() == 0 && zero_edges().left.0.value() == 0,
{
}

} // verus!
