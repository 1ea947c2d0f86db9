//! Custom shading and backdrop blur.

use crate::effect_id;
use crate::geometry::{Bounds, ContentMask, Corners};
use crate::paint::{zero_bounds, zero_corners, zero_hsla, zero_mask, Hsla};
use crate::scalar::{
    lemma_magnitude_increases, lemma_rank_orders_value, lemma_whole_ranks, whole, Scalar,
    ScaledPixels, ONE_RANK,
};
use vstd::prelude::*;

verus! {

/// How many levels of the blur pyramid one rectangle may ask for at most.
pub const MAX_BACKDROP_BLUR_KERNEL_LEVELS: u32 = 5;

/// Bit 0 of [`EffectQuad::flags`]: the effect samples the backdrop.
pub const EFFECT_FLAG_NEEDS_BACKDROP: u32 = 1;

/// The pyramid levels that a blur of `radius` scaled pixels takes: one level
/// for every five pixels or part of five, and no more than
/// [`MAX_BACKDROP_BLUR_KERNEL_LEVELS`]. What is no number takes one.
pub open spec fn kernel_levels(radius: Scalar) -> int {
    if radius.nan() {
        1
    } else if radius.value() <= 0 {
        0
    } else {
        let levels = (radius.value() + whole(5) - 1) / whole(5);
        if levels < MAX_BACKDROP_BLUR_KERNEL_LEVELS {
            levels
        } else {
            MAX_BACKDROP_BLUR_KERNEL_LEVELS as int
        }
    }
}

/// Dividing with rounding up: `k` steps of `step` are the fewest that reach
/// `value`.
proof fn lemma_rounded_up(value: int, step: int, k: int)
    requires
        step > 0,
        (k - 1) * step < value <= k * step,
    ensures
        (value + step - 1) / step == k,
{
    assert((k - 1) * step == k * step - step) by (nonlinear_arith);
    let r = value + step - 1 - k * step;
    assert(0 <= r < step);
    vstd::arithmetic::div_mod::lemma_fundamental_div_mod_converse(value + step - 1, step, k, r);
}

fn count_kernel_levels(radius: Scalar) -> (result: u32)
    ensures
        result == kernel_levels(radius),
{
    if radius.is_nan() {
        return 1;
    }
    proof {
        lemma_whole_ranks();
        lemma_rank_orders_value(radius, Scalar(0));
        assert(Scalar(0).value() == 0);
    }
    if radius.0 <= 0 {
        return 0;
    }
    proof {
        let rank = radius.0 as nat;
        lemma_magnitude_increases(0x40A0_0000, rank);
        lemma_magnitude_increases(0x4120_0000, rank);
        lemma_magnitude_increases(0x4170_0000, rank);
        lemma_magnitude_increases(0x41A0_0000, rank);
        let value = radius.value();
        let step = whole(5);
        assert(step == 5 * whole(1));
        assert(whole(10) == 2 * step && whole(15) == 3 * step && whole(20) == 4 * step);
        if rank <= 0x40A0_0000 {
            lemma_rounded_up(value, step, 1);
        } else if rank <= 0x4120_0000 {
            lemma_rounded_up(value, step, 2);
        } else if rank <= 0x4170_0000 {
            lemma_rounded_up(value, step, 3);
        } else if rank <= 0x41A0_0000 {
            lemma_rounded_up(value, step, 4);
        } else {
            assert(value + step - 1 >= 5 * step);
            vstd::arithmetic::div_mod::lemma_div_is_ordered(5 * step, value + step - 1, step);
            assert((5 * step) / step == 5) by (nonlinear_arith)
                requires
                    step > 0,
            ;
        }
    }
    if radius.0 <= 0x40A0_0000 {
        1
    } else if radius.0 <= 0x4120_0000 {
        2
    } else if radius.0 <= 0x4170_0000 {
        3
    } else if radius.0 <= 0x41A0_0000 {
        4
    } else {
        MAX_BACKDROP_BLUR_KERNEL_LEVELS
    }
}

/// A rounded rectangle that replaces what is painted behind it by a blurred
/// copy: CSS `backdrop-filter: blur()`.
#[derive(Clone, Copy, Debug)]
pub struct BackdropBlurRect {
    pub order: u32,
    pub pad: u32,
    pub bounds: Bounds<ScaledPixels>,
    pub content_mask: ContentMask<ScaledPixels>,
    pub corner_radii: Corners<ScaledPixels>,
    pub blur_radius: ScaledPixels,
    pub opacity: Scalar,
    pub tint: Hsla,
}

impl Default for BackdropBlurRect {
    /// An opaque rectangle of no extent and no blur.
    fn default() -> (result: Self)
        ensures
            result == (BackdropBlurRect {
                order: 0,
                pad: 0,
                bounds: zero_bounds(),
                content_mask: zero_mask(),
                corner_radii: zero_corners(),
                blur_radius: ScaledPixels(Scalar(0)),
                opacity: Scalar(ONE_RANK),
                tint: zero_hsla(),
            }),
    {
        BackdropBlurRect {
            order: 0,
            pad: 0,
            bounds: crate::paint::no_bounds(),
            content_mask: crate::paint::no_mask(),
            corner_radii: crate::paint::no_corners(),
            blur_radius: ScaledPixels(Scalar(0)),
            opacity: Scalar(ONE_RANK),
            tint: Hsla::default(),
        }
    }
}

impl BackdropBlurRect {
    /// The clamped number of blur kernel levels that this rectangle needs.
    ///
    /// The radius is quantised to whole pyramid levels and then clamped, so
    /// the mapping from radius to blur saturates.
    pub fn effective_kernel_levels(&self) -> (result: u32)
        ensures
            result == kernel_levels(self.blur_radius.0),
    {
        count_kernel_levels(self.blur_radius.0)
    }
}

/// The `--shading` value that came out of the cascade. The eight parameters
/// are the effect's positional arguments; the rest is what the painter needs
/// to know of them.
#[derive(Clone, Copy, Debug, PartialEq)]
pub struct EffectSpec {
    /// One of [`crate::effect_id`].
    pub id: u32,
    /// [`EFFECT_FLAG_NEEDS_BACKDROP`], and bits to come.
    pub flags: u32,
    /// Bit *i* set means that `params[i]` is a length in logical pixels.
    pub length_mask: u32,
    /// The parameter that is the backdrop blur radius.
    pub backdrop_radius_param: Option<u8>,
    /// The parameter that dilates the painted quad.
    pub bleed_param: Option<u8>,
    /// Whether the effect's output depends on time.
    pub animated: bool,
    /// The positional parameters.
    pub params: [Scalar; 8],
}

/// What is left of a length that may not be negative.
pub open spec fn at_least_zero(value: Scalar) -> Scalar {
    if value.nan() || value.0 < 0 {
        Scalar(0)
    } else {
        value
    }
}

impl EffectSpec {
    /// The parameter at an index, and zero where there is none.
    pub open spec fn parameter(self, index: Option<u8>) -> Scalar {
        match index {
            Some(i) => if i < 8 {
                self.params@[i as int]
            } else {
                Scalar(0)
            },
            None => Scalar(0),
        }
    }

    /// `--shading: none`: a value that clears an effect from an earlier rule.
    pub fn none() -> (result: EffectSpec)
        ensures
            result.id == effect_id::NONE,
            result.flags == 0,
            result.length_mask == 0,
            result.backdrop_radius_param is None,
            result.bleed_param is None,
            !result.animated,
            forall|i: int| 0 <= i < 8 ==> (#[trigger] result.params@[i]) == Scalar(0),
    {
        EffectSpec {
            id: effect_id::NONE,
            flags: 0,
            length_mask: 0,
            backdrop_radius_param: None,
            bleed_param: None,
            animated: false,
            params: [
                Scalar(0),
                Scalar(0),
                Scalar(0),
                Scalar(0),
                Scalar(0),
                Scalar(0),
                Scalar(0),
                Scalar(0),
            ],
        }
    }

    /// Whether this paints anything.
    pub fn is_some(&self) -> (result: bool)
        ensures
            result == (self.id != effect_id::NONE),
    {
        self.id != effect_id::NONE
    }

    fn param(&self, index: Option<u8>) -> (result: Scalar)
        ensures
            result == self.parameter(index),
    {
        match index {
            Some(i) => {
                if i < 8 {
                    self.params[i as usize]
                } else {
                    Scalar(0)
                }
            },
            None => Scalar(0),
        }
    }

    /// The quad's dilation in logical pixels.
    pub fn bleed(&self) -> (result: Scalar)
        ensures
            result == at_least_zero(self.parameter(self.bleed_param)),
    {
        self.param(self.bleed_param).max_zero()
    }

    /// The backdrop blur radius in logical pixels.
    pub fn backdrop_blur_radius(&self) -> (result: Scalar)
        ensures
            result == at_least_zero(self.parameter(self.backdrop_radius_param)),
    {
        self.param(self.backdrop_radius_param).max_zero()
    }
}

/// A rounded rectangle shaded by a custom fragment pipeline: the CSS property
/// `--shading`.
#[derive(Clone, Copy, Debug)]
pub struct EffectQuad {
    pub order: u32,
    /// Selects the pipeline; one of [`crate::effect_id`].
    pub effect_id: u32,
    /// The element's border box, dilated by `bleed`.
    pub bounds: Bounds<ScaledPixels>,
    pub content_mask: ContentMask<ScaledPixels>,
    /// The element's corner radii, dilated by `bleed`.
    pub corner_radii: Corners<ScaledPixels>,
    /// Effect parameters 0 to 3.
    pub params0: [Scalar; 4],
    /// Effect parameters 4 to 7.
    pub params1: [Scalar; 4],
    pub opacity: Scalar,
    /// Seconds since the first effect was painted.
    pub time: Scalar,
    /// How far outside the element's border box this quad reaches.
    pub bleed: ScaledPixels,
    /// The blur applied to the backdrop before the effect sees it.
    pub backdrop_blur_radius: ScaledPixels,
    /// Device pixels per logical pixel.
    pub scale: Scalar,
    pub flags: u32,
    pub pad: [u32; 4],
}

/// Whether the flags of an effect say that it reads the backdrop: whether bit
/// 0 is set.
pub open spec fn reads_backdrop(flags: u32) -> bool {
    flags % 2 == 1
}

impl Default for EffectQuad {
    /// A quad of no extent, all of whose numbers are zero.
    fn default() -> (result: Self)
        ensures
            result.order == 0,
            result.effect_id == 0,
            result.bounds == zero_bounds(),
            result.content_mask == zero_mask(),
            result.corner_radii == zero_corners(),
            result.params0@ == seq![Scalar(0), Scalar(0), Scalar(0), Scalar(0)],
            result.params1@ == seq![Scalar(0), Scalar(0), Scalar(0), Scalar(0)],
            result.opacity == Scalar(0),
            result.time == Scalar(0),
            result.bleed == ScaledPixels(Scalar(0)),
            result.backdrop_blur_radius == ScaledPixels(Scalar(0)),
            result.scale == Scalar(0),
            result.flags == 0,
            result.pad@ == seq![0u32, 0u32, 0u32, 0u32],
    {
        EffectQuad {
            order: 0,
            effect_id: 0,
            bounds: crate::paint::no_bounds(),
            content_mask: crate::paint::no_mask(),
            corner_radii: crate::paint::no_corners(),
            params0: [Scalar(0), Scalar(0), Scalar(0), Scalar(0)],
            params1: [Scalar(0), Scalar(0), Scalar(0), Scalar(0)],
            opacity: Scalar(0),
            time: Scalar(0),
            bleed: ScaledPixels(Scalar(0)),
            backdrop_blur_radius: ScaledPixels(Scalar(0)),
            scale: Scalar(0),
            flags: 0,
            pad: [0, 0, 0, 0],
        }
    }
}

impl EffectQuad {
    /// The pyramid levels that the quad's backdrop takes.
    pub open spec fn levels(self) -> int {
        if reads_backdrop(self.flags) {
            kernel_levels(self.backdrop_blur_radius.0)
        } else {
            0
        }
    }

    /// Whether this quad reads a snapshot of the render target, which decides
    /// its draw order and whether the renderer has to break the pass.
    pub fn needs_backdrop(&self) -> (result: bool)
        ensures
            result == reads_backdrop(self.flags),
    {
        let flags: u32 = self.flags;
        assert((flags & 1 != 0) == (flags % 2 == 1)) by (bit_vector);
        flags & EFFECT_FLAG_NEEDS_BACKDROP != 0
    }

    /// The clamped number of pyramid levels that this quad's backdrop needs.
    pub fn effective_kernel_levels(&self) -> (result: u32)
        ensures
            result == self.levels(),
    {
        if !self.needs_backdrop() {
            0
        } else {
            count_kernel_levels(self.backdrop_blur_radius.0)
        }
    }
}

/// Law: a larger radius never takes fewer levels.
pub proof fn lemma_kernel_levels_increase(a: Scalar, b: Scalar)
    requires
        !a.nan(),
        !b.nan(),
        a.value() <= b.value(),
    ensures
        kernel_levels(a) <= kernel_levels(b),
{
    lemma_whole_ranks();
    if a.value() > 0 {
        vstd::arithmetic::div_mod::lemma_div_is_ordered(
            a.value() + whole(5) - 1,
            b.value() + whole(5) - 1,
            whole(5),
        );
    } else if b.value() > 0 {
        vstd::arithmetic::div_mod::lemma_div_is_ordered(
            whole(5),
            b.value() + whole(5) - 1,
            whole(5),
        );
        assert(whole(5) / whole(5) == 1) by (nonlinear_arith)
            requires
                whole(5) > 0,
        ;
    }
}

/// Law: the levels saturate. Every radius above twenty scaled pixels takes the
/// most levels there are, and every positive radius takes at least one.
pub proof fn lemma_kernel_levels_saturate(a: Scalar)
    requires
        !a.nan(),
    ensures
        0 <= kernel_levels(a) <= MAX_BACKDROP_BLUR_KERNEL_LEVELS,
        a.value() > 0 <==> kernel_levels(a) >= 1,
        a.value() > whole(20) <==> kernel_levels(a) == MAX_BACKDROP_BLUR_KERNEL_LEVELS,
{
    lemma_whole_ranks();
    let step = whole(5);
    assert(step == 5 * whole(1));
    assert(whole(20) == 4 * step);
    let value = a.value();
    if value > 0 {
        vstd::arithmetic::div_mod::lemma_div_is_ordered(step, value + step - 1, step);
        assert(step / step == 1) by (nonlinear_arith)
            requires
                step > 0,
        ;
        if value > 4 * step {
            vstd::arithmetic::div_mod::lemma_div_is_ordered(5 * step, value + step - 1, step);
            assert((5 * step) / step == 5) by (nonlinear_arith)
                requires
                    step > 0,
            ;
        } else {
            vstd::arithmetic::div_mod::lemma_div_is_ordered(
                value + step - 1,
                5 * step - 1,
                step,
            );
            assert((5 * step - 1) / step == 4) by {
                vstd::arithmetic::div_mod::lemma_fundamental_div_mod_converse(
                    5 * step - 1,
                    step,
                    4,
                    step - 1,
                );
            }
        }
    }
}

/// Law: a blur takes one level for every five scaled pixels or part of five, from
/// the first on: it takes `k` levels exactly if its radius is above `k - 1` and not
/// above `k` times five, and five levels for every radius beyond. No blur takes
/// none, and what is no number takes one.
pub proof fn lemma_one_level_for_every_five_pixels(radius: Scalar, k: int)
    requires
        1 <= k < 5,
    ensures
        radius.nan() ==> kernel_levels(radius) == 1,
        !radius.nan() ==> {
            &&& kernel_levels(radius) == k <==> whole(5 * (k - 1)) < radius.value() <= whole(5 * k)
            &&& kernel_levels(radius) == 0 <==> radius.value() <= 0
            &&& kernel_levels(radius) == 5 <==> radius.value() > whole(20)
        },
{
    lemma_whole_ranks();
    if !radius.nan() {
        lemma_kernel_levels_saturate(radius);
    }
    let step = whole(5);
    let value = radius.value();
    assert(whole(5 * k) == k * step && whole(5 * (k - 1)) == (k - 1) * step) by (nonlinear_arith)
        requires
            step == whole(5),
            whole(5 * k) == 5 * k * vstd::arithmetic::power2::pow2(149),
            whole(5 * (k - 1)) == 5 * (k - 1) * vstd::arithmetic::power2::pow2(149),
            whole(5) == 5 * vstd::arithmetic::power2::pow2(149),
    ;
    if !radius.nan() && value > 0 {
        if (k - 1) * step < value <= k * step {
            lemma_rounded_up(value, step, k);
        } else if kernel_levels(radius) == k {
            let d = value + step - 1;
            vstd::arithmetic::div_mod::lemma_fundamental_div_mod(d, step);
            assert(d == step * (d / step) + d % step);
            assert(0 <= d % step < step) by {
                vstd::arithmetic::div_mod::lemma_mod_bound(d, step);
            }
            assert((k - 1) * step < value <= k * step) by (nonlinear_arith)
                requires
                    d == value + step - 1,
                    d == step * k + d % step,
                    0 <= d % step < step,
            ;
        }
    }
}

/// Law: an effect reads the backdrop exactly if its flags say so, and only then
/// does its blur radius take levels, as many as a backdrop blur of that radius.
pub proof fn lemma_only_backdrop_effects_blur(quad: EffectQuad, rect: BackdropBlurRect)
    requires
        rect.blur_radius == quad.backdrop_blur_radius,
    ensures
        reads_backdrop(quad.flags) <==> quad.flags & EFFECT_FLAG_NEEDS_BACKDROP != 0,
        quad.flags & EFFECT_FLAG_NEEDS_BACKDROP == 0 ==> quad.levels() == 0,
        quad.flags & EFFECT_FLAG_NEEDS_BACKDROP != 0 ==> quad.levels() == kernel_levels(
            rect.blur_radius.0,
        ),
{
    let flags: u32 = quad.flags;
    assert((flags & 1 != 0) == (flags % 2 == 1)) by (bit_vector);
}

/// Law: a length of an effect is the parameter that it is named by, if that is a
/// number above zero, and else zero.
pub proof fn lemma_effect_lengths_are_parameters(spec: EffectSpec, index: Option<u8>)
    ensures
        ({
            let length = at_least_zero(spec.parameter(index));
            &&& !length.nan()
            &&& length.value() >= 0
            &&& index is Some && index->0 < 8 && !spec.params@[index->0 as int].nan()
                && spec.params@[index->0 as int].value() > 0 ==> length
                == spec.params@[index->0 as int]
            &&& length.value() != 0 ==> index is Some && index->0 < 8 && length
                == spec.params@[index->0 as int]
        }),
{
    assert(Scalar(0).value() == 0);
}

} // verus!
