//! CSS `transform`: its components and the matrix they become.

use crate::scalar::{lemma_whole_ranks, whole, Scalar, HALF_RANK, ONE_RANK};
use vstd::prelude::*;

verus! {

/// One axis of a `translate()` or of a `transform-origin`, in the unit it was
/// written in.
#[derive(Clone, Copy, Debug, PartialEq, Eq, Structural)]
pub enum TransformLength {
    /// An absolute length in logical (CSS) pixels.
    Pixels(Scalar),
    /// A fraction of the element's own border box on this axis: `-50%` is
    /// `-0.5`. It cannot be resolved before layout.
    Fraction(Scalar),
}

/// A length part of the way between two, before the arithmetic is done.
#[derive(Clone, Copy, Debug, PartialEq, Eq, Structural)]
pub enum Interpolation {
    /// Between two numbers of logical pixels.
    Pixels(Scalar, Scalar),
    /// Between two fractions of the element's own box.
    Fraction(Scalar, Scalar),
    /// Not interpolable: this length as it stands.
    Snap(TransformLength),
}

impl TransformLength {
    /// The number in front of the unit.
    pub open spec fn number(self) -> Scalar {
        match self {
            TransformLength::Pixels(v) => v,
            TransformLength::Fraction(v) => v,
        }
    }

    /// Zero, the identity of `translate()`.
    pub fn zero() -> (result: Self)
        ensures
            result == TransformLength::Pixels(Scalar(0)),
    {
        TransformLength::Pixels(Scalar(0))
    }

    /// Is this zero, whatever unit it is written in?
    pub fn is_zero(self) -> (result: bool)
        ensures
            result == (self.number().0 == 0),
    {
        match self {
            TransformLength::Pixels(v) => v.0 == 0,
            TransformLength::Fraction(v) => v.0 == 0,
        }
    }

    /// The two ends to interpolate between on the way from `self` to `other`.
    ///
    /// Same units interpolate. Of mixed units, a zero side is the same length
    /// in both units and takes the other's. Anything else snaps halfway, and a
    /// `t` that is no number counts as past it.
    pub open spec fn towards(self, other: Self, t: Scalar) -> Interpolation {
        match (self, other) {
            (TransformLength::Pixels(a), TransformLength::Pixels(b)) => Interpolation::Pixels(a, b),
            (TransformLength::Fraction(a), TransformLength::Fraction(b)) => Interpolation::Fraction(
                a,
                b,
            ),
            (TransformLength::Pixels(a), TransformLength::Fraction(b)) => if a.0 == 0 {
                Interpolation::Fraction(Scalar(0), b)
            } else if b.0 == 0 {
                Interpolation::Pixels(a, Scalar(0))
            } else if !t.nan() && t.value() < Scalar(HALF_RANK).value() {
                Interpolation::Snap(self)
            } else {
                Interpolation::Snap(other)
            },
            (TransformLength::Fraction(a), TransformLength::Pixels(b)) => if a.0 == 0 {
                Interpolation::Pixels(Scalar(0), b)
            } else if b.0 == 0 {
                Interpolation::Fraction(a, Scalar(0))
            } else if !t.nan() && t.value() < Scalar(HALF_RANK).value() {
                Interpolation::Snap(self)
            } else {
                Interpolation::Snap(other)
            },
        }
    }

    /// Interpolates between two authored lengths, as far as that needs no
    /// arithmetic: which two numbers of which unit, or which of the two
    /// lengths.
    pub fn interpolate(self, other: Self, t: Scalar) -> (result: Interpolation)
        ensures
            result == self.towards(other, t),
    {
        proof {
            crate::scalar::lemma_rank_orders_value(t, Scalar(HALF_RANK));
        }
        match (self, other) {
            (TransformLength::Pixels(a), TransformLength::Pixels(b)) => Interpolation::Pixels(a, b),
            (TransformLength::Fraction(a), TransformLength::Fraction(b)) => Interpolation::Fraction(
                a,
                b,
            ),
            (a, b) => {
                if a.is_zero() {
                    match b {
                        TransformLength::Pixels(v) => Interpolation::Pixels(Scalar(0), v),
                        TransformLength::Fraction(v) => Interpolation::Fraction(Scalar(0), v),
                    }
                } else if b.is_zero() {
                    match a {
                        TransformLength::Pixels(v) => Interpolation::Pixels(v, Scalar(0)),
                        TransformLength::Fraction(v) => Interpolation::Fraction(v, Scalar(0)),
                    }
                } else if !t.is_nan() && t.0 < HALF_RANK {
                    Interpolation::Snap(a)
                } else {
                    Interpolation::Snap(b)
                }
            },
        }
    }
}

/// CSS `transform`, by its components rather than as a finished matrix: the
/// matrix needs the element's box, and a transition runs between components.
#[derive(Clone, Copy, Debug, PartialEq, Eq)]
pub struct TransformSpec {
    /// `translate()`, per axis.
    pub translate: (TransformLength, TransformLength),
    /// `rotate()` about the origin, in radians, clockwise.
    pub rotate: Scalar,
    /// `scale()` about the origin.
    pub scale: (Scalar, Scalar),
    /// `transform-origin`, per axis, measured from the top left of the
    /// element's border box.
    pub origin: (TransformLength, TransformLength),
}

/// A transform part of the way between two, component by component.
#[derive(Clone, Copy, Debug, PartialEq, Eq)]
pub struct TransformInterpolation {
    pub translate: (Interpolation, Interpolation),
    pub rotate: (Scalar, Scalar),
    pub scale: ((Scalar, Scalar), (Scalar, Scalar)),
    pub origin: (Interpolation, Interpolation),
}

/// `transform: none`.
pub open spec fn identity_transform() -> TransformSpec {
    TransformSpec {
        translate: (TransformLength::Pixels(Scalar(0)), TransformLength::Pixels(Scalar(0))),
        rotate: Scalar(0),
        scale: (Scalar(ONE_RANK), Scalar(ONE_RANK)),
        origin: (
            TransformLength::Fraction(Scalar(HALF_RANK)),
            TransformLength::Fraction(Scalar(HALF_RANK)),
        ),
    }
}

impl Default for TransformSpec {
    fn default() -> (result: Self)
        ensures
            result == identity_transform(),
    {
        TransformSpec::identity()
    }
}

impl TransformSpec {
    /// `transform: none`.
    pub fn identity() -> (result: Self)
        ensures
            result == identity_transform(),
    {
        TransformSpec {
            translate: (TransformLength::zero(), TransformLength::zero()),
            rotate: Scalar(0),
            scale: (Scalar(ONE_RANK), Scalar(ONE_RANK)),
            origin: TransformSpec::centre_origin(),
        }
    }

    /// CSS's initial `transform-origin: 50% 50%`.
    pub fn centre_origin() -> (result: (TransformLength, TransformLength))
        ensures
            result == identity_transform().origin,
    {
        (TransformLength::Fraction(Scalar(HALF_RANK)), TransformLength::Fraction(Scalar(HALF_RANK)))
    }

    /// Is this `transform: none`? The origin is no part of the answer: on its
    /// own it changes nothing.
    pub fn is_identity(&self) -> (result: bool)
        ensures
            result == (self.rotate.0 == 0 && self.scale.0.0 == ONE_RANK && self.scale.1.0
                == ONE_RANK && self.translate.0.number().0 == 0 && self.translate.1.number().0
                == 0),
    {
        self.rotate.0 == 0 && self.scale.0.0 == ONE_RANK && self.scale.1.0 == ONE_RANK
            && self.translate.0.is_zero() && self.translate.1.is_zero()
    }

    /// Interpolates component by component, as far as that needs no
    /// arithmetic.
    pub fn interpolate(self, other: Self, t: Scalar) -> (result: TransformInterpolation)
        ensures
            result.translate == (
                self.translate.0.towards(other.translate.0, t),
                self.translate.1.towards(other.translate.1, t),
            ),
            result.rotate == (self.rotate, other.rotate),
            result.scale == ((self.scale.0, other.scale.0), (self.scale.1, other.scale.1)),
            result.origin == (
                self.origin.0.towards(other.origin.0, t),
                self.origin.1.towards(other.origin.1, t),
            ),
    {
        TransformInterpolation {
            translate: (
                self.translate.0.interpolate(other.translate.0, t),
                self.translate.1.interpolate(other.translate.1, t),
            ),
            rotate: (self.rotate, other.rotate),
            scale: ((self.scale.0, other.scale.0), (self.scale.1, other.scale.1)),
            origin: (
                self.origin.0.interpolate(other.origin.0, t),
                self.origin.1.interpolate(other.origin.1, t),
            ),
        }
    }
}

/// An affine map of the plane, applied to an element as it is painted.
#[derive(Clone, Copy, Debug, PartialEq)]
pub struct TransformationMatrix {
    /// Rotation and scale, row by row.
    pub rotation_scale: [[Scalar; 2]; 2],
    /// Translation.
    pub translation: [Scalar; 2],
}

/// The matrix that changes nothing.
pub open spec fn unit_matrix() -> TransformationMatrix {
    TransformationMatrix {
        rotation_scale: [[Scalar(ONE_RANK), Scalar(0)], [Scalar(0), Scalar(ONE_RANK)]],
        translation: [Scalar(0), Scalar(0)],
    }
}

impl TransformationMatrix {
    /// The matrix that changes nothing.
    pub fn unit() -> (result: Self)
        ensures
            result == unit_matrix(),
    {
        TransformationMatrix {
            rotation_scale: [[Scalar(ONE_RANK), Scalar(0)], [Scalar(0), Scalar(ONE_RANK)]],
            translation: [Scalar(0), Scalar(0)],
        }
    }

    /// Is there nothing to apply?
    pub fn is_unit(&self) -> (result: bool)
        ensures
            result == (*self == unit_matrix()),
    {
        let unit = TransformationMatrix::unit();
        let result = self.rotation_scale[0][0] == unit.rotation_scale[0][0]
            && self.rotation_scale[0][1] == unit.rotation_scale[0][1] && self.rotation_scale[1][0]
            == unit.rotation_scale[1][0] && self.rotation_scale[1][1] == unit.rotation_scale[1][1]
            && self.translation[0] == unit.translation[0] && self.translation[1]
            == unit.translation[1];
        proof {
            if result {
                assert(self.rotation_scale[0] =~= unit.rotation_scale[0]);
                assert(self.rotation_scale[1] =~= unit.rotation_scale[1]);
                assert(self.rotation_scale =~= unit.rotation_scale);
                assert(self.translation =~= unit.translation);
            }
        }
        result
    }
}

impl Default for TransformationMatrix {
    fn default() -> (result: Self)
        ensures
            result == unit_matrix(),
    {
        TransformationMatrix::unit()
    }
}

/// Law: interpolating a transform with itself runs between equal ends, so no
/// component moves.
pub proof fn lemma_interpolation_with_itself_is_constant(length: TransformLength, t: Scalar)
    ensures
        match length.towards(length, t) {
            Interpolation::Pixels(a, b) => a == b && length == TransformLength::Pixels(a),
            Interpolation::Fraction(a, b) => a == b && length == TransformLength::Fraction(a),
            Interpolation::Snap(_) => false,
        },
{
}

/// Law: a zero end never makes an interpolation snap; it takes the unit of the
/// other end.
pub proof fn lemma_zero_takes_the_other_unit(a: TransformLength, b: TransformLength, t: Scalar)
    requires
        a.number().0 == 0 || b.number().0 == 0,
    ensures
        !(a.towards(b, t) is Snap),
        a.number().0 == 0 && b.number().0 != 0 ==> (a.towards(b, t) is Pixels <==> b is Pixels),
        b.number().0 == 0 && a.number().0 != 0 ==> (a.towards(b, t) is Pixels <==> a is Pixels),
{
}

/// Law: two lengths of one unit are interpolated between as they are. Of two units, a
/// zero is written in the unit of the other, and where neither is zero the length
/// stands that is nearer: the first until half of the way, the second from there on.
pub proof fn lemma_interpolation_keeps_its_ends(
    a: TransformLength,
    b: TransformLength,
    t: Scalar,
)
    ensures
        a is Pixels && b is Pixels ==> a.towards(b, t) is Pixels,
        a is Fraction && b is Fraction ==> a.towards(b, t) is Fraction,
        match a.towards(b, t) {
            Interpolation::Pixels(x, y) => {
                &&& a == TransformLength::Pixels(x) || (a.number().0 == 0 && x == Scalar(0))
                &&& b == TransformLength::Pixels(y) || (b.number().0 == 0 && y == Scalar(0))
            },
            Interpolation::Fraction(x, y) => {
                &&& a == TransformLength::Fraction(x) || (a.number().0 == 0 && x == Scalar(0))
                &&& b == TransformLength::Fraction(y) || (b.number().0 == 0 && y == Scalar(0))
            },
            Interpolation::Snap(length) => {
                &&& a is Pixels <==> b is Fraction
                &&& a.number().0 != 0
                &&& b.number().0 != 0
                &&& !t.nan() && 2 * t.value() < whole(1) ==> length == a
                &&& t.nan() || 2 * t.value() >= whole(1) ==> length == b
            },
        },
        forall|v: Scalar| (#[trigger] TransformLength::Pixels(v).number()) == v,
        forall|v: Scalar| (#[trigger] TransformLength::Fraction(v).number()) == v,
{
    lemma_whole_ranks();
}

/// Law: no transform moves nothing, turns nothing, scales by one, and has its origin in
/// the middle of the element's box.
pub proof fn lemma_identity_changes_nothing()
    ensures
        identity_transform().translate.0.number().value() == 0,
        identity_transform().translate.1.number().value() == 0,
        identity_transform().translate.0 is Pixels && identity_transform().translate.1 is Pixels,
        identity_transform().rotate.value() == 0,
        identity_transform().scale.0.value() == whole(1),
        identity_transform().scale.1.value() == whole(1),
        identity_transform().origin.0 is Fraction && identity_transform().origin.1 is Fraction,
        2 * identity_transform().origin.0.number().value() == whole(1),
        2 * identity_transform().origin.1.number().value() == whole(1),
{
    lemma_whole_ranks();
}

/// Law: the unit matrix takes every point to itself.
pub proof fn lemma_unit_matrix_changes_nothing(x: int, y: int)
    ensures
        ({
            let rows = unit_matrix().rotation_scale;
            let moved = unit_matrix().translation;
            &&& rows[0][0].value() * x + rows[0][1].value() * y + moved[0].value() == whole(1) * x
            &&& rows[1][0].value() * x + rows[1][1].value() * y + moved[1].value() == whole(1) * y
        }),
{
    lemma_whole_ranks();
    assert(Scalar(0).value() == 0);
    assert(0 * x == 0 && 0 * y == 0);
}

} // verus!
