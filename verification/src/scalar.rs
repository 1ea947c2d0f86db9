//! Single-precision numbers, held by rank.

use vstd::arithmetic::power2::{lemma_pow2_adds, lemma_pow2_pos, lemma_pow2_unfold, pow2};
use vstd::prelude::*;

verus! {

/// The rank of positive infinity. A rank beyond it, on either side, belongs to
/// a value that is not a number.
pub const INFINITY_RANK: i32 = 0x7F80_0000;

/// The rank of one half.
pub const HALF_RANK: i32 = 0x3F00_0000;

/// The rank of one.
pub const ONE_RANK: i32 = 0x3F80_0000;

/// A single-precision floating-point number, held as its rank: the integer
/// that counts representable values away from zero. Ranks compare as the
/// numbers they stand for do, both zeros have rank 0, and for a number of
/// positive sign the rank is the bit pattern itself.
#[derive(Clone, Copy, Debug, PartialEq, Eq, Structural)]
pub struct Scalar(pub i32);

/// The size of the number of rank `rank`, in units of the smallest positive
/// single-precision number (two to the power -149).
pub open spec fn magnitude(rank: nat) -> nat {
    let exponent = rank / 0x0080_0000;
    let fraction = rank % 0x0080_0000;
    if exponent == 0 {
        fraction
    } else {
        (fraction + 0x0080_0000) * pow2((exponent - 1) as nat)
    }
}

/// The whole number `n` in the units of [`magnitude`].
pub open spec fn whole(n: int) -> int {
    n * pow2(149)
}

/// The rank of the number of the given bit pattern.
pub open spec fn rank_of_bits(bits: u32) -> int {
    if bits < 0x8000_0000 {
        bits as int
    } else {
        0x8000_0000 - bits
    }
}

/// The bit pattern of the number of the given rank.
pub open spec fn bits_of_rank(rank: int) -> int {
    if rank >= 0 {
        rank
    } else {
        0x8000_0000 - rank
    }
}

impl Scalar {
    /// The number, in units of the smallest positive single-precision number.
    pub open spec fn value(self) -> int {
        if self.0 >= 0 {
            magnitude(self.0 as nat) as int
        } else {
            -(magnitude((-self.0) as nat) as int)
        }
    }

    /// Whether this stands for a value that is not a number.
    pub open spec fn nan(self) -> bool {
        self.0 > INFINITY_RANK || self.0 < -INFINITY_RANK
    }

    /// Whether this stands for a value that is not a number.
    pub fn is_nan(self) -> (result: bool)
        ensures
            result == self.nan(),
    {
        self.0 > INFINITY_RANK || self.0 < -INFINITY_RANK
    }

    /// The scalar whose single-precision bit pattern is `bits`.
    pub fn from_bits(bits: u32) -> (result: Scalar)
        ensures
            result.0 == rank_of_bits(bits),
    {
        if bits < 0x8000_0000 {
            Scalar(bits as i32)
        } else {
            Scalar(-((bits - 0x8000_0000) as i32))
        }
    }

    /// The single-precision bit pattern of this scalar.
    pub fn to_bits(self) -> (result: u32)
        requires
            self.0 > i32::MIN,
        ensures
            result == bits_of_rank(self.0 as int),
    {
        if self.0 >= 0 {
            self.0 as u32
        } else {
            0x8000_0000 + (-self.0) as u32
        }
    }

    /// The larger of this number and zero, and zero for what is no number.
    pub fn max_zero(self) -> (result: Scalar)
        ensures
            result == (if self.nan() || self.0 < 0 {
                Scalar(0)
            } else {
                self
            }),
    {
        if self.is_nan() || self.0 < 0 {
            Scalar(0)
        } else {
            self
        }
    }
}

/// A coordinate along one axis, in some unit.
pub trait Coordinate: Copy {
    /// The rank of the coordinate's number.
    spec fn at(self) -> int;

    /// The rank of the coordinate's number.
    fn rank(self) -> (result: i32)
        ensures
            result == self.at(),
    ;
}

/// A length in logical (CSS) pixels.
#[derive(Clone, Copy, Debug, PartialEq, Eq, Structural)]
pub struct Pixels(pub Scalar);

/// A length in device pixels before rounding: logical pixels times the
/// window's scale factor.
#[derive(Clone, Copy, Debug, PartialEq, Eq, Structural)]
pub struct ScaledPixels(pub Scalar);

impl Coordinate for Pixels {
    open spec fn at(self) -> int {
        self.0.0 as int
    }

    fn rank(self) -> (result: i32) {
        self.0.0
    }
}

impl Coordinate for ScaledPixels {
    open spec fn at(self) -> int {
        self.0.0 as int
    }

    fn rank(self) -> (result: i32) {
        self.0.0
    }
}

/// Moving one rank away from zero makes a number larger.
proof fn lemma_magnitude_step(rank: nat)
    ensures
        magnitude(rank) < magnitude(rank + 1),
{
    let exponent = rank / 0x0080_0000;
    let fraction = rank % 0x0080_0000;
    if fraction + 1 < 0x0080_0000 {
        assert((rank + 1) / 0x0080_0000 == exponent && (rank + 1) % 0x0080_0000 == fraction + 1);
        if exponent > 0 {
            let p = pow2((exponent - 1) as nat);
            lemma_pow2_pos((exponent - 1) as nat);
            assert((fraction + 1 + 0x0080_0000) * p == (fraction + 0x0080_0000) * p + p)
                by (nonlinear_arith);
        }
    } else {
        assert((rank + 1) / 0x0080_0000 == exponent + 1 && (rank + 1) % 0x0080_0000 == 0);
        let q = pow2(exponent);
        lemma_pow2_pos(exponent);
        if exponent > 0 {
            let p = pow2((exponent - 1) as nat);
            lemma_pow2_unfold(exponent);
            lemma_pow2_pos((exponent - 1) as nat);
            assert((fraction + 0x0080_0000) * p < 0x0080_0000 * q) by (nonlinear_arith)
                requires
                    fraction == 0x0080_0000 - 1,
                    q == 2 * p,
                    p > 0,
            ;
        } else {
            vstd::arithmetic::power2::lemma2_to64();
        }
    }
}

/// Law: among numbers of positive sign, the order of ranks is the order of
/// values.
pub proof fn lemma_magnitude_increases(a: nat, b: nat)
    ensures
        a < b <==> magnitude(a) < magnitude(b),
        a == b <==> magnitude(a) == magnitude(b),
    decreases a + b,
{
    if a < b {
        lemma_magnitude_step((b - 1) as nat);
        if a < b - 1 {
            lemma_magnitude_increases(a, (b - 1) as nat);
        }
    } else if b < a {
        lemma_magnitude_step((a - 1) as nat);
        if b < a - 1 {
            lemma_magnitude_increases((a - 1) as nat, b);
        }
    }
}

/// Law: ranks compare exactly as the numbers they stand for.
pub proof fn lemma_rank_orders_value(a: Scalar, b: Scalar)
    ensures
        a.0 < b.0 <==> a.value() < b.value(),
        a.0 == b.0 <==> a.value() == b.value(),
{
    let ua: nat = if a.0 >= 0 { a.0 as nat } else { (-a.0) as nat };
    let ub: nat = if b.0 >= 0 { b.0 as nat } else { (-b.0) as nat };
    lemma_magnitude_increases(ua, ub);
    lemma_magnitude_increases(0, ua);
    lemma_magnitude_increases(0, ub);
    assert(magnitude(0) == 0);
}

/// Law: a bit pattern survives the trip through a scalar, but for the sign of
/// zero.
pub proof fn lemma_bits_round_trip(bits: u32)
    ensures
        bits != 0x8000_0000 ==> bits_of_rank(rank_of_bits(bits)) == bits,
        bits == 0x8000_0000 ==> bits_of_rank(rank_of_bits(bits)) == 0,
{
}

/// The numbers 5, 10, 15 and 20, and one, have the ranks written here.
pub proof fn lemma_whole_ranks()
    ensures
        magnitude(0x40A0_0000) == whole(5),
        magnitude(0x4120_0000) == whole(10),
        magnitude(0x4170_0000) == whole(15),
        magnitude(0x41A0_0000) == whole(20),
        Scalar(ONE_RANK).value() == whole(1),
        2 * Scalar(HALF_RANK).value() == whole(1),
        whole(1) > 0,
{
    lemma_pow2_pos(149);
    lemma_pow2_adds(21, 128);
    lemma_pow2_adds(20, 129);
    lemma_pow2_adds(23, 126);
    lemma_pow2_unfold(129);
    lemma_pow2_unfold(130);
    lemma_pow2_unfold(126);
    vstd::arithmetic::power2::lemma2_to64();
    assert(pow2(149) == 0x0020_0000 * pow2(128));
    assert(pow2(149) == 0x0010_0000 * pow2(129));
    assert(pow2(149) == 0x0080_0000 * pow2(126));
    assert(0x40A0_0000nat / 0x0080_0000 == 129 && 0x40A0_0000nat % 0x0080_0000 == 0x0020_0000);
    assert(0x4120_0000nat / 0x0080_0000 == 130 && 0x4120_0000nat % 0x0080_0000 == 0x0020_0000);
    assert(0x4170_0000nat / 0x0080_0000 == 130 && 0x4170_0000nat % 0x0080_0000 == 0x0070_0000);
    assert(0x41A0_0000nat / 0x0080_0000 == 131 && 0x41A0_0000nat % 0x0080_0000 == 0x0020_0000);
    assert(magnitude(0x40A0_0000) == 0x00A0_0000 * pow2(128));
    assert(magnitude(0x4120_0000) == 0x00A0_0000 * pow2(129));
    assert(magnitude(0x4170_0000) == 0x00F0_0000 * pow2(129));
    assert(magnitude(0x41A0_0000) == 0x00A0_0000 * pow2(130));
    assert(0x3F80_0000nat / 0x0080_0000 == 127 && 0x3F80_0000nat % 0x0080_0000 == 0);
    assert(0x3F00_0000nat / 0x0080_0000 == 126 && 0x3F00_0000nat % 0x0080_0000 == 0);
    assert(magnitude(0x3F80_0000) == 0x0080_0000 * pow2(126));
    assert(magnitude(0x3F00_0000) == 0x0080_0000 * pow2(125));
}

/// Law: the top bit of a pattern is the number's sign, and the bits below it count how far
/// the number is from zero; a pattern beyond that of infinity is no number.
pub proof fn lemma_top_bit_is_the_sign(bits: u32)
    ensures
        bits & 0x8000_0000 == 0 ==> rank_of_bits(bits) == bits & 0x7FFF_FFFF,
        bits & 0x8000_0000 != 0 ==> rank_of_bits(bits) == -((bits & 0x7FFF_FFFF) as int),
        forall|scalar: Scalar|
            #![trigger scalar.nan()]
            scalar.0 == rank_of_bits(bits) ==> (scalar.nan() <==> bits & 0x7FFF_FFFF > 0x7F80_0000),
{
    assert((bits & 0x8000_0000 == 0) == (bits < 0x8000_0000)) by (bit_vector);
    assert(bits < 0x8000_0000 ==> bits & 0x7FFF_FFFF == bits) by (bit_vector);
    assert(bits >= 0x8000_0000 ==> bits & 0x7FFF_FFFF == bits - 0x8000_0000) by (bit_vector);
}

/// Law: numbers of small exponent are counted one by one, and a number of the next
/// exponent and the same fraction is twice as large.
pub proof fn lemma_next_exponent_doubles(rank: nat)
    ensures
        rank < 0x0100_0000 ==> magnitude(rank) == rank,
        rank >= 0x0080_0000 ==> magnitude(rank + 0x0080_0000) == 2 * magnitude(rank),
        forall|scalar: Scalar|
            #![trigger scalar.value()]
            (scalar.0 == rank ==> scalar.value() == magnitude(rank)) && (scalar.0 == -rank
                ==> scalar.value() == -magnitude(rank)),
{
    vstd::arithmetic::power2::lemma2_to64();
    let exponent = rank / 0x0080_0000;
    let fraction = rank % 0x0080_0000;
    if 0x0080_0000 <= rank < 0x0100_0000 {
        assert(exponent == 1 && fraction == rank - 0x0080_0000);
        assert((fraction + 0x0080_0000) * 1 == rank) by (nonlinear_arith)
            requires
                fraction == rank - 0x0080_0000,
        ;
    }
    if rank >= 0x0080_0000 {
        assert((rank + 0x0080_0000) / 0x0080_0000 == exponent + 1 && (rank + 0x0080_0000)
            % 0x0080_0000 == fraction);
        lemma_pow2_unfold(exponent);
        let p = pow2((exponent - 1) as nat);
        assert((fraction + 0x0080_0000) * (2 * p) == 2 * ((fraction + 0x0080_0000) * p))
            by (nonlinear_arith);
    }
}

/// Law: a coordinate is its number, in whatever unit: coordinates compare as their numbers
/// do, and equal coordinates are at one place.
pub proof fn lemma_coordinates_compare_as_numbers(a: Scalar, b: Scalar)
    ensures
        Pixels(a).at() == a.0,
        ScaledPixels(a).at() == a.0,
        Pixels(a).at() < Pixels(b).at() <==> a.value() < b.value(),
        ScaledPixels(a).at() < ScaledPixels(b).at() <==> a.value() < b.value(),
        Pixels(a).at() == Pixels(b).at() <==> a == b,
        ScaledPixels(a).at() == ScaledPixels(b).at() <==> a == b,
{
    lemma_rank_orders_value(a, b);
}

} // verus!
