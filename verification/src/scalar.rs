//! Authored real numbers, held as IEEE-754 binary64 bit patterns.

use vstd::prelude::*;

use vstd::arithmetic::power2::pow2;

verus! {

/// One binary64 number by its bits.
#[derive(Clone, Copy, Debug, PartialEq, Eq, Structural)]
pub struct Scalar {
    pub bits: u64,
}

/// The exponent field of an infinity or a NaN.
pub const NON_FINITE_EXPONENT: u64 = 2047;

/// The bits of the number one.
pub const ONE_BITS: u64 = 0x3ff0_0000_0000_0000;

impl Scalar {
    pub open spec fn spec_is_negative(self) -> bool {
        self.bits >= 0x8000_0000_0000_0000
    }

    /// The bits without the sign.
    pub open spec fn magnitude_bits(self) -> u64 {
        self.bits % 0x8000_0000_0000_0000
    }

    pub open spec fn exponent(self) -> u64 {
        self.magnitude_bits() / 0x10_0000_0000_0000
    }

    pub open spec fn fraction(self) -> u64 {
        self.bits % 0x10_0000_0000_0000
    }

    pub open spec fn spec_is_finite(self) -> bool {
        self.exponent() != NON_FINITE_EXPONENT
    }

    pub open spec fn spec_is_nan(self) -> bool {
        self.exponent() == NON_FINITE_EXPONENT && self.fraction() != 0
    }

    /// Either zero.
    pub open spec fn spec_is_zero(self) -> bool {
        self.magnitude_bits() == 0
    }

    /// Greater than zero; infinity is.
    pub open spec fn spec_is_positive(self) -> bool {
        !self.spec_is_nan() && !self.spec_is_negative() && !self.spec_is_zero()
    }

    /// Numeric equality: the two zeros are equal, and a NaN equals nothing.
    pub open spec fn spec_equals(self, other: Scalar) -> bool {
        &&& !self.spec_is_nan()
        &&& !other.spec_is_nan()
        &&& self.bits == other.bits || self.spec_is_zero() && other.spec_is_zero()
    }

    /// The nearest integer to the magnitude of a finite number, with halves rounded up. A normal
    /// number is `(2^52 + fraction) * 2^(exponent - 1075)`; every subnormal is less than a half.
    pub open spec fn rounded_magnitude(self) -> int {
        let significand = 0x10_0000_0000_0000 + self.fraction();
        if self.exponent() == 0 {
            0
        } else if self.exponent() >= 1075 {
            significand * pow2((self.exponent() - 1075) as nat)
        } else {
            let places = (1075 - self.exponent()) as nat;
            (2 * significand + pow2(places)) / (2 * pow2(places)) as int
        }
    }

    /// The nearest integer to a finite number, with halves rounded away from zero.
    pub open spec fn rounded(self) -> int {
        if self.spec_is_negative() {
            -self.rounded_magnitude()
        } else {
            self.rounded_magnitude()
        }
    }

    pub fn from_bits(bits: u64) -> (scalar: Self)
        ensures
            scalar.bits == bits,
    {
        Self { bits }
    }

    pub fn is_finite(self) -> (finite: bool)
        ensures
            finite == self.spec_is_finite(),
    {
        (self.bits % 0x8000_0000_0000_0000) / 0x10_0000_0000_0000 != NON_FINITE_EXPONENT
    }

    pub fn is_nan(self) -> (nan: bool)
        ensures
            nan == self.spec_is_nan(),
    {
        !self.is_finite() && self.bits % 0x10_0000_0000_0000 != 0
    }

    /// Whether this is either zero.
    pub fn is_zero(self) -> (zero: bool)
        ensures
            zero == self.spec_is_zero(),
    {
        self.bits % 0x8000_0000_0000_0000 == 0
    }

    /// Whether this is greater than zero.
    pub fn is_positive(self) -> (positive: bool)
        ensures
            positive == self.spec_is_positive(),
    {
        !self.is_nan() && self.bits < 0x8000_0000_0000_0000 && !self.is_zero()
    }

    pub fn is_one(self) -> (one: bool)
        ensures
            one == (self.bits == ONE_BITS),
            one == self.spec_equals((Scalar { bits: ONE_BITS })),
    {
        self.bits == ONE_BITS
    }

    /// Whether two numbers are equal.
    pub fn equals(self, other: Scalar) -> (equal: bool)
        ensures
            equal == self.spec_equals(other),
    {
        !self.is_nan() && !other.is_nan() && (self.bits == other.bits || self.is_zero()
            && other.is_zero())
    }

    /// The nearest integer, with halves rounded away from zero, if it is one and fits.
    pub fn round_to_i32(self) -> (rounded: Option<i32>)
        ensures
            rounded == (if self.spec_is_finite() && i32::MIN <= self.rounded() <= i32::MAX {
                Some(self.rounded() as i32)
            } else {
                None
            }),
    {
        if !self.is_finite() {
            return None;
        }
        let exponent: u64 = (self.bits % 0x8000_0000_0000_0000) / 0x10_0000_0000_0000;
        let significand: u64 = 0x10_0000_0000_0000 + self.bits % 0x10_0000_0000_0000;
        if exponent >= 1075 {
            proof {
                let scale = pow2((exponent - 1075) as nat);
                vstd::arithmetic::power2::lemma_pow2_pos((exponent - 1075) as nat);
                assert(significand * scale >= significand) by (nonlinear_arith)
                    requires
                        scale >= 1,
                        significand >= 0,
                ;
            }
            return None;
        }
        let magnitude: u64 = if exponent == 0 {
            0
        } else {
            round_shifted(significand, 1075 - exponent)
        };
        if self.bits >= 0x8000_0000_0000_0000 {
            if magnitude <= 0x8000_0000 {
                Some((-(magnitude as i64)) as i32)
            } else {
                None
            }
        } else if magnitude <= 0x7fff_ffff {
            Some(magnitude as i32)
        } else {
            None
        }
    }
}

/// `significand / 2^places`, rounded to the nearest integer with halves rounded up.
fn round_shifted(significand: u64, places: u64) -> (rounded: u64)
    requires
        significand < 0x20_0000_0000_0000,
        1 <= places,
    ensures
        rounded == (2 * significand + pow2(places as nat)) / (2 * pow2(places as nat)) as int,
{
    proof {
        vstd::arithmetic::power2::lemma2_to64_rest();
    }
    if places >= 54 {
        proof {
            if places > 54 {
                vstd::arithmetic::power2::lemma_pow2_strictly_increases(54, places as nat);
            }
            let unit = pow2(places as nat) as int;
            let numerator = 2 * significand + unit;
            vstd::arithmetic::div_mod::lemma_fundamental_div_mod_converse(
                numerator,
                2 * unit,
                0,
                numerator,
            );
        }
        return 0;
    }
    proof {
        vstd::arithmetic::power2::lemma_pow2_strictly_increases(places as nat, 54);
        vstd::arithmetic::power2::lemma_pow2_pos(places as nat);
        vstd::bits::lemma_u64_shl_is_mul(1, places);
    }
    let unit: u64 = 1u64 << places;
    (2 * significand + unit) / (2 * unit)
}

/// Exactly the two zeros are zero, exactly the numbers above them are positive, and exactly the
/// largest exponent marks what is not finite.
pub proof fn law_classes_of_numbers(scalar: Scalar)
    ensures
        forall|zero: bool| #[trigger] call_ensures(Scalar::is_zero, (scalar,), zero) ==> zero == (
        scalar.bits == 0 || scalar.bits == 0x8000_0000_0000_0000),
        forall|one: bool| #[trigger] call_ensures(Scalar::is_one, (scalar,), one) ==> one == (
        scalar.bits == 0x3ff0_0000_0000_0000),
        forall|positive: bool| #[trigger]
            call_ensures(Scalar::is_positive, (scalar,), positive) ==> positive == (0
            < scalar.bits <= 0x7ff0_0000_0000_0000),
        forall|finite: bool| #[trigger]
            call_ensures(Scalar::is_finite, (scalar,), finite) ==> finite == (scalar.bits
            < 0x7ff0_0000_0000_0000 || 0x8000_0000_0000_0000 <= scalar.bits
            < 0xfff0_0000_0000_0000),
        forall|nan: bool| #[trigger] call_ensures(Scalar::is_nan, (scalar,), nan) ==> nan == (
        0x7ff0_0000_0000_0000 < scalar.bits < 0x8000_0000_0000_0000 || 0xfff0_0000_0000_0000
            < scalar.bits),
{
}

/// Equality of numbers is that of their bits, but that the two zeros are equal and a NaN equals
/// nothing; it does not depend on the order.
pub proof fn law_equality_of_numbers(a: Scalar, b: Scalar, equal: bool)
    requires
        call_ensures(Scalar::equals, (a, b), equal),
    ensures
        a.bits != b.bits && (a.bits != 0 && a.bits != 0x8000_0000_0000_0000) ==> !equal,
        a.bits != b.bits && (b.bits != 0 && b.bits != 0x8000_0000_0000_0000) ==> !equal,
        a.bits == b.bits && a.bits <= 0x7ff0_0000_0000_0000 ==> equal,
        a.bits == b.bits && 0x8000_0000_0000_0000 <= a.bits <= 0xfff0_0000_0000_0000 ==> equal,
        a.bits == 0 && b.bits == 0x8000_0000_0000_0000 ==> equal,
        a.bits == 0x8000_0000_0000_0000 && b.bits == 0 ==> equal,
        0x7ff0_0000_0000_0000 < a.bits < 0x8000_0000_0000_0000 ==> !equal,
        0xfff0_0000_0000_0000 < a.bits ==> !equal,
        equal == b.spec_equals(a),
{
}

/// Rounding a number of the form `(2^52 + fraction) * 2^-places` gives an integer at most one half
/// away from it, the greater of the two where it lies half way.
pub proof fn law_rounding_is_to_the_nearest(fraction: u64, places: nat, rounded: Option<i32>)
    requires
        fraction < 0x10_0000_0000_0000,
        22 <= places <= 1074,
        call_ensures(
            Scalar::round_to_i32,
            (Scalar { bits: ((1075 - places) * 0x10_0000_0000_0000 + fraction) as u64 },),
            rounded,
        ),
    ensures
        rounded matches Some(integer) ==> {
            let unit = pow2(places) as int;
            let significand = 0x10_0000_0000_0000 + fraction;
            &&& integer >= 0
            &&& -unit < 2 * (integer * unit) - 2 * significand <= unit
        },
        places > 22 ==> rounded is Some,
{
    let scalar = Scalar { bits: ((1075 - places) * 0x10_0000_0000_0000 + fraction) as u64 };
    lemma_decomposed(scalar, fraction, (1075 - places) as u64);
    let unit = pow2(places) as int;
    let significand = 0x10_0000_0000_0000 + fraction;
    let numerator = 2 * significand + unit;
    let quotient = numerator / (2 * unit);
    vstd::arithmetic::power2::lemma_pow2_pos(places);
    vstd::arithmetic::div_mod::lemma_fundamental_div_mod(numerator, 2 * unit);
    vstd::arithmetic::div_mod::lemma_mod_bound(numerator, 2 * unit);
    assert((2 * unit) * quotient == 2 * (quotient * unit)) by (nonlinear_arith);
    assert(quotient >= 0) by (nonlinear_arith)
        requires
            (2 * unit) * quotient > numerator - 2 * unit,
            numerator > 0,
            unit > 0,
    ;
    vstd::arithmetic::power2::lemma2_to64();
    if places > 22 {
        vstd::arithmetic::power2::lemma_pow2_strictly_increases(22, places);
        vstd::arithmetic::power2::lemma_pow2_unfold(23);
        if places > 23 {
            vstd::arithmetic::power2::lemma_pow2_strictly_increases(23, places);
        }
        assert(quotient <= 0x4000_0000) by (nonlinear_arith)
            requires
                (2 * unit) * quotient <= numerator,
                numerator < 0x40_0000_0000_0000 + unit,
                unit >= 0x80_0000,
        ;
    }
}

proof fn lemma_decomposed(scalar: Scalar, fraction: u64, exponent: u64)
    requires
        scalar.bits == exponent * 0x10_0000_0000_0000 + fraction,
        fraction < 0x10_0000_0000_0000,
        exponent < 2047,
    ensures
        !scalar.spec_is_negative(),
        scalar.spec_is_finite(),
        scalar.exponent() == exponent,
        scalar.fraction() == fraction,
{
    vstd::arithmetic::div_mod::lemma_fundamental_div_mod_converse(
        scalar.bits as int,
        0x10_0000_0000_0000,
        exponent as int,
        fraction as int,
    );
}

/// A number and its negative round to integers that are each other's negative.
pub proof fn law_rounding_is_odd(positive: Scalar, negative: Scalar)
    requires
        positive.bits < 0x8000_0000_0000_0000,
        negative.bits == positive.bits + 0x8000_0000_0000_0000,
    ensures
        negative.rounded() == -positive.rounded(),
        positive.rounded() >= 0,
{
    let places = (1075 - positive.exponent()) as nat;
    let unit = pow2(places) as int;
    let significand = 0x10_0000_0000_0000 + positive.fraction();
    if positive.exponent() >= 1075 {
        let scale = pow2((positive.exponent() - 1075) as nat) as int;
        vstd::arithmetic::power2::lemma_pow2_pos((positive.exponent() - 1075) as nat);
        assert(significand * scale >= 0) by (nonlinear_arith)
            requires
                significand >= 0,
                scale > 0,
        ;
    } else if positive.exponent() > 0 {
        vstd::arithmetic::power2::lemma_pow2_pos(places);
        vstd::arithmetic::div_mod::lemma_div_pos_is_pos(2 * significand + unit, 2 * unit);
    }
}

/// Numbers smaller than one half round to zero, and what is not finite to nothing.
pub proof fn law_rounding_of_small_and_infinite_numbers(scalar: Scalar, rounded: Option<i32>)
    requires
        call_ensures(Scalar::round_to_i32, (scalar,), rounded),
    ensures
        scalar.bits < 0x3fe0_0000_0000_0000 ==> rounded == Some(0i32),
        0x8000_0000_0000_0000 <= scalar.bits < 0xbfe0_0000_0000_0000 ==> rounded == Some(0i32),
        0x7ff0_0000_0000_0000 <= scalar.bits < 0x8000_0000_0000_0000 ==> rounded is None,
        0xfff0_0000_0000_0000 <= scalar.bits ==> rounded is None,
{
    let exponent = scalar.exponent();
    if 0 < exponent < 1022 {
        let places = (1075 - exponent) as nat;
        let unit = pow2(places) as int;
        let significand = 0x10_0000_0000_0000 + scalar.fraction();
        vstd::arithmetic::power2::lemma2_to64_rest();
        if places > 54 {
            vstd::arithmetic::power2::lemma_pow2_strictly_increases(54, places);
        }
        vstd::arithmetic::div_mod::lemma_fundamental_div_mod_converse(
            2 * significand + unit,
            2 * unit,
            0,
            2 * significand + unit,
        );
    }
}

} // verus!
