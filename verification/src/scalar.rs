//! Floating-point values as bit patterns, with an exact mathematical meaning.

use vstd::prelude::*;
use vstd::arithmetic::power2::pow2;

verus! {

/// An IEEE-754 binary64 value, held as its bit pattern.
///
/// Every finite binary64 value is a whole multiple of 2^-1074, so its exact
/// meaning is an integer: [`Scalar::units`] is the value counted in units of
/// 2^-1074. Infinity counts as the first step beyond the finite range,
/// 2^1024, which keeps the order of all non-NaN values exact.
#[derive(Copy, Clone, Debug)]
pub struct Scalar {
    pub bits: u64,
}

/// The bits of a binary64 pattern below the sign bit.
pub open spec fn low_bits(bits: u64) -> int {
    (bits as int) % 0x8000_0000_0000_0000
}

/// The biased exponent field of a binary64 pattern.
pub open spec fn exponent_field(bits: u64) -> int {
    low_bits(bits) / 0x10_0000_0000_0000
}

/// The fraction field of a binary64 pattern.
pub open spec fn fraction_field(bits: u64) -> int {
    (bits as int) % 0x10_0000_0000_0000
}

/// The size of a binary64 pattern's value in units of 2^-1074, the sign left
/// out: subnormals count their fraction, other values carry the implicit
/// leading bit and are scaled by the exponent.
pub open spec fn magnitude_units(bits: u64) -> int {
    if exponent_field(bits) == 0 {
        fraction_field(bits)
    } else {
        (0x10_0000_0000_0000 + fraction_field(bits)) * pow2((exponent_field(bits) - 1) as nat)
    }
}

impl Scalar {
    /// Whether the sign bit is set; true of -0 and of negative NaN patterns.
    pub open spec fn signed(self) -> bool {
        self.bits >= 0x8000_0000_0000_0000
    }

    pub open spec fn nan(self) -> bool {
        exponent_field(self.bits) == 0x7ff && fraction_field(self.bits) != 0
    }

    pub open spec fn finite(self) -> bool {
        exponent_field(self.bits) != 0x7ff
    }

    /// The value in units of 2^-1074. Meaningless for NaN.
    pub open spec fn units(self) -> int {
        if self.signed() {
            -magnitude_units(self.bits)
        } else {
            magnitude_units(self.bits)
        }
    }

    /// `self < other` as IEEE-754 has it: false when either is NaN.
    pub open spec fn less(self, other: Scalar) -> bool {
        !self.nan() && !other.nan() && self.units() < other.units()
    }

    /// `self <= other` as IEEE-754 has it: false when either is NaN.
    pub open spec fn at_most(self, other: Scalar) -> bool {
        !self.nan() && !other.nan() && self.units() <= other.units()
    }

    /// `self == other` as IEEE-754 has it: false when either is NaN, and the
    /// two zeros are equal.
    pub open spec fn same(self, other: Scalar) -> bool {
        !self.nan() && !other.nan() && self.units() == other.units()
    }
}

/// The value with its sign bit flipped.
pub open spec fn negated(x: Scalar) -> Scalar {
    Scalar {
        bits: if x.signed() {
            (x.bits - 0x8000_0000_0000_0000) as u64
        } else {
            (x.bits + 0x8000_0000_0000_0000) as u64
        },
    }
}

/// The smaller of two values; a NaN gives way to the other.
pub open spec fn lesser(a: Scalar, b: Scalar) -> Scalar {
    if a.nan() || b.less(a) {
        b
    } else {
        a
    }
}

/// The larger of two values; a NaN gives way to the other.
pub open spec fn greater(a: Scalar, b: Scalar) -> Scalar {
    if a.nan() || a.less(b) {
        b
    } else {
        a
    }
}

/// Below the sign bit the exponent and fraction fields make up the pattern.
proof fn lemma_fields(bits: u64)
    ensures
        0 <= fraction_field(bits) < 0x10_0000_0000_0000,
        0 <= exponent_field(bits) <= 0x7ff,
        low_bits(bits) == exponent_field(bits) * 0x10_0000_0000_0000 + fraction_field(bits),
{
}

/// Magnitudes order as the patterns below the sign bit do.
pub proof fn lemma_magnitude_order(a: u64, b: u64)
    ensures
        low_bits(a) < low_bits(b) <==> magnitude_units(a) < magnitude_units(b),
        low_bits(a) == low_bits(b) <==> magnitude_units(a) == magnitude_units(b),
        0 <= magnitude_units(a),
        magnitude_units(a) == 0 <==> low_bits(a) == 0,
{
    lemma_fields(a);
    lemma_fields(b);
    lemma_magnitude_rises(a, b);
    lemma_magnitude_rises(b, a);
    let zero = 0u64;
    lemma_magnitude_rises(zero, a);
    lemma_fields(zero);
}

proof fn lemma_magnitude_rises(a: u64, b: u64)
    ensures
        low_bits(a) < low_bits(b) ==> magnitude_units(a) < magnitude_units(b),
        low_bits(a) == low_bits(b) ==> magnitude_units(a) == magnitude_units(b),
{
    lemma_fields(a);
    lemma_fields(b);
    let ea = exponent_field(a);
    let eb = exponent_field(b);
    let fa = fraction_field(a);
    let fb = fraction_field(b);
    if low_bits(a) == low_bits(b) {
        assert(ea == eb && fa == fb);
    } else if low_bits(a) < low_bits(b) {
        assert(ea < eb || (ea == eb && fa < fb));
        if ea == eb {
            if ea > 0 {
                let p = pow2((ea - 1) as nat) as int;
                vstd::arithmetic::power2::lemma_pow2_pos((ea - 1) as nat);
                assert((0x10_0000_0000_0000 + fa) * p < (0x10_0000_0000_0000 + fb) * p)
                    by (nonlinear_arith)
                    requires
                        fa < fb,
                        p > 0,
                ;
            }
        } else {
            let q = pow2((eb - 1) as nat) as int;
            vstd::arithmetic::power2::lemma_pow2_pos((eb - 1) as nat);
            assert((0x10_0000_0000_0000 + fb) * q >= 0x10_0000_0000_0000 * q)
                by (nonlinear_arith)
                requires
                    fb >= 0,
                    q > 0,
            ;
            if ea == 0 {
                assert(0x10_0000_0000_0000 * q >= 0x10_0000_0000_0000) by (nonlinear_arith)
                    requires
                        q > 0,
                ;
            } else {
                let p = pow2((ea - 1) as nat) as int;
                vstd::arithmetic::power2::lemma_pow2_pos((ea - 1) as nat);
                vstd::arithmetic::power2::lemma_pow2_unfold(ea as nat);
                if ea < eb - 1 {
                    vstd::arithmetic::power2::lemma_pow2_strictly_increases(
                        ea as nat,
                        (eb - 1) as nat,
                    );
                }
                assert(q >= 2 * p);
                assert((0x10_0000_0000_0000 + fa) * p < 0x10_0000_0000_0000 * q)
                    by (nonlinear_arith)
                    requires
                        q >= 2 * p,
                        p > 0,
                        fa < 0x10_0000_0000_0000,
                ;
            }
        }
    }
}

impl Scalar {
    pub fn from_bits(bits: u64) -> (x: Scalar)
        ensures
            x.bits == bits,
    {
        Scalar { bits }
    }

    pub fn to_bits(self) -> (bits: u64)
        ensures
            bits == self.bits,
    {
        self.bits
    }

    /// Positive zero.
    pub fn zero() -> (x: Scalar)
        ensures
            x.bits == 0,
            x.finite(),
            !x.nan(),
            x.units() == 0,
    {
        Scalar { bits: 0 }
    }

    pub fn is_nan(self) -> (b: bool)
        ensures
            b == self.nan(),
    {
        let low: u64 = self.bits % 0x8000_0000_0000_0000;
        low > 0x7ff0_0000_0000_0000
    }

    pub fn is_finite(self) -> (b: bool)
        ensures
            b == self.finite(),
    {
        let low: u64 = self.bits % 0x8000_0000_0000_0000;
        low < 0x7ff0_0000_0000_0000
    }

    pub fn is_sign_negative(self) -> (b: bool)
        ensures
            b == self.signed(),
    {
        self.bits >= 0x8000_0000_0000_0000
    }

    /// `self < other`.
    pub fn lt(self, other: Scalar) -> (b: bool)
        ensures
            b == self.less(other),
    {
        if self.is_nan() || other.is_nan() {
            return false;
        }
        let a: u64 = self.bits % 0x8000_0000_0000_0000;
        let b: u64 = other.bits % 0x8000_0000_0000_0000;
        proof {
            lemma_magnitude_order(self.bits, other.bits);
            lemma_magnitude_order(other.bits, self.bits);
        }
        if self.is_sign_negative() {
            if other.is_sign_negative() {
                b < a
            } else {
                a > 0 || b > 0
            }
        } else if other.is_sign_negative() {
            false
        } else {
            a < b
        }
    }

    /// `self <= other`.
    pub fn le(self, other: Scalar) -> (b: bool)
        ensures
            b == self.at_most(other),
    {
        if self.is_nan() || other.is_nan() {
            return false;
        }
        !other.lt(self)
    }

    /// `self > other`.
    pub fn gt(self, other: Scalar) -> (b: bool)
        ensures
            b == other.less(self),
    {
        other.lt(self)
    }

    /// `self >= other`.
    pub fn ge(self, other: Scalar) -> (b: bool)
        ensures
            b == other.at_most(self),
    {
        other.le(self)
    }

    /// The value with its sign bit cleared.
    pub fn abs(self) -> (x: Scalar)
        ensures
            x.bits == low_bits(self.bits),
            x.nan() == self.nan(),
            x.finite() == self.finite(),
            x.units() == if self.units() < 0 {
                -self.units()
            } else {
                self.units()
            },
    {
        proof {
            lemma_magnitude_order(self.bits, self.bits);
            lemma_low_alone(self.bits);
        }
        Scalar { bits: self.bits % 0x8000_0000_0000_0000 }
    }

    /// The value with its sign bit flipped.
    pub fn neg(self) -> (x: Scalar)
        ensures
            x == negated(self),
            x.nan() == self.nan(),
            x.finite() == self.finite(),
            x.units() == -self.units(),
    {
        let low: u64 = self.bits % 0x8000_0000_0000_0000;
        let x = if self.is_sign_negative() {
            Scalar { bits: low }
        } else {
            Scalar { bits: low + 0x8000_0000_0000_0000 }
        };
        proof {
            lemma_same_low(self.bits, x.bits);
        }
        x
    }

    /// The smaller of two values; a NaN gives way to the other.
    pub fn min(self, other: Scalar) -> (x: Scalar)
        ensures
            x == lesser(self, other),
    {
        if self.is_nan() || other.lt(self) {
            other
        } else {
            self
        }
    }

    /// The larger of two values; a NaN gives way to the other.
    pub fn max(self, other: Scalar) -> (x: Scalar)
        ensures
            x == greater(self, other),
    {
        if self.is_nan() || other.gt(self) {
            other
        } else {
            self
        }
    }

    /// The value held within `lo..=hi`; NaN stays NaN.
    pub fn clamp(self, lo: Scalar, hi: Scalar) -> (x: Scalar)
        ensures
            x == if self.less(lo) {
                lo
            } else if hi.less(self) {
                hi
            } else {
                self
            },
    {
        if self.lt(lo) {
            lo
        } else if self.gt(hi) {
            hi
        } else {
            self
        }
    }
}

/// IEEE-754 equality: NaN equals nothing and the two zeros are equal.
impl PartialEq for Scalar {
    fn eq(&self, other: &Scalar) -> (b: bool) {
        self.le(*other) && other.le(*self)
    }
}

impl vstd::std_specs::cmp::PartialEqSpecImpl for Scalar {
    open spec fn obeys_eq_spec() -> bool {
        true
    }

    open spec fn eq_spec(&self, other: &Scalar) -> bool {
        self.same(*other)
    }
}

/// Positive zero, the filler value of fixed-capacity storage.
impl Default for Scalar {
    fn default() -> (x: Scalar)
        ensures
            x.bits == 0,
    {
        Scalar { bits: 0 }
    }
}

/// The fields of a pattern do not depend on its sign bit.
proof fn lemma_same_low(a: u64, b: u64)
    requires
        low_bits(a) == low_bits(b),
    ensures
        exponent_field(a) == exponent_field(b),
        fraction_field(a) == fraction_field(b),
        magnitude_units(a) == magnitude_units(b),
{
    lemma_fields(a);
    lemma_fields(b);
}

proof fn lemma_low_alone(bits: u64)
    ensures
        low_bits(low_bits(bits) as u64) == low_bits(bits),
        exponent_field(low_bits(bits) as u64) == exponent_field(bits),
        fraction_field(low_bits(bits) as u64) == fraction_field(bits),
        magnitude_units(low_bits(bits) as u64) == magnitude_units(bits),
{
    lemma_same_low(low_bits(bits) as u64, bits);
}

/// A value below another is not at or above it, values that are not NaN are
/// always comparable, and NaN is below, above and equal to nothing.
pub proof fn order_is_total_without_nan(a: Scalar, b: Scalar)
    ensures
        a.less(b) ==> !b.at_most(a),
        !a.nan() && !b.nan() ==> (a.less(b) || a.same(b) || b.less(a)),
        a.nan() || b.nan() ==> !a.less(b) && !a.at_most(b) && !a.same(b),
{
}

/// Flipping the sign bit negates the value and leaves NaN and finiteness as
/// they are.
pub proof fn negation_is_exact(x: Scalar)
    ensures
        negated(x).units() == -x.units(),
        negated(x).nan() == x.nan(),
        negated(x).finite() == x.finite(),
        negated(negated(x)) == x,
{
    lemma_same_low(x.bits, negated(x).bits);
}

/// Every finite value lies strictly between the two infinities.
pub proof fn finite_is_within_infinities(x: Scalar, inf: Scalar)
    requires
        x.finite(),
        inf.bits == 0x7ff0_0000_0000_0000,
    ensures
        x.less(inf),
        -inf.units() < x.units(),
{
    lemma_magnitude_order(x.bits, inf.bits);
    lemma_fields(x.bits);
}

/// The exact value of a pattern, measured against one: a normal pattern with
/// exponent field `e` stands for its 53-bit significand `m` over `q`, which is
/// `2^(1075 - e)`.
pub proof fn pattern_value(bits: u64, place: nat, m: int, q: int)
    requires
        1 <= exponent_field(bits),
        exponent_field(bits) - 1 + place == 1074,
        m == 0x10_0000_0000_0000 + fraction_field(bits),
        q == pow2(place),
    ensures
        magnitude_units(bits) * q == m * pow2(1074),
        pow2(1074) > 0,
{
    let e = (exponent_field(bits) - 1) as nat;
    let p = pow2(e) as int;
    vstd::arithmetic::power2::lemma_pow2_adds(e, place);
    vstd::arithmetic::power2::lemma_pow2_pos(1074);
    assert((m * p) * q == m * (p * q)) by (nonlinear_arith);
}

/// Which patterns are NaN, infinite, finite and negative, by the pattern
/// alone.
pub proof fn pattern_classes(x: Scalar)
    ensures
        x.nan() <==> x.bits as int % 0x8000_0000_0000_0000 > 0x7ff0_0000_0000_0000,
        x.finite() <==> (x.bits as int % 0x8000_0000_0000_0000) < 0x7ff0_0000_0000_0000,
        x.signed() <==> x.bits >= 0x8000_0000_0000_0000,
        x.bits == 0 || x.bits == 0x8000_0000_0000_0000 ==> x.units() == 0,
        !x.signed() && x.bits > 0 ==> x.units() > 0,
        x.signed() && x.bits > 0x8000_0000_0000_0000 ==> x.units() < 0,
{
    lemma_fields(x.bits);
    lemma_magnitude_order(x.bits, x.bits);
}

/// The next exponent up doubles a value, and the smallest patterns count
/// single units.
pub proof fn exponent_doubles(x: Scalar, y: Scalar)
    requires
        x.bits < 0x7fd0_0000_0000_0000,
    ensures
        x.bits >= 0x10_0000_0000_0000 && y.bits == x.bits + 0x10_0000_0000_0000 ==> y.units() == 2
            * x.units(),
        x.bits <= 0x10_0000_0000_0000 ==> x.units() == x.bits,
{
    lemma_fields(x.bits);
    lemma_fields(y.bits);
    vstd::arithmetic::power2::lemma2_to64();
    if x.bits < 0x10_0000_0000_0000 {
        assert(exponent_field(x.bits) == 0);
    } else if x.bits == 0x10_0000_0000_0000 {
        assert(exponent_field(x.bits) == 1);
        assert(fraction_field(x.bits) == 0);
        assert(pow2(0) == 1);
    }
    if x.bits >= 0x10_0000_0000_0000 && y.bits == x.bits + 0x10_0000_0000_0000 {
        let e = exponent_field(x.bits);
        assert(exponent_field(y.bits) == e + 1);
        assert(fraction_field(y.bits) == fraction_field(x.bits));
        vstd::arithmetic::power2::lemma_pow2_unfold(e as nat);
        let m = 0x10_0000_0000_0000 + fraction_field(x.bits);
        let p = pow2((e - 1) as nat) as int;
        assert(m * (2 * p) == 2 * (m * p)) by (nonlinear_arith);
    }
}

/// The smaller of two values is one of them and above neither, the larger one
/// of them and below neither, and a NaN gives way to the other.
pub proof fn lesser_and_greater_pick(a: Scalar, b: Scalar)
    ensures
        lesser(a, b) == a || lesser(a, b) == b,
        greater(a, b) == a || greater(a, b) == b,
        !a.nan() && !b.nan() ==> {
            &&& lesser(a, b).units() <= a.units() && lesser(a, b).units() <= b.units()
            &&& greater(a, b).units() >= a.units() && greater(a, b).units() >= b.units()
        },
        a.nan() ==> lesser(a, b) == b && greater(a, b) == b,
        b.nan() ==> lesser(a, b) == a && greater(a, b) == a || a.nan(),
{
}

} // verus!
