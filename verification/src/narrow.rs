//! Single-precision values as bit patterns, as they travel on the CAN bus.

use vstd::arithmetic::power2::pow2;
use vstd::prelude::*;

use crate::scalar::Scalar;

verus! {

/// An IEEE-754 binary32 value, held as its bit pattern.
///
/// Every finite binary32 value is a whole multiple of 2^-149, so its exact
/// meaning is an integer: [`Narrow::units`] is the value counted in units of
/// 2^-149.
#[derive(Copy, Clone, Debug, PartialEq, Eq, Structural)]
pub struct Narrow {
    pub bits: u32,
}

/// The biased exponent field of a binary32 pattern.
pub open spec fn narrow_exponent(bits: u32) -> int {
    (bits as int % 0x8000_0000) / 0x80_0000
}

/// The fraction field of a binary32 pattern.
pub open spec fn narrow_fraction(bits: u32) -> int {
    bits as int % 0x80_0000
}

/// The size of a binary32 pattern's value in units of 2^-149, the sign left
/// out.
pub open spec fn narrow_magnitude(bits: u32) -> int {
    if narrow_exponent(bits) == 0 {
        narrow_fraction(bits)
    } else {
        (0x80_0000 + narrow_fraction(bits)) * pow2((narrow_exponent(bits) - 1) as nat)
    }
}

impl Narrow {
    pub open spec fn signed(self) -> bool {
        self.bits >= 0x8000_0000
    }

    pub open spec fn finite(self) -> bool {
        narrow_exponent(self.bits) != 0xff
    }

    pub open spec fn nan(self) -> bool {
        narrow_exponent(self.bits) == 0xff && narrow_fraction(self.bits) != 0
    }

    /// The value in units of 2^-149. Meaningless unless finite.
    pub open spec fn units(self) -> int {
        if self.signed() {
            -narrow_magnitude(self.bits)
        } else {
            narrow_magnitude(self.bits)
        }
    }

    pub fn from_bits(bits: u32) -> (x: Narrow)
        ensures
            x.bits == bits,
    {
        Narrow { bits }
    }

    pub fn to_bits(self) -> (bits: u32)
        ensures
            bits == self.bits,
    {
        self.bits
    }

    pub fn is_finite(self) -> (b: bool)
        ensures
            b == self.finite(),
    {
        self.bits % 0x8000_0000 < 0x7f80_0000
    }

    /// Strictly below zero; false of both zeros. Meaningless for NaN.
    pub fn is_negative(self) -> (b: bool)
        ensures
            b == (self.units() < 0),
    {
        proof {
            lemma_magnitude_sign(self.bits);
        }
        self.bits > 0x8000_0000
    }

    /// The same value in double precision. Nothing is lost: one unit of
    /// 2^-149 is exactly 2^925 units of 2^-1074.
    pub fn widen(self) -> (x: Scalar)
        requires
            self.finite(),
        ensures
            x.finite(),
            x.units() == self.units() * pow2(925),
            x.signed() == self.signed(),
    {
        let sign: u64 = if self.bits >= 0x8000_0000 {
            0x8000_0000_0000_0000
        } else {
            0
        };
        let exponent: u64 = (self.bits % 0x8000_0000 / 0x80_0000) as u64;
        let fraction: u64 = (self.bits % 0x80_0000) as u64;
        proof {
            vstd::arithmetic::power2::lemma_pow2_pos(925);
        }
        if exponent == 0 {
            if fraction == 0 {
                let zero = Scalar { bits: sign };
                proof {
                    assert(crate::scalar::exponent_field(sign) == 0);
                    assert(crate::scalar::fraction_field(sign) == 0);
                    assert(self.units() == 0);
                    assert(0 * pow2(925) as int == 0);
                }
                return zero;
            }
            // Bring the leading one of a subnormal into place.
            let mut lead: u64 = fraction;
            let mut shift: u64 = 0;
            proof {
                vstd::arithmetic::power2::lemma2_to64();
            }
            while lead < 0x80_0000
                invariant
                    0 < fraction < 0x80_0000,
                    0 < lead < 0x100_0000,
                    shift <= 23,
                    lead == fraction * pow2(shift as nat),
                    lead >= pow2(shift as nat),
                decreases 0x100_0000 - lead,
            {
                proof {
                    vstd::arithmetic::power2::lemma_pow2_unfold((shift + 1) as nat);
                    let p = pow2(shift as nat) as int;
                    assert(2 * (fraction * p) == fraction * (2 * p)) by (nonlinear_arith);
                    vstd::arithmetic::power2::lemma2_to64();
                    if shift == 23 {
                        assert(false);
                    }
                }
                lead = lead * 2;
                shift = shift + 1;
            }
            let wide_exponent: u64 = 897 - shift;
            let wide_fraction: u64 = (lead - 0x80_0000) * 0x2000_0000;
            let bits: u64 = sign + wide_exponent * 0x10_0000_0000_0000 + wide_fraction;
            proof {
                lemma_assembled(sign, wide_exponent, wide_fraction);
                lemma_widened(lead as int, wide_exponent as int, fraction as int, shift as nat);
                lemma_signed_product(narrow_magnitude(self.bits), pow2(925) as int);
            }
            return Scalar { bits };
        }
        let wide_exponent: u64 = exponent + 896;
        let wide_fraction: u64 = fraction * 0x2000_0000;
        let bits: u64 = sign + wide_exponent * 0x10_0000_0000_0000 + wide_fraction;
        proof {
            lemma_assembled(sign, wide_exponent, wide_fraction);
            lemma_widened_normal(fraction as int, exponent as nat);
            lemma_signed_product(narrow_magnitude(self.bits), pow2(925) as int);
        }
        Scalar { bits }
    }
}

proof fn lemma_signed_product(m: int, k: int)
    ensures
        (-m) * k == -(m * k),
{
    assert((-m) * k == -(m * k)) by (nonlinear_arith);
}

proof fn lemma_magnitude_sign(bits: u32)
    ensures
        narrow_magnitude(bits) >= 0,
        narrow_magnitude(bits) == 0 <==> bits as int % 0x8000_0000 == 0,
{
    if narrow_exponent(bits) != 0 {
        let p = pow2((narrow_exponent(bits) - 1) as nat) as int;
        let f = narrow_fraction(bits);
        vstd::arithmetic::power2::lemma_pow2_pos((narrow_exponent(bits) - 1) as nat);
        assert((0x80_0000 + f) * p > 0) by (nonlinear_arith)
            requires
                f >= 0,
                p > 0,
        ;
    }
}

/// A pattern put together from its fields has those fields.
proof fn lemma_assembled(sign: u64, exponent: u64, fraction: u64)
    requires
        sign == 0 || sign == 0x8000_0000_0000_0000,
        exponent < 0x7ff,
        fraction < 0x10_0000_0000_0000,
    ensures
        ({
            let bits = (sign + exponent * 0x10_0000_0000_0000 + fraction) as u64;
            &&& sign + exponent * 0x10_0000_0000_0000 + fraction <= u64::MAX
            &&& crate::scalar::exponent_field(bits) == exponent
            &&& crate::scalar::fraction_field(bits) == fraction
            &&& (Scalar { bits }).signed() == (sign != 0)
        }),
{
    let bits = (sign + exponent * 0x10_0000_0000_0000 + fraction) as u64;
    assert(crate::scalar::low_bits(bits) == exponent * 0x10_0000_0000_0000 + fraction);
}

proof fn lemma_widened_normal(fraction: int, exponent: nat)
    requires
        1 <= exponent < 0xff,
    ensures
        (0x10_0000_0000_0000 + fraction * 0x2000_0000) * pow2((exponent + 895) as nat) == ((
        0x80_0000 + fraction) * pow2((exponent - 1) as nat)) * pow2(925),
{
    vstd::arithmetic::power2::lemma2_to64();
    vstd::arithmetic::power2::lemma_pow2_adds((exponent - 1) as nat, 925);
    vstd::arithmetic::power2::lemma_pow2_adds(29, (exponent + 895) as nat);
    let a = 0x80_0000 + fraction;
    let p = pow2((exponent - 1) as nat) as int;
    let q = pow2(925) as int;
    let r = pow2((exponent + 895) as nat) as int;
    assert(0x2000_0000 * r == p * q);
    assert(0x10_0000_0000_0000 + fraction * 0x2000_0000 == a * 0x2000_0000);
    assert((a * 0x2000_0000) * r == (a * p) * q) by (nonlinear_arith)
        requires
            0x2000_0000 * r == p * q,
    ;
}

proof fn lemma_widened(lead: int, wide_exponent: int, fraction: int, shift: nat)
    requires
        shift <= 23,
        wide_exponent == 897 - shift,
        lead == fraction * pow2(shift),
    ensures
        (0x10_0000_0000_0000 + (lead - 0x80_0000) * 0x2000_0000) * pow2(
            (wide_exponent - 1) as nat,
        ) == fraction * pow2(925),
{
    vstd::arithmetic::power2::lemma2_to64();
    let s = pow2(shift) as int;
    let r = pow2((896 - shift) as nat) as int;
    let q = pow2(925) as int;
    vstd::arithmetic::power2::lemma_pow2_adds(shift, (896 - shift) as nat);
    vstd::arithmetic::power2::lemma_pow2_adds(29, 896);
    assert(s * r == pow2(896));
    assert(0x2000_0000 * (s * r) == q);
    assert(0x10_0000_0000_0000 + (lead - 0x80_0000) * 0x2000_0000 == lead * 0x2000_0000);
    assert(((fraction * s) * 0x2000_0000) * r == fraction * (0x2000_0000 * (s * r)))
        by (nonlinear_arith);
}

/// The four bytes of a pattern, least significant first.
pub open spec fn le_bytes(x: Narrow) -> Seq<u8> {
    seq![
        (x.bits as int % 0x100) as u8,
        (x.bits as int / 0x100 % 0x100) as u8,
        (x.bits as int / 0x1_0000 % 0x100) as u8,
        (x.bits as int / 0x100_0000) as u8,
    ]
}

/// The pattern that four bytes spell, least significant first.
pub open spec fn from_le(b: Seq<u8>) -> Narrow {
    Narrow { bits: (b[0] + b[1] * 0x100 + b[2] * 0x1_0000 + b[3] * 0x100_0000) as u32 }
}

/// Reading the bytes of a value gives the value back.
pub proof fn le_bytes_round_trip(x: Narrow, b: Seq<u8>)
    requires
        b.len() == 4,
    ensures
        from_le(le_bytes(x)) == x,
        le_bytes(from_le(b)) == b,
{
    lemma_bytes_of_number(x.bits);
    lemma_number_of_bytes(b[0] as u32, b[1] as u32, b[2] as u32, b[3] as u32);
    assert(le_bytes(from_le(b)) == b);
}

proof fn lemma_bytes_of_number(n: u32)
    by (bit_vector)
    ensures
        n % 0x100 + (n / 0x100 % 0x100) * 0x100 + (n / 0x1_0000 % 0x100) * 0x1_0000 + (n
            / 0x100_0000) * 0x100_0000 == n,
        n % 0x100 < 0x100,
        n / 0x100_0000 < 0x100,
{
}

proof fn lemma_number_of_bytes(a: u32, b: u32, c: u32, d: u32)
    by (bit_vector)
    requires
        a < 0x100,
        b < 0x100,
        c < 0x100,
        d < 0x100,
    ensures
        a + b * 0x100 + c * 0x1_0000 + d * 0x100_0000 <= 0xffff_ffff,
        ((a + b * 0x100 + c * 0x1_0000 + d * 0x100_0000) as u32) % 0x100 == a,
        ((a + b * 0x100 + c * 0x1_0000 + d * 0x100_0000) as u32) / 0x100 % 0x100 == b,
        ((a + b * 0x100 + c * 0x1_0000 + d * 0x100_0000) as u32) / 0x1_0000 % 0x100 == c,
        ((a + b * 0x100 + c * 0x1_0000 + d * 0x100_0000) as u32) / 0x100_0000 == d,
{
}

/// The number a pattern spells is the sum of its bytes at their places, the
/// first byte the least significant; so it is for the pattern that bytes
/// spell, of which only the first four count.
pub proof fn bytes_stand_least_significant_first(x: Narrow, b: Seq<u8>)
    requires
        b.len() >= 4,
    ensures
        le_bytes(x).len() == 4,
        le_bytes(x)[0] + 0x100 * le_bytes(x)[1] + 0x1_0000 * le_bytes(x)[2] + 0x100_0000
            * le_bytes(x)[3] == x.bits,
        from_le(b).bits == b[0] + 0x100 * b[1] + 0x1_0000 * b[2] + 0x100_0000 * b[3],
{
    lemma_bytes_of_number(x.bits);
    lemma_number_of_bytes(b[0] as u32, b[1] as u32, b[2] as u32, b[3] as u32);
}

/// Which single-precision patterns are finite, NaN and negative, by the
/// pattern alone; the smallest patterns count single units.
pub proof fn narrow_classes(x: Narrow)
    ensures
        x.finite() <==> (x.bits as int % 0x8000_0000) < 0x7f80_0000,
        x.nan() <==> x.bits as int % 0x8000_0000 > 0x7f80_0000,
        x.units() < 0 <==> x.bits > 0x8000_0000,
        x.units() == 0 <==> x.bits == 0 || x.bits == 0x8000_0000,
        x.bits <= 0x80_0000 ==> x.units() == x.bits,
{
    vstd::arithmetic::power2::lemma2_to64();
    lemma_magnitude_sign(x.bits);
}

/// The next exponent up doubles a single-precision value.
pub proof fn narrow_exponent_doubles(x: Narrow, y: Narrow)
    requires
        0x80_0000 <= x.bits < 0x7f00_0000,
        y.bits == x.bits + 0x80_0000,
    ensures
        y.units() == 2 * x.units(),
{
    let e = narrow_exponent(x.bits);
    assert(narrow_exponent(y.bits) == e + 1);
    assert(narrow_fraction(y.bits) == narrow_fraction(x.bits));
    vstd::arithmetic::power2::lemma_pow2_unfold(e as nat);
    let m = 0x80_0000 + narrow_fraction(x.bits);
    let p = pow2((e - 1) as nat) as int;
    assert(m * (2 * p) == 2 * (m * p)) by (nonlinear_arith);
}

} // verus!
