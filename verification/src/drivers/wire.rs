//! The line framing shared by both directions of the actuator link: an XOR
//! checksum in upper-case hex behind a `*`, and decimal fields.

use vstd::prelude::*;

verus! {

pub const DOLLAR: u8 = 0x24;

pub const STAR: u8 = 0x2a;

pub const COMMA: u8 = 0x2c;

pub const CR: u8 = 0x0d;

pub const LF: u8 = 0x0a;

/// The XOR of all bytes.
pub open spec fn xor_fold(bytes: Seq<u8>) -> u8
    decreases bytes.len(),
{
    if bytes.len() == 0 {
        0
    } else {
        xor_fold(bytes.drop_last()) ^ bytes.last()
    }
}

/// A number's decimal digits, at least one.
pub open spec fn decimal(n: nat) -> Seq<u8>
    decreases n,
{
    if n < 10 {
        seq![(0x30 + n) as u8]
    } else {
        decimal(n / 10).push((0x30 + n % 10) as u8)
    }
}

/// The number a string of decimal digits stands for.
pub open spec fn decimal_value(digits: Seq<u8>) -> int
    decreases digits.len(),
{
    if digits.len() == 0 {
        0
    } else {
        decimal_value(digits.drop_last()) * 10 + (digits.last() - 0x30)
    }
}

/// The upper-case hex digit of a number below sixteen.
pub open spec fn hex_digit(n: int) -> u8 {
    if n < 10 {
        (0x30 + n) as u8
    } else {
        (0x41 + (n - 10)) as u8
    }
}

/// A byte as two upper-case hex digits.
pub open spec fn hex_byte(b: u8) -> Seq<u8> {
    seq![hex_digit(b as int / 16), hex_digit(b as int % 16)]
}

/// The number a hex digit of either case stands for, if it is one.
pub open spec fn hex_value(b: u8) -> Option<int> {
    if 0x30 <= b <= 0x39 {
        Some(b - 0x30)
    } else if 0x41 <= b <= 0x46 {
        Some(b - 0x41 + 10)
    } else if 0x61 <= b <= 0x66 {
        Some(b - 0x61 + 10)
    } else {
        None
    }
}

pub fn hex_val(b: u8) -> (v: Option<u8>)
    ensures
        match v {
            Some(n) => hex_value(b) == Some(n as int) && n < 16,
            None => hex_value(b) is None,
        },
{
    if 0x30 <= b && b <= 0x39 {
        Some(b - 0x30)
    } else if 0x41 <= b && b <= 0x46 {
        Some(b - 0x41 + 10)
    } else if 0x61 <= b && b <= 0x66 {
        Some(b - 0x61 + 10)
    } else {
        None
    }
}

pub fn xor_of(bytes: &[u8]) -> (x: u8)
    ensures
        x == xor_fold(bytes@),
{
    let mut x: u8 = 0;
    let mut i: usize = 0;
    while i < bytes.len()
        invariant
            i <= bytes@.len(),
            x == xor_fold(bytes@.take(i as int)),
        decreases bytes.len() - i,
    {
        x = x ^ bytes[i];
        proof {
            assert(bytes@.take(i + 1).drop_last() == bytes@.take(i as int));
        }
        i = i + 1;
    }
    proof {
        assert(bytes@.take(i as int) == bytes@);
    }
    x
}

/// Reading a number's digits gives the number back.
pub proof fn decimal_round_trips(n: nat)
    ensures
        decimal_value(decimal(n)) == n,
        forall|i: int| 0 <= i < decimal(n).len() ==> 0x30 <= #[trigger] decimal(n)[i] <= 0x39,
        decimal(n).len() >= 1,
        n <= 65535 ==> decimal(n).len() <= 5,
    decreases n,
{
    if n < 10 {
        assert(decimal(n).drop_last() == Seq::<u8>::empty());
        assert(decimal_value(Seq::<u8>::empty()) == 0);
    } else {
        decimal_round_trips(n / 10);
        assert(decimal(n).drop_last() == decimal(n / 10));
        if n <= 65535 {
            lemma_digit_count(n);
        }
    }
}

proof fn lemma_digit_count(n: nat)
    requires
        n <= 65535,
    ensures
        decimal(n).len() <= 5,
{
    reveal_with_fuel(decimal, 6);
}

/// Reading a byte's two hex digits gives the byte back.
pub proof fn hex_round_trips(b: u8)
    ensures
        hex_value(hex_byte(b)[0]) == Some(b as int / 16),
        hex_value(hex_byte(b)[1]) == Some(b as int % 16),
        b == (b as int / 16) * 16 + b as int % 16,
{
}

/// No decimal or hex digit is a framing byte.
pub proof fn digits_are_not_framing(b: u8)
    requires
        hex_value(b) is Some,
    ensures
        b != DOLLAR,
        b != STAR,
        b != COMMA,
        b != CR,
        b != LF,
{
}

/// The checksum of nothing is zero, of one byte that byte, of two parts the
/// XOR of theirs; so a single byte altered always alters it.
pub proof fn xor_fold_by_parts(a: Seq<u8>, b: Seq<u8>)
    ensures
        xor_fold(Seq::<u8>::empty()) == 0,
        a.len() == 1 ==> xor_fold(a) == a[0],
        xor_fold(a + b) == xor_fold(a) ^ xor_fold(b),
    decreases b.len(),
{
    if a.len() == 1 {
        let x = a[0];
        assert(a.drop_last() == Seq::<u8>::empty());
        assert(xor_fold(Seq::<u8>::empty()) == 0);
        assert(a.last() == x);
        assert(0u8 ^ x == x) by (bit_vector);
    }
    let x = xor_fold(a);
    if b.len() == 0 {
        assert(a + b == a);
        assert(x ^ 0u8 == x) by (bit_vector);
    } else {
        let y = xor_fold(b.drop_last());
        let z = b.last();
        assert((a + b).drop_last() == a + b.drop_last());
        xor_fold_by_parts(a, b.drop_last());
        assert((x ^ y) ^ z == x ^ (y ^ z)) by (bit_vector);
    }
}

/// The last digit of a number stands last, and the digits before it are those
/// of the number without it; a number below ten is one digit.
pub proof fn decimal_digit_by_digit(n: nat)
    ensures
        n < 10 ==> decimal(n) == seq![(0x30 + n) as u8],
        n >= 10 ==> decimal(n) == decimal(n / 10).push((0x30 + n % 10) as u8),
        decimal(n)[decimal(n).len() - 1] == 0x30 + n % 10,
        n > 0 ==> decimal(n)[0] != 0x30,
    decreases n,
{
    if n >= 10 {
        decimal_digit_by_digit(n / 10);
        decimal_round_trips(n / 10);
    }
}

/// The hex digits are `0` to `9` and `A` to `F` in order; reading takes lower
/// case too and nothing else; the high half of a byte is written first.
pub proof fn hex_digits_in_order(n: int, b: u8)
    ensures
        0 <= n < 10 ==> hex_digit(n) == 0x30 + n,
        10 <= n < 16 ==> hex_digit(n) == 0x41 + n - 10,
        hex_value(b) is Some <==> 0x30 <= b <= 0x39 || 0x41 <= b <= 0x46 || 0x61 <= b <= 0x66,
        0x30 <= b <= 0x39 ==> hex_value(b) == Some(b - 0x30),
        0x41 <= b <= 0x46 ==> hex_value(b) == Some(b - 0x41 + 10),
        0x61 <= b <= 0x66 ==> hex_value(b) == Some(b - 0x61 + 10),
        hex_byte(b).len() == 2,
        hex_byte(b)[0] == hex_digit(b as int / 16),
        hex_byte(b)[1] == hex_digit(b as int % 16),
{
}

} // verus!
