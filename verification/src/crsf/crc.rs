//! CRC8/DVB-S2 (poly `0xD5`, init `0x00`, no reflection): the checksum CRSF
//! frames carry over type+payload only, never address or length.

use vstd::prelude::*;

verus! {

/// A remainder multiplied by x, modulo the generator
/// x^8 + x^7 + x^6 + x^4 + x^2 + 1. Bit k is the coefficient of x^k.
pub open spec fn times_x(r: u8) -> u8 {
    if r & 0x80 != 0 {
        (r << 1) ^ 0xD5
    } else {
        r << 1
    }
}

/// A remainder multiplied by x^8, modulo the generator.
pub open spec fn times_x8(r: u8) -> u8 {
    times_x(times_x(times_x(times_x(times_x(times_x(times_x(times_x(r))))))))
}

/// The remainder of the message polynomial times x^8, modulo the generator;
/// the first byte holds the highest coefficients.
pub open spec fn crc(bytes: Seq<u8>) -> u8
    decreases bytes.len(),
{
    if bytes.len() == 0 {
        0
    } else {
        times_x8(crc(bytes.drop_last()) ^ bytes.last())
    }
}

pub fn crc8_dvb_s2(bytes: &[u8]) -> (r: u8)
    ensures
        r == crc(bytes@),
{
    let mut r: u8 = 0;
    let mut i: usize = 0;
    while i < bytes.len()
        invariant
            i <= bytes@.len(),
            r == crc(bytes@.take(i as int)),
        decreases bytes.len() - i,
    {
        let ghost before = r;
        r = r ^ bytes[i];
        let ghost start = r;
        let mut k: u8 = 0;
        while k < 8
            invariant
                k <= 8,
                r == times_x_repeated(start, k as nat),
            decreases 8 - k,
        {
            r = if r & 0x80 != 0 {
                (r << 1) ^ 0xD5
            } else {
                r << 1
            };
            k = k + 1;
        }
        proof {
            reveal_with_fuel(times_x_repeated, 9);
            assert(r == times_x8(start));
            assert(bytes@.take(i + 1).drop_last() == bytes@.take(i as int));
        }
        i = i + 1;
    }
    proof {
        assert(bytes@.take(i as int) == bytes@);
    }
    r
}

spec fn times_x_repeated(r: u8, n: nat) -> u8
    decreases n,
{
    if n == 0 {
        r
    } else {
        times_x(times_x_repeated(r, (n - 1) as nat))
    }
}

/// Multiplication by x^8 loses nothing: it maps zero to zero and different
/// remainders to different remainders.
proof fn lemma_times_x8_injective(a: u8, b: u8)
    ensures
        times_x8(0) == 0,
        times_x8(a) == times_x8(b) ==> a == b,
{
    lemma_times_x_injective(a, b);
    let a1 = times_x(a);
    let b1 = times_x(b);
    lemma_times_x_injective(a1, b1);
    let a2 = times_x(a1);
    let b2 = times_x(b1);
    lemma_times_x_injective(a2, b2);
    let a3 = times_x(a2);
    let b3 = times_x(b2);
    lemma_times_x_injective(a3, b3);
    let a4 = times_x(a3);
    let b4 = times_x(b3);
    lemma_times_x_injective(a4, b4);
    let a5 = times_x(a4);
    let b5 = times_x(b4);
    lemma_times_x_injective(a5, b5);
    let a6 = times_x(a5);
    let b6 = times_x(b5);
    lemma_times_x_injective(a6, b6);
    let a7 = times_x(a6);
    let b7 = times_x(b6);
    lemma_times_x_injective(a7, b7);
}

proof fn lemma_times_x_injective(a: u8, b: u8)
    by (bit_vector)
    ensures
        times_x(0) == 0,
        times_x(a) == times_x(b) ==> a == b,
{
}

/// Appending the checksum to a message leaves the remainder zero, and no
/// other appended byte does.
pub proof fn appended_crc_leaves_no_remainder(bytes: Seq<u8>, tail: u8)
    ensures
        crc(bytes.push(tail)) == 0 <==> tail == crc(bytes),
{
    let c = crc(bytes);
    assert(bytes.push(tail).drop_last() == bytes);
    lemma_times_x8_injective(c ^ tail, 0);
    assert(c ^ tail == 0 <==> c == tail) by (bit_vector);
}

/// A message with exactly one byte altered never keeps its checksum.
pub proof fn one_altered_byte_changes_the_crc(bytes: Seq<u8>, at: int, other: u8)
    requires
        0 <= at < bytes.len(),
        other != bytes[at],
    ensures
        crc(bytes.update(at, other)) != crc(bytes),
    decreases bytes.len(),
{
    let changed = bytes.update(at, other);
    let head = bytes.drop_last();
    let a = crc(head);
    let b = crc(changed.drop_last());
    if at == bytes.len() - 1 {
        assert(changed.drop_last() == head);
        let last = bytes.last();
        assert(a ^ last == a ^ other ==> last == other) by (bit_vector);
        lemma_times_x8_injective(a ^ last, a ^ other);
    } else {
        assert(changed.drop_last() == head.update(at, other));
        one_altered_byte_changes_the_crc(head, at, other);
        let last = bytes.last();
        assert(a ^ last == b ^ last ==> a == b) by (bit_vector);
        lemma_times_x8_injective(a ^ last, b ^ last);
    }
}

/// The checksum of one byte: that of 1 is the generator without its leading
/// term, 0xD5; doubling a byte doubles its checksum, reduced by the generator
/// where it overflows; and XORed bytes have XORed checksums.
pub proof fn one_byte_crc(a: u8, b: u8)
    ensures
        crc(seq![1u8]) == 0xD5,
        a < 128 ==> crc(seq![(2 * a) as u8]) == (if crc(seq![a]) < 128 {
            (2 * crc(seq![a])) as u8
        } else {
            ((2 * crc(seq![a]) - 256) as u8) ^ 0xD5
        }),
        crc(seq![a ^ b]) == crc(seq![a]) ^ crc(seq![b]),
{
    lemma_crc_of_one(1);
    lemma_crc_of_one(a);
    lemma_crc_of_one(b);
    lemma_crc_of_one(a ^ b);
    if a < 128 {
        lemma_crc_of_one((2 * a) as u8);
    }
    lemma_times_x8_of_xor(a, b);
    lemma_times_x_by_number(a, 0);
    lemma_times_x_by_number(times_x8(a), 0);
    assert(times_x8(times_x(a)) == times_x(times_x8(a)));
    assert(times_x8(1) == 0xD5) by {
        lemma_times_x_by_number(1, 0);
        lemma_times_x_by_number(2, 0);
        lemma_times_x_by_number(4, 0);
        lemma_times_x_by_number(8, 0);
        lemma_times_x_by_number(16, 0);
        lemma_times_x_by_number(32, 0);
        lemma_times_x_by_number(64, 0);
        lemma_times_x_by_number(128, 0);
        assert(0u8 ^ 0xD5u8 == 0xD5u8) by (bit_vector);
    }
}

/// A message's checksum is that of its last byte XORed into the checksum of
/// what comes before, taken as one byte.
pub proof fn crc_folds_from_the_front(bytes: Seq<u8>, next: u8)
    ensures
        crc(Seq::<u8>::empty()) == 0,
        crc(bytes.push(next)) == crc(seq![crc(bytes) ^ next]),
{
    assert(bytes.push(next).drop_last() == bytes);
    lemma_crc_of_one(crc(bytes) ^ next);
}

proof fn lemma_crc_of_one(a: u8)
    ensures
        crc(seq![a]) == times_x8(a),
{
    assert(seq![a].drop_last() == Seq::<u8>::empty());
    assert(crc(Seq::<u8>::empty()) == 0);
    assert(0u8 ^ a == a) by (bit_vector);
}

/// Multiplication by x by the number a remainder spells, and of XORed
/// remainders.
proof fn lemma_times_x_by_number(r: u8, other: u8)
    by (bit_vector)
    ensures
        r < 128 ==> times_x(r) == 2 * r,
        r >= 128 ==> times_x(r) == ((2 * r - 256) as u8) ^ 0xD5,
        times_x(r ^ other) == times_x(r) ^ times_x(other),
{
}

proof fn lemma_times_x8_of_xor(a: u8, b: u8)
    ensures
        times_x8(a ^ b) == times_x8(a) ^ times_x8(b),
{
    lemma_times_x_by_number(a, b);
    let a1 = times_x(a);
    let b1 = times_x(b);
    lemma_times_x_by_number(a1, b1);
    let a2 = times_x(a1);
    let b2 = times_x(b1);
    lemma_times_x_by_number(a2, b2);
    let a3 = times_x(a2);
    let b3 = times_x(b2);
    lemma_times_x_by_number(a3, b3);
    let a4 = times_x(a3);
    let b4 = times_x(b3);
    lemma_times_x_by_number(a4, b4);
    let a5 = times_x(a4);
    let b5 = times_x(b4);
    lemma_times_x_by_number(a5, b5);
    let a6 = times_x(a5);
    let b6 = times_x(b5);
    lemma_times_x_by_number(a6, b6);
    let a7 = times_x(a6);
    let b7 = times_x(b6);
    lemma_times_x_by_number(a7, b7);
}

} // verus!
