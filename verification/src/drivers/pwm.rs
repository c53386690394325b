//! PWM calibration: from a physical output to a pulse width.
//!
//! Calibration is piecewise linear: zero maps to the center, the positive and
//! negative full outputs to the two endpoints. Which piece applies, the exact
//! answers at the center and at the stops, and the rounding of everything in
//! between are decided here; the interpolation itself is the host's.

use vstd::arithmetic::power2::pow2;
use vstd::prelude::*;

use crate::scalar::Scalar;

verus! {

/// One wire channel's calibration plus the effector's physical limits.
#[derive(Copy, Clone, Debug, PartialEq)]
pub struct PwmChannel {
    /// Index into the allocator's per-effector `values` this channel reads.
    pub effector_index: usize,
    pub us_min: u16,
    pub us_center: u16,
    pub us_max: u16,
    /// Swaps which endpoint the positive and negative physical outputs map to.
    pub reversed: bool,
    /// Physical output at the positive endpoint (thrust N or angle rad).
    pub max_pos: Scalar,
    /// Physical output magnitude at the negative endpoint (before `reversed`).
    pub max_neg: Scalar,
}

/// Filler for fixed-capacity storage; the values carry no meaning.
impl Default for PwmChannel {
    fn default() -> (c: PwmChannel)
        ensures
            c.effector_index == 0,
            c.us_min == 0 && c.us_center == 0 && c.us_max == 0,
            !c.reversed,
            c.max_pos.bits == 0 && c.max_neg.bits == 0,
    {
        PwmChannel {
            effector_index: 0,
            us_min: 0,
            us_center: 0,
            us_max: 0,
            reversed: false,
            max_pos: Scalar::zero(),
            max_neg: Scalar::zero(),
        }
    }
}

impl PwmChannel {
    /// The endpoints are in order; a calibration without that has no pulse
    /// width to clamp to.
    pub open spec fn calibrated(self) -> bool {
        self.us_min <= self.us_max
    }

    /// The endpoint of positive outputs.
    pub open spec fn high_us(self) -> u16 {
        if self.reversed {
            self.us_min
        } else {
            self.us_max
        }
    }

    /// The endpoint of negative outputs.
    pub open spec fn low_us(self) -> u16 {
        if self.reversed {
            self.us_max
        } else {
            self.us_min
        }
    }
}

/// Where a physical output stands on a channel's calibration.
#[derive(Copy, Clone, Debug, PartialEq)]
pub enum Drive {
    /// At the center: zero output, or no reach on that side.
    Center,
    /// At an endpoint: the output is at or beyond the full one.
    Stop { us: u16 },
    /// In between: `us_center + (magnitude / full) * (endpoint_us -
    /// us_center)`, for the host to work out.
    Partway { endpoint_us: u16, magnitude: Scalar, full: Scalar },
}

/// Where `magnitude` out of `full` stands on the way to an endpoint.
pub open spec fn stand(magnitude: Scalar, full: Scalar, endpoint_us: u16) -> Drive {
    if full.nan() || full.units() <= 0 || (!magnitude.nan() && magnitude.units() == 0) {
        Drive::Center
    } else if full.finite() && full.at_most(magnitude) {
        Drive::Stop { us: endpoint_us }
    } else {
        Drive::Partway { endpoint_us, magnitude, full }
    }
}

/// Where `value` stands on a channel's calibration. NaN counts as negative.
pub open spec fn drive_of(ch: PwmChannel, value: Scalar) -> Drive {
    if !value.nan() && value.units() >= 0 {
        stand(value, ch.max_pos, ch.high_us())
    } else {
        stand(crate::scalar::negated(value), ch.max_neg, ch.low_us())
    }
}

fn stand_at(magnitude: Scalar, full: Scalar, endpoint_us: u16) -> (d: Drive)
    ensures
        d == stand(magnitude, full, endpoint_us),
{
    if !full.gt(Scalar::zero()) || magnitude == Scalar::zero() {
        Drive::Center
    } else if full.is_finite() && full.le(magnitude) {
        Drive::Stop { us: endpoint_us }
    } else {
        Drive::Partway { endpoint_us, magnitude, full }
    }
}

/// Where `value` stands on a channel's calibration.
pub fn drive(ch: &PwmChannel, value: Scalar) -> (d: Drive)
    ensures
        d == drive_of(*ch, value),
{
    let (low_us, high_us) = if ch.reversed {
        (ch.us_max, ch.us_min)
    } else {
        (ch.us_min, ch.us_max)
    };
    if value.ge(Scalar::zero()) {
        stand_at(value, ch.max_pos, high_us)
    } else {
        stand_at(value.neg(), ch.max_neg, low_us)
    }
}

/// The whole number nearest to a value, halves rounded up.
pub open spec fn nearest(x: Scalar) -> int {
    (2 * x.units() + pow2(1074)) / pow2(1075) as int
}

/// `n` held within `lo..=hi`.
pub open spec fn held(n: int, lo: u16, hi: u16) -> int {
    if n < lo {
        lo as int
    } else if n > hi {
        hi as int
    } else {
        n
    }
}

/// The pulse width of a channel at its center.
pub open spec fn center_pulse(ch: PwmChannel) -> int {
    held(ch.us_center as int, ch.us_min, ch.us_max)
}

/// The pulse width of a drive, given the host's interpolation `raw_us` where
/// there is one: rounded to the nearest microsecond and held within the
/// calibrated range. A NaN interpolation has no nearest microsecond and leaves
/// the channel at its center.
pub open spec fn pulse(ch: PwmChannel, d: Drive, raw_us: Scalar) -> int {
    match d {
        Drive::Center => center_pulse(ch),
        Drive::Stop { us } => us as int,
        Drive::Partway { .. } => if raw_us.nan() {
            center_pulse(ch)
        } else {
            held(nearest(raw_us), ch.us_min, ch.us_max)
        },
    }
}

/// `(a * k) / (b * k) == a / b` for a positive factor.
proof fn lemma_cancel(a: int, b: int, k: int)
    requires
        a >= 0,
        b > 0,
        k > 0,
    ensures
        (a * k) / (b * k) == a / b,
{
    assert(a * k >= 0) by (nonlinear_arith)
        requires
            a >= 0,
            k > 0,
    ;
    vstd::arithmetic::div_mod::lemma_div_denominator(a * k, k, b);
    vstd::arithmetic::mul::lemma_mul_is_commutative(b, k);
    vstd::arithmetic::div_mod::lemma_div_multiples_vanish(a, k);
    vstd::arithmetic::mul::lemma_mul_is_commutative(a, k);
}

/// The nearest whole number of a value `m * 2^-s`, computed on its
/// significand.
proof fn lemma_nearest(x: Scalar, m: int, s: nat)
    requires
        m >= 0,
        1 <= s <= 1074,
        x.units() == m * pow2((1074 - s) as nat),
    ensures
        nearest(x) == (m + pow2((s - 1) as nat)) / pow2(s) as int,
{
    let k = pow2((1075 - s) as nat) as int;
    let u = pow2((1074 - s) as nat) as int;
    vstd::arithmetic::power2::lemma_pow2_pos((1075 - s) as nat);
    vstd::arithmetic::power2::lemma_pow2_pos(s);
    vstd::arithmetic::power2::lemma_pow2_unfold((1075 - s) as nat);
    assert(k == 2 * u);
    vstd::arithmetic::power2::lemma_pow2_adds((s - 1) as nat, (1075 - s) as nat);
    vstd::arithmetic::power2::lemma_pow2_adds(s, (1075 - s) as nat);
    assert(2 * (m * u) == m * k) by (nonlinear_arith)
        requires
            k == 2 * u,
    ;
    let h = pow2((s - 1) as nat) as int;
    assert((m + h) * k == m * k + h * k) by (nonlinear_arith);
    lemma_cancel(m + h, pow2(s) as int, k);
}

/// A power of two by its pattern: exponent `e`, fraction zero.
proof fn lemma_power_of_two(e: nat)
    requires
        1 <= e < 0x7ff,
    ensures
        crate::scalar::magnitude_units((e * 0x10_0000_0000_0000) as u64) == pow2(e + 51),
        crate::scalar::low_bits((e * 0x10_0000_0000_0000) as u64) == e * 0x10_0000_0000_0000,
{
    let bits = (e * 0x10_0000_0000_0000) as u64;
    vstd::arithmetic::power2::lemma2_to64_rest();
    assert(crate::scalar::exponent_field(bits) == e);
    assert(crate::scalar::fraction_field(bits) == 0);
    vstd::arithmetic::power2::lemma_pow2_adds(52, (e - 1) as nat);
}

/// A value below one half rounds to zero or less.
proof fn lemma_below_half(x: Scalar)
    requires
        x.signed() || x.bits < 1022 * 0x10_0000_0000_0000,
    ensures
        nearest(x) <= 0,
{
    let half = (1022 * 0x10_0000_0000_0000) as u64;
    lemma_power_of_two(1022);
    crate::scalar::lemma_magnitude_order(x.bits, half);
    vstd::arithmetic::power2::lemma_pow2_pos(1073);
    vstd::arithmetic::power2::lemma_pow2_unfold(1074);
    vstd::arithmetic::power2::lemma_pow2_unfold(1075);
    let q = pow2(1075) as int;
    let t = 2 * x.units() + pow2(1074);
    assert(t < q);
    if nearest(x) >= 1 {
        vstd::arithmetic::div_mod::lemma_fundamental_div_mod(t, q);
        let n = nearest(x);
        assert(q * n >= q) by (nonlinear_arith)
            requires
                n >= 1,
                q > 0,
        ;
    }
}

/// A value of 65536 or more rounds beyond every u16.
proof fn lemma_beyond_u16(x: Scalar)
    requires
        !x.signed(),
        x.bits >= 1039 * 0x10_0000_0000_0000,
    ensures
        nearest(x) > 65535,
{
    let bound = (1039 * 0x10_0000_0000_0000) as u64;
    lemma_power_of_two(1039);
    crate::scalar::lemma_magnitude_order(bound, x.bits);
    vstd::arithmetic::power2::lemma2_to64();
    vstd::arithmetic::power2::lemma_pow2_unfold(1091);
    vstd::arithmetic::power2::lemma_pow2_adds(16, 1075);
    vstd::arithmetic::power2::lemma_pow2_pos(1074);
    vstd::arithmetic::power2::lemma_pow2_pos(1075);
    let q = pow2(1075) as int;
    let t = 2 * x.units() + pow2(1074);
    assert(t >= 65536 * q);
    vstd::arithmetic::div_mod::lemma_div_is_ordered(65536 * q, t, q);
    vstd::arithmetic::div_mod::lemma_div_by_multiple(65536, q);
}

/// The whole microsecond nearest to a value that is not NaN, held within
/// `lo..=hi`.
fn nearest_held(x: Scalar, lo: u16, hi: u16) -> (us: u16)
    requires
        !x.nan(),
        lo <= hi,
    ensures
        us == held(nearest(x), lo, hi),
{
    if x.is_sign_negative() {
        proof {
            lemma_below_half(x);
        }
        return lo;
    }
    let exponent: u64 = x.bits / 0x10_0000_0000_0000;
    let fraction: u64 = x.bits % 0x10_0000_0000_0000;
    if exponent < 1022 {
        // Below one half.
        proof {
            lemma_below_half(x);
        }
        return lo;
    }
    if exponent >= 1039 {
        // 65536 and above.
        proof {
            lemma_beyond_u16(x);
        }
        return hi;
    }
    let significand: u64 = 0x10_0000_0000_0000 + fraction;
    let shift: u64 = 1075 - exponent;
    let below: u64 = shift - 1;
    let half: u64 = 1u64 << below;
    proof {
        assert(1u64 << below <= 0x10_0000_0000_0000) by (bit_vector)
            requires
                below <= 52,
        ;
    }
    let rounded: u64 = (significand + half) >> shift;
    proof {
        assert(crate::scalar::exponent_field(x.bits) == exponent);
        assert(crate::scalar::fraction_field(x.bits) == fraction);
        assert(x.units() == significand * pow2((exponent - 1) as nat));
        lemma_nearest(x, significand as int, shift as nat);
        vstd::bits::lemma_u64_pow2_no_overflow(below as nat);
        vstd::bits::lemma_u64_shl_is_mul(1, below);
        vstd::bits::lemma_u64_shr_is_div((significand + half) as u64, shift);
    }
    if rounded < lo as u64 {
        lo
    } else if rounded > hi as u64 {
        hi
    } else {
        rounded as u16
    }
}

fn center_held(ch: &PwmChannel) -> (us: u16)
    ensures
        us == center_pulse(*ch),
{
    if ch.us_center < ch.us_min {
        ch.us_min
    } else if ch.us_center > ch.us_max {
        ch.us_max
    } else {
        ch.us_center
    }
}

/// The pulse width of a drive. `raw_us` is the host's interpolation, read only
/// for a drive that is partway.
pub fn settle(ch: &PwmChannel, d: Drive, raw_us: Scalar) -> (us: u16)
    requires
        ch.calibrated(),
    ensures
        us == pulse(*ch, d, raw_us),
{
    match d {
        Drive::Center => center_held(ch),
        Drive::Stop { us } => us,
        Drive::Partway { .. } => if raw_us.is_nan() {
            center_held(ch)
        } else {
            nearest_held(raw_us, ch.us_min, ch.us_max)
        },
    }
}

/// Whatever the output and the interpolation, a rendered pulse width stays
/// within the calibrated range.
pub proof fn pulse_stays_calibrated(ch: PwmChannel, value: Scalar, raw_us: Scalar)
    requires
        ch.calibrated(),
    ensures
        ch.us_min <= pulse(ch, drive_of(ch, value), raw_us) <= ch.us_max,
{
}

/// Zero output renders the center; the full output of either side, and
/// anything beyond it, renders that side's endpoint; reversing a channel swaps
/// the endpoints.
pub proof fn calibration_points(ch: PwmChannel, value: Scalar, raw_us: Scalar)
    requires
        ch.us_min <= ch.us_center <= ch.us_max,
        !value.nan(),
        ch.max_pos.finite() && ch.max_pos.units() > 0,
        ch.max_neg.finite() && ch.max_neg.units() > 0,
    ensures
        value.units() == 0 ==> pulse(ch, drive_of(ch, value), raw_us) == ch.us_center,
        value.units() >= ch.max_pos.units() ==> pulse(ch, drive_of(ch, value), raw_us)
            == ch.high_us(),
        value.units() <= -ch.max_neg.units() ==> pulse(ch, drive_of(ch, value), raw_us)
            == ch.low_us(),
        (PwmChannel { reversed: !ch.reversed, ..ch }).high_us() == ch.low_us(),
{
    crate::scalar::negation_is_exact(value);
}

/// The pulse width never falls as the interpolation rises.
pub proof fn pulse_rises_with_interpolation(ch: PwmChannel, d: Drive, a: Scalar, b: Scalar)
    requires
        ch.calibrated(),
        a.at_most(b),
    ensures
        pulse(ch, d, a) <= pulse(ch, d, b),
{
    lemma_nearest_rises(a.units(), b.units());
}

/// `n` whole microseconds in the units of a [`Scalar`].
pub open spec fn whole_us(n: u16) -> int {
    n * pow2(1074)
}

/// An interpolation keeps to its piece of the calibration: it lies between the
/// center and the endpoint that the drive is on the way to, both included.
pub open spec fn on_piece(ch: PwmChannel, d: Drive, raw_us: Scalar) -> bool {
    d matches Drive::Partway { endpoint_us, .. } ==> {
        &&& !raw_us.nan()
        &&& whole_us(ch.us_center) <= raw_us.units() <= whole_us(endpoint_us) || whole_us(
            endpoint_us,
        ) <= raw_us.units() <= whole_us(ch.us_center)
    }
}

/// Rounding keeps the order of values.
proof fn lemma_nearest_rises(a: int, b: int)
    requires
        a <= b,
    ensures
        (2 * a + pow2(1074)) / pow2(1075) as int <= (2 * b + pow2(1074)) / pow2(1075) as int,
{
    vstd::arithmetic::power2::lemma_pow2_pos(1075);
    vstd::arithmetic::div_mod::lemma_div_is_ordered(
        2 * a + pow2(1074),
        2 * b + pow2(1074),
        pow2(1075) as int,
    );
}

/// Rounding leaves whole numbers as they are.
proof fn lemma_nearest_whole(n: u16)
    ensures
        (2 * whole_us(n) + pow2(1074)) / pow2(1075) as int == n,
{
    let h = pow2(1074) as int;
    let q = pow2(1075) as int;
    vstd::arithmetic::power2::lemma_pow2_pos(1074);
    vstd::arithmetic::power2::lemma_pow2_unfold(1075);
    assert(2 * (n * h) == n * q) by (nonlinear_arith)
        requires
            q == 2 * h,
    ;
    vstd::arithmetic::div_mod::lemma_fundamental_div_mod_converse(
        2 * whole_us(n) + h,
        q,
        n as int,
        h,
    );
}

/// An interpolation that keeps to its piece rounds to a pulse width on that
/// piece.
proof fn lemma_pulse_on_piece(ch: PwmChannel, d: Drive, raw_us: Scalar)
    requires
        ch.us_min <= ch.us_center <= ch.us_max,
        on_piece(ch, d, raw_us),
        d matches Drive::Partway { endpoint_us, .. } ==> ch.us_min <= endpoint_us <= ch.us_max,
    ensures
        d matches Drive::Partway { endpoint_us, .. } ==> ({
            let us = pulse(ch, d, raw_us);
            ch.us_center <= us <= endpoint_us || endpoint_us <= us <= ch.us_center
        }),
{
    if let Drive::Partway { endpoint_us, .. } = d {
        let c = whole_us(ch.us_center);
        let e = whole_us(endpoint_us);
        lemma_nearest_whole(ch.us_center);
        lemma_nearest_whole(endpoint_us);
        if c <= raw_us.units() {
            lemma_nearest_rises(c, raw_us.units());
        } else {
            lemma_nearest_rises(raw_us.units(), c);
        }
        if e <= raw_us.units() {
            lemma_nearest_rises(e, raw_us.units());
        } else {
            lemma_nearest_rises(raw_us.units(), e);
        }
    }
}

/// The pulse width never falls as the output rises, and never rises where the
/// channel is reversed, as long as the interpolations keep to their pieces and
/// rise, or fall, with the output themselves.
pub proof fn pulse_follows_output(
    ch: PwmChannel,
    v: Scalar,
    w: Scalar,
    raw_v: Scalar,
    raw_w: Scalar,
)
    requires
        ch.us_min <= ch.us_center <= ch.us_max,
        !ch.max_pos.nan() && ch.max_pos.units() > 0,
        !ch.max_neg.nan() && ch.max_neg.units() > 0,
        v.at_most(w),
        on_piece(ch, drive_of(ch, v), raw_v),
        on_piece(ch, drive_of(ch, w), raw_w),
        drive_of(ch, v) is Partway && drive_of(ch, w) is Partway ==> if ch.reversed {
            raw_w.at_most(raw_v)
        } else {
            raw_v.at_most(raw_w)
        },
    ensures
        !ch.reversed ==> pulse(ch, drive_of(ch, v), raw_v) <= pulse(ch, drive_of(ch, w), raw_w),
        ch.reversed ==> pulse(ch, drive_of(ch, v), raw_v) >= pulse(ch, drive_of(ch, w), raw_w),
{
    let dv = drive_of(ch, v);
    let dw = drive_of(ch, w);
    crate::scalar::negation_is_exact(v);
    crate::scalar::negation_is_exact(w);
    lemma_pulse_on_piece(ch, dv, raw_v);
    lemma_pulse_on_piece(ch, dw, raw_w);
    if dv is Partway && dw is Partway {
        if ch.reversed {
            lemma_nearest_rises(raw_w.units(), raw_v.units());
        } else {
            lemma_nearest_rises(raw_v.units(), raw_w.units());
        }
    }
}

/// Where an output stands, by the channel's own fields. Zero stands at the
/// center, and so does any output on a side without reach. Between zero and
/// the full output of its side it is partway to that side's endpoint, with its
/// own size out of that side's full output; from the full output on it is at
/// the endpoint. Positive outputs go to `us_max` and negative ones to `us_min`,
/// the other way round where the channel is reversed.
pub proof fn output_stands_by_the_channel_fields(ch: PwmChannel, value: Scalar)
    requires
        !value.nan(),
    ensures
        ({
            let ahead_us = if ch.reversed {
                ch.us_min
            } else {
                ch.us_max
            };
            let astern_us = if ch.reversed {
                ch.us_max
            } else {
                ch.us_min
            };
            let d = drive_of(ch, value);
            let v = value.units();
            let reach = !ch.max_pos.nan() && ch.max_pos.units() > 0;
            let back_reach = !ch.max_neg.nan() && ch.max_neg.units() > 0;
            &&& v == 0 ==> d == Drive::Center
            &&& v > 0 && !reach ==> d == Drive::Center
            &&& v < 0 && !back_reach ==> d == Drive::Center
            &&& v > 0 && reach && ch.max_pos.finite() && v >= ch.max_pos.units() ==> d
                == (Drive::Stop { us: ahead_us })
            &&& v < 0 && back_reach && ch.max_neg.finite() && -v >= ch.max_neg.units() ==> d
                == (Drive::Stop { us: astern_us })
            &&& v > 0 && reach && v < ch.max_pos.units() ==> {
                &&& d matches Drive::Partway { endpoint_us, magnitude, full }
                &&& endpoint_us == ahead_us
                &&& magnitude.units() == v
                &&& full == ch.max_pos
            }
            &&& v < 0 && back_reach && -v < ch.max_neg.units() ==> {
                &&& d matches Drive::Partway { endpoint_us, magnitude, full }
                &&& endpoint_us == astern_us
                &&& magnitude.units() == -v
                &&& full == ch.max_neg
            }
        }),
{
    crate::scalar::negation_is_exact(value);
}

/// A pulse width partway is the whole microsecond nearest to the
/// interpolation, at most half a microsecond off and upward from exactly half,
/// and the endpoint that the interpolation lies beyond where it does.
pub proof fn pulse_is_the_nearest_microsecond(
    ch: PwmChannel,
    endpoint_us: u16,
    magnitude: Scalar,
    full: Scalar,
    raw_us: Scalar,
)
    requires
        ch.calibrated(),
        !raw_us.nan(),
    ensures
        ({
            let us = pulse(ch, Drive::Partway { endpoint_us, magnitude, full }, raw_us);
            let one = pow2(1074) as int;
            let raw = raw_us.units();
            &&& ch.us_min <= us <= ch.us_max
            &&& ch.us_min * one <= raw <= ch.us_max * one ==> 2 * (us * one - raw) <= one && 2 * (raw
                - us * one) < one
            &&& raw <= ch.us_min * one ==> us == ch.us_min
            &&& raw >= ch.us_max * one ==> us == ch.us_max
        }),
{
    let one = pow2(1074) as int;
    let q = pow2(1075) as int;
    let raw = raw_us.units();
    vstd::arithmetic::power2::lemma_pow2_pos(1074);
    vstd::arithmetic::power2::lemma_pow2_unfold(1075);
    lemma_nearest_whole(ch.us_min);
    lemma_nearest_whole(ch.us_max);
    if whole_us(ch.us_min) <= raw {
        lemma_nearest_rises(whole_us(ch.us_min), raw);
    } else {
        lemma_nearest_rises(raw, whole_us(ch.us_min));
    }
    if whole_us(ch.us_max) <= raw {
        lemma_nearest_rises(whole_us(ch.us_max), raw);
    } else {
        lemma_nearest_rises(raw, whole_us(ch.us_max));
    }
    let n = nearest(raw_us);
    let t = 2 * raw + one;
    vstd::arithmetic::div_mod::lemma_fundamental_div_mod(t, q);
    vstd::arithmetic::div_mod::lemma_mod_bound(t, q);
    assert(q * n == 2 * (n * one)) by (nonlinear_arith)
        requires
            q == 2 * one,
    ;
}

/// Resting channels, and those with nothing to interpolate, stand at their
/// center held within the range; a stop is rendered as it is.
pub proof fn center_and_stop_are_rendered(ch: PwmChannel, us: u16, d: Drive, raw_us: Scalar)
    requires
        ch.calibrated(),
    ensures
        ({
            let center = pulse(ch, Drive::Center, raw_us);
            &&& ch.us_min <= ch.us_center <= ch.us_max ==> center == ch.us_center
            &&& ch.us_center < ch.us_min ==> center == ch.us_min
            &&& ch.us_center > ch.us_max ==> center == ch.us_max
            &&& d is Partway && raw_us.nan() ==> pulse(ch, d, raw_us) == center
            &&& pulse(ch, Drive::Stop { us }, raw_us) == us
        }),
{
}

} // verus!
