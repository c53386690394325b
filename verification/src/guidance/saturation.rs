use vstd::prelude::*;

use crate::contract::ForceDemand;
use crate::scalar::Scalar;

verus! {

/// Output saturation: 200 N surge, 200 N sway, 150 Nm yaw.
pub const MAX_SURGE_N_BITS: u64 = 0x4069_0000_0000_0000;

pub const MAX_SWAY_N_BITS: u64 = 0x4069_0000_0000_0000;

pub const MAX_YAW_NM_BITS: u64 = 0x4062_c000_0000_0000;

/// Fastest approach to a point, 1.5 m/s.
pub const APPROACH_MAX_MPS_BITS: u64 = 0x3ff8_0000_0000_0000;

/// The speed reference of an approach: the host's gain times distance, held
/// between standstill and the fastest approach; NaN stays NaN.
pub fn approach_speed(raw_mps: Scalar) -> (u: Scalar)
    ensures
        u == if raw_mps.less(Scalar { bits: 0 }) {
            Scalar { bits: 0 }
        } else if (Scalar { bits: APPROACH_MAX_MPS_BITS }).less(raw_mps) {
            Scalar { bits: APPROACH_MAX_MPS_BITS }
        } else {
            raw_mps
        },
        u.nan() == raw_mps.nan(),
        !raw_mps.nan() ==> 0 <= u.units() && 2 * u.units() <= 3 * vstd::arithmetic::power2::pow2(
            1074,
        ),
        raw_mps.units() <= 0 && !raw_mps.nan() ==> u.units() == 0,
        0 <= raw_mps.units() && 2 * raw_mps.units() <= 3 * vstd::arithmetic::power2::pow2(1074)
            ==> u == raw_mps,
        2 * raw_mps.units() >= 3 * vstd::arithmetic::power2::pow2(1074) && !raw_mps.nan() ==> 2
            * u.units() == 3 * vstd::arithmetic::power2::pow2(1074),
{
    proof {
        bounds_in_newtons_and_meters();
    }
    raw_mps.clamp(Scalar::zero(), Scalar { bits: APPROACH_MAX_MPS_BITS })
}

/// A value held within `-max..=max`; NaN stays NaN.
pub open spec fn held_within(x: Scalar, max_bits: u64) -> Scalar {
    let max = Scalar { bits: max_bits };
    if x.less(crate::scalar::negated(max)) {
        crate::scalar::negated(max)
    } else if max.less(x) {
        max
    } else {
        x
    }
}

fn hold_within(x: Scalar, max_bits: u64) -> (y: Scalar)
    ensures
        y == held_within(x, max_bits),
{
    let max = Scalar { bits: max_bits };
    x.clamp(max.neg(), max)
}

/// Whether `y` is `x` held within `max` newtons or newton-meters either way: a
/// demand that fits is left alone, one that does not is cut to the bound it
/// passed, and NaN stays NaN.
pub open spec fn held_to(x: Scalar, y: Scalar, max: int) -> bool {
    let bound = max * vstd::arithmetic::power2::pow2(1074);
    &&& y.nan() == x.nan()
    &&& !x.nan() && -bound <= x.units() <= bound ==> y == x
    &&& !x.nan() && x.units() > bound ==> y.units() == bound
    &&& !x.nan() && x.units() < -bound ==> y.units() == -bound
}

/// Holds every axis of a demand to what the thrusters can deliver.
pub fn saturate(d: ForceDemand) -> (s: ForceDemand)
    ensures
        s.surge_n == held_within(d.surge_n, MAX_SURGE_N_BITS),
        s.sway_n == held_within(d.sway_n, MAX_SWAY_N_BITS),
        s.yaw_nm == held_within(d.yaw_nm, MAX_YAW_NM_BITS),
        held_to(d.surge_n, s.surge_n, 200),
        held_to(d.sway_n, s.sway_n, 200),
        held_to(d.yaw_nm, s.yaw_nm, 150),
{
    proof {
        bounds_in_newtons_and_meters();
        crate::scalar::negation_is_exact(Scalar { bits: MAX_SURGE_N_BITS });
        crate::scalar::negation_is_exact(Scalar { bits: MAX_YAW_NM_BITS });
    }
    ForceDemand {
        surge_n: hold_within(d.surge_n, MAX_SURGE_N_BITS),
        sway_n: hold_within(d.sway_n, MAX_SWAY_N_BITS),
        yaw_nm: hold_within(d.yaw_nm, MAX_YAW_NM_BITS),
    }
}

/// A held value is NaN or within its bounds, a value already within them is
/// left alone, and holding twice is holding once.
pub proof fn saturation_bounds(x: Scalar, max_bits: u64)
    requires
        max_bits < 0x7ff0_0000_0000_0000,
    ensures
        ({
            let max = Scalar { bits: max_bits };
            let y = held_within(x, max_bits);
            &&& y.nan() == x.nan()
            &&& !y.nan() ==> -max.units() <= y.units() <= max.units()
            &&& !x.nan() && -max.units() <= x.units() <= max.units() ==> y == x
            &&& held_within(y, max_bits) == y
        }),
{
    let max = Scalar { bits: max_bits };
    crate::scalar::negation_is_exact(max);
    crate::scalar::lemma_magnitude_order(max_bits, max_bits);
    assert(!max.nan());
}

/// The bounds are 200 N, 200 N, 150 Nm and 1.5 m/s.
pub proof fn bounds_in_newtons_and_meters()
    ensures
        ({
            let one = vstd::arithmetic::power2::pow2(1074) as int;
            &&& one > 0
            &&& (Scalar { bits: MAX_SURGE_N_BITS }).units() == 200 * one
            &&& (Scalar { bits: MAX_SWAY_N_BITS }).units() == 200 * one
            &&& (Scalar { bits: MAX_YAW_NM_BITS }).units() == 150 * one
            &&& 2 * (Scalar { bits: APPROACH_MAX_MPS_BITS }).units() == 3 * one
        }),
{
    vstd::arithmetic::power2::lemma2_to64_rest();
    crate::scalar::pattern_value(
        MAX_SURGE_N_BITS,
        45,
        0x19_0000_0000_0000,
        0x2000_0000_0000,
    );
    crate::scalar::pattern_value(
        MAX_YAW_NM_BITS,
        45,
        0x12_c000_0000_0000,
        0x2000_0000_0000,
    );
    crate::scalar::pattern_value(
        APPROACH_MAX_MPS_BITS,
        52,
        0x18_0000_0000_0000,
        0x10_0000_0000_0000,
    );
}

/// Saturation keeps the order of demands: a larger one never comes out
/// smaller, and turning a demand round turns the result round.
pub proof fn saturation_keeps_order_and_sign(x: Scalar, y: Scalar, max_bits: u64)
    requires
        max_bits < 0x7ff0_0000_0000_0000,
        x.at_most(y),
    ensures
        held_within(x, max_bits).units() <= held_within(y, max_bits).units(),
        held_within(crate::scalar::negated(x), max_bits).units() == -held_within(
            x,
            max_bits,
        ).units(),
{
    let max = Scalar { bits: max_bits };
    crate::scalar::negation_is_exact(max);
    crate::scalar::negation_is_exact(x);
    crate::scalar::lemma_magnitude_order(max_bits, max_bits);
    assert(!max.nan());
}

/// What comes out of saturation, axis by axis: surge and sway within 200 N,
/// yaw within 150 Nm, each its own input where that fits and of its own sign
/// where it does not.
pub proof fn each_axis_is_held_to_its_own_bound(d: ForceDemand, s: ForceDemand)
    requires
        call_ensures(saturate, (d,), s),
        !d.surge_n.nan() && !d.sway_n.nan() && !d.yaw_nm.nan(),
    ensures
        ({
            let one = vstd::arithmetic::power2::pow2(1074) as int;
            &&& -200 * one <= s.surge_n.units() <= 200 * one
            &&& -200 * one <= s.sway_n.units() <= 200 * one
            &&& -150 * one <= s.yaw_nm.units() <= 150 * one
            &&& -200 * one <= d.surge_n.units() <= 200 * one ==> s.surge_n == d.surge_n
            &&& -200 * one <= d.sway_n.units() <= 200 * one ==> s.sway_n == d.sway_n
            &&& -150 * one <= d.yaw_nm.units() <= 150 * one ==> s.yaw_nm == d.yaw_nm
            &&& d.surge_n.units() > 200 * one ==> s.surge_n.units() == 200 * one
            &&& d.surge_n.units() < -200 * one ==> s.surge_n.units() == -200 * one
            &&& d.sway_n.units() > 200 * one ==> s.sway_n.units() == 200 * one
            &&& d.sway_n.units() < -200 * one ==> s.sway_n.units() == -200 * one
            &&& d.yaw_nm.units() > 150 * one ==> s.yaw_nm.units() == 150 * one
            &&& d.yaw_nm.units() < -150 * one ==> s.yaw_nm.units() == -150 * one
        }),
{
    bounds_in_newtons_and_meters();
}

/// An approach is never astern and never faster than 1.5 m/s, and is what the
/// host asks for in between; a larger request never gives a slower approach.
pub proof fn approach_speed_is_held_to_its_range(a: Scalar, b: Scalar, u: Scalar, v: Scalar)
    requires
        call_ensures(approach_speed, (a,), u),
        call_ensures(approach_speed, (b,), v),
        a.at_most(b),
    ensures
        ({
            let one = vstd::arithmetic::power2::pow2(1074) as int;
            &&& 0 <= u.units() && 2 * u.units() <= 3 * one
            &&& 0 <= a.units() && 2 * a.units() <= 3 * one ==> u == a
            &&& a.units() <= 0 ==> u.units() == 0
            &&& 2 * a.units() >= 3 * one ==> 2 * u.units() == 3 * one
            &&& u.units() <= v.units()
        }),
{
    bounds_in_newtons_and_meters();
}

} // verus!
