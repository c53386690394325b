//! The effector table: which entries are usable, the limits of each, and what
//! the table as a whole can deliver.

use vstd::prelude::*;

use crate::contract::{ActuationCapability, EffectorConfig, EffectorKind};
use crate::scalar::Scalar;

verus! {

#[derive(Copy, Clone, Debug, PartialEq, Eq, Structural)]
pub enum ConfigError {
    /// More effectors than fit in the table.
    TooManyEffectors,
    /// A geometry or coefficient field is NaN or infinite.
    NonFinite,
    /// A limit, effectiveness, or the rudder's low-speed floor that must be
    /// strictly positive is zero or negative.
    NonPositiveLimit,
}

/// Every field of an effector is finite.
pub open spec fn all_fields_finite(kind: EffectorKind) -> bool {
    match kind {
        EffectorKind::FixedThruster {
            pos_x_m,
            pos_y_m,
            azimuth_rad,
            max_thrust_fwd_n,
            max_thrust_rev_n,
        } => pos_x_m.finite() && pos_y_m.finite() && azimuth_rad.finite()
            && max_thrust_fwd_n.finite() && max_thrust_rev_n.finite(),
        EffectorKind::Rudder {
            pos_x_m,
            side_force_n_per_rad_mps2,
            max_angle_rad,
            min_effective_speed_mps,
        } => pos_x_m.finite() && side_force_n_per_rad_mps2.finite() && max_angle_rad.finite()
            && min_effective_speed_mps.finite(),
    }
}

/// Every field of an effector that must be strictly positive is. The rudder's
/// speed floor is a divisor, so it must not be zero either.
pub open spec fn limits_positive(kind: EffectorKind) -> bool {
    match kind {
        EffectorKind::FixedThruster { max_thrust_fwd_n, max_thrust_rev_n, .. } =>
            max_thrust_fwd_n.units() > 0 && max_thrust_rev_n.units() > 0,
        EffectorKind::Rudder {
            side_force_n_per_rad_mps2,
            max_angle_rad,
            min_effective_speed_mps,
            ..
        } => side_force_n_per_rad_mps2.units() > 0 && max_angle_rad.units() > 0
            && min_effective_speed_mps.units() > 0,
    }
}

/// What is wrong with an effector, if anything.
pub open spec fn invalid(kind: EffectorKind) -> Option<ConfigError> {
    if !all_fields_finite(kind) {
        Some(ConfigError::NonFinite)
    } else if !limits_positive(kind) {
        Some(ConfigError::NonPositiveLimit)
    } else {
        None
    }
}

pub fn validate(kind: &EffectorKind) -> (r: Result<(), ConfigError>)
    ensures
        match r {
            Ok(_) => invalid(*kind) is None,
            Err(e) => invalid(*kind) == Some(e),
        },
{
    let zero = Scalar::zero();
    match *kind {
        EffectorKind::FixedThruster {
            pos_x_m,
            pos_y_m,
            azimuth_rad,
            max_thrust_fwd_n,
            max_thrust_rev_n,
        } => {
            if !(pos_x_m.is_finite() && pos_y_m.is_finite() && azimuth_rad.is_finite()
                && max_thrust_fwd_n.is_finite() && max_thrust_rev_n.is_finite()) {
                return Err(ConfigError::NonFinite);
            }
            if !(max_thrust_fwd_n.gt(zero) && max_thrust_rev_n.gt(zero)) {
                return Err(ConfigError::NonPositiveLimit);
            }
        },
        EffectorKind::Rudder {
            pos_x_m,
            side_force_n_per_rad_mps2,
            max_angle_rad,
            min_effective_speed_mps,
        } => {
            if !(pos_x_m.is_finite() && side_force_n_per_rad_mps2.is_finite()
                && max_angle_rad.is_finite() && min_effective_speed_mps.is_finite()) {
                return Err(ConfigError::NonFinite);
            }
            if !(side_force_n_per_rad_mps2.gt(zero) && max_angle_rad.gt(zero)
                && min_effective_speed_mps.gt(zero)) {
                return Err(ConfigError::NonPositiveLimit);
            }
        },
    }
    Ok(())
}

/// The lower bound on an effector's own physical unit (N or rad).
pub open spec fn lower_limit(kind: EffectorKind) -> Scalar {
    match kind {
        EffectorKind::FixedThruster { max_thrust_rev_n, .. } => crate::scalar::negated(
            max_thrust_rev_n,
        ),
        EffectorKind::Rudder { max_angle_rad, .. } => crate::scalar::negated(max_angle_rad),
    }
}

/// The upper bound on an effector's own physical unit (N or rad).
pub open spec fn upper_limit(kind: EffectorKind) -> Scalar {
    match kind {
        EffectorKind::FixedThruster { max_thrust_fwd_n, .. } => max_thrust_fwd_n,
        EffectorKind::Rudder { max_angle_rad, .. } => max_angle_rad,
    }
}

/// (lower, upper) bounds on the effector's own physical unit.
pub fn limits(kind: &EffectorKind) -> (r: (Scalar, Scalar))
    ensures
        r.0 == lower_limit(*kind),
        r.1 == upper_limit(*kind),
        *kind matches EffectorKind::FixedThruster { max_thrust_fwd_n, max_thrust_rev_n, .. } ==> r.0
            == crate::scalar::negated(max_thrust_rev_n) && r.1 == max_thrust_fwd_n,
        *kind matches EffectorKind::Rudder { max_angle_rad, .. } ==> r.0 == crate::scalar::negated(
            max_angle_rad,
        ) && r.1 == max_angle_rad,
{
    match *kind {
        EffectorKind::FixedThruster { max_thrust_fwd_n, max_thrust_rev_n, .. } => (
            max_thrust_rev_n.neg(),
            max_thrust_fwd_n,
        ),
        EffectorKind::Rudder { max_angle_rad, .. } => (max_angle_rad.neg(), max_angle_rad),
    }
}

/// A usable effector can always rest: zero lies strictly between its limits,
/// which are finite.
pub proof fn limits_enclose_zero(kind: EffectorKind)
    requires
        invalid(kind) is None,
    ensures
        lower_limit(kind).finite(),
        upper_limit(kind).finite(),
        lower_limit(kind).units() < 0 < upper_limit(kind).units(),
{
    match kind {
        EffectorKind::FixedThruster { max_thrust_rev_n, .. } => {
            crate::scalar::negation_is_exact(max_thrust_rev_n);
        },
        EffectorKind::Rudder { max_angle_rad, .. } => {
            crate::scalar::negation_is_exact(max_angle_rad);
        },
    }
}

/// The speed a rudder's authority is scheduled on: the surge speed's size, but
/// never below the rudder's own floor, so that the authority stays finite at
/// rest.
pub fn effective_speed(surge_mps: Scalar, floor_mps: Scalar) -> (u: Scalar)
    ensures
        u == crate::scalar::greater(
            (Scalar { bits: crate::scalar::low_bits(surge_mps.bits) as u64 }),
            floor_mps,
        ),
        !floor_mps.nan() ==> !u.nan() && u.units() >= floor_mps.units(),
        !surge_mps.nan() ==> u.units() >= surge_mps.units() && u.units() >= -surge_mps.units()
            || floor_mps.nan(),
        u == floor_mps || u.units() == surge_mps.units() || u.units() == -surge_mps.units(),
        surge_mps.nan() ==> u == floor_mps,
{
    surge_mps.abs().max(floor_mps)
}

/// What one thruster can do at rest, as the host worked it out: the size of
/// its sway share, and of its yaw lever.
#[derive(Copy, Clone, Debug, PartialEq)]
pub struct Reach {
    pub sway: Scalar,
    pub yaw: Scalar,
}

/// A share at or below this, 1e-9, counts as no authority.
pub const AXIS_EPS_BITS: u64 = 0x3e11_2e0b_e826_d695;

/// Whether a share is large enough to count.
pub open spec fn counts(share: Scalar) -> bool {
    (Scalar { bits: AXIS_EPS_BITS }).less(share)
}

/// Whether entry `i` of the table is a thruster whose reach is known.
pub open spec fn reaches(effectors: Seq<EffectorConfig>, reach: Seq<Reach>, i: int) -> bool {
    0 <= i < effectors.len() && i < reach.len() && effectors[i].kind is FixedThruster
}

/// What the effector table can deliver. A rudder's authority vanishes at rest,
/// so it grants neither axis; a thruster grants sway when its thrust axis is
/// not purely fore-aft, and yaw at rest when its thrust line does not pass
/// through the origin. An empty table means no allocation stage, so it reports
/// full capability.
pub fn capability(effectors: &[EffectorConfig], reach: &[Reach]) -> (c: ActuationCapability)
    ensures
        effectors@.len() == 0 ==> c.sway_authority && c.yaw_authority_at_rest,
        effectors@.len() > 0 ==> c.sway_authority == exists|i: int|
            #[trigger] reaches(effectors@, reach@, i) && counts(reach@[i].sway),
        effectors@.len() > 0 ==> c.yaw_authority_at_rest == exists|i: int|
            #[trigger] reaches(effectors@, reach@, i) && counts(reach@[i].yaw),
        forall|i: int|
            0 <= i < effectors@.len() && i < reach@.len() && effectors@[i].kind is FixedThruster
                && !(#[trigger] reach@[i]).sway.nan() && (Scalar { bits: AXIS_EPS_BITS }).units()
                < reach@[i].sway.units() ==> c.sway_authority,
        forall|i: int|
            0 <= i < effectors@.len() && i < reach@.len() && effectors@[i].kind is FixedThruster
                && !(#[trigger] reach@[i]).yaw.nan() && (Scalar { bits: AXIS_EPS_BITS }).units()
                < reach@[i].yaw.units() ==> c.yaw_authority_at_rest,
        effectors@.len() > 0 && (forall|i: int|
            0 <= i < effectors@.len() && i < reach@.len() ==> (#[trigger] effectors@[i]).kind is Rudder
                || reach@[i].sway.units() <= (Scalar { bits: AXIS_EPS_BITS }).units())
            ==> !c.sway_authority,
        effectors@.len() > 0 && (forall|i: int|
            0 <= i < effectors@.len() && i < reach@.len() ==> (#[trigger] effectors@[i]).kind is Rudder
                || reach@[i].yaw.units() <= (Scalar { bits: AXIS_EPS_BITS }).units())
            ==> !c.yaw_authority_at_rest,
{
    if effectors.len() == 0 {
        return ActuationCapability::full();
    }
    let eps = Scalar { bits: AXIS_EPS_BITS };
    let mut sway_authority = false;
    let mut yaw_authority_at_rest = false;
    let mut i: usize = 0;
    while i < effectors.len() && i < reach.len()
        invariant
            eps.bits == AXIS_EPS_BITS,
            i <= effectors@.len(),
            i <= reach@.len(),
            sway_authority == exists|k: int|
                k < i && #[trigger] reaches(effectors@, reach@, k) && counts(reach@[k].sway),
            yaw_authority_at_rest == exists|k: int|
                k < i && #[trigger] reaches(effectors@, reach@, k) && counts(reach@[k].yaw),
        decreases effectors.len() - i,
    {
        let thruster = match effectors[i].kind {
            EffectorKind::FixedThruster { .. } => true,
            EffectorKind::Rudder { .. } => false,
        };
        proof {
            assert(reaches(effectors@, reach@, i as int) == thruster);
        }
        if thruster {
            if reach[i].sway.gt(eps) {
                sway_authority = true;
            }
            if reach[i].yaw.gt(eps) {
                yaw_authority_at_rest = true;
            }
        }
        i = i + 1;
    }
    proof {
        axis_threshold();
        assert forall|k: int|
            0 <= k < effectors@.len() && k < reach@.len() && effectors@[k].kind is FixedThruster
                && !(#[trigger] reach@[k]).sway.nan() && (Scalar { bits: AXIS_EPS_BITS }).units()
                < reach@[k].sway.units() implies sway_authority by {
            assert(reaches(effectors@, reach@, k));
        }
        assert forall|k: int|
            0 <= k < effectors@.len() && k < reach@.len() && effectors@[k].kind is FixedThruster
                && !(#[trigger] reach@[k]).yaw.nan() && (Scalar { bits: AXIS_EPS_BITS }).units()
                < reach@[k].yaw.units() implies yaw_authority_at_rest by {
            assert(reaches(effectors@, reach@, k));
        }
    }
    ActuationCapability { sway_authority, yaw_authority_at_rest }
}

/// A share counts from one billionth on, to nine digits.
pub proof fn axis_threshold()
    ensures
        ({
            let one = vstd::arithmetic::power2::pow2(1074);
            let eps = (Scalar { bits: AXIS_EPS_BITS }).units();
            &&& 999_999_999 * one < 1_000_000_000_000_000_000 * eps < 1_000_000_001 * one
            &&& !(Scalar { bits: AXIS_EPS_BITS }).nan()
        }),
{
    vstd::arithmetic::power2::lemma2_to64();
    vstd::arithmetic::power2::lemma_pow2_adds(64, 18);
    crate::scalar::pattern_value(
        AXIS_EPS_BITS,
        82,
        0x11_2e0b_e826_d695,
        0x4_0000_0000_0000_0000_0000int,
    );
}

/// A thruster pushes as far ahead as its forward limit and as far astern as
/// its reverse limit, a rudder turns as far either way as its largest angle:
/// the bounds are those very fields, and no other field moves them.
pub proof fn limits_are_the_configured_ones(kind: EffectorKind)
    ensures
        kind matches EffectorKind::FixedThruster { max_thrust_fwd_n, max_thrust_rev_n, .. } ==> {
            &&& upper_limit(kind) == max_thrust_fwd_n
            &&& upper_limit(kind).units() == max_thrust_fwd_n.units()
            &&& lower_limit(kind).units() == -max_thrust_rev_n.units()
            &&& lower_limit(kind).finite() == max_thrust_rev_n.finite()
        },
        kind matches EffectorKind::Rudder { max_angle_rad, .. } ==> {
            &&& upper_limit(kind) == max_angle_rad
            &&& upper_limit(kind).units() == max_angle_rad.units()
            &&& lower_limit(kind).units() == -max_angle_rad.units()
            &&& lower_limit(kind).finite() == max_angle_rad.finite()
        },
{
    match kind {
        EffectorKind::FixedThruster { max_thrust_rev_n, .. } => {
            crate::scalar::negation_is_exact(max_thrust_rev_n);
        },
        EffectorKind::Rudder { max_angle_rad, .. } => {
            crate::scalar::negation_is_exact(max_angle_rad);
        },
    }
}

/// A thruster is usable exactly when all five of its fields are finite and
/// both thrust limits are above zero; where it is for the limits alone, that
/// is the reason given.
pub proof fn thruster_is_usable_by_its_fields(
    pos_x_m: Scalar,
    pos_y_m: Scalar,
    azimuth_rad: Scalar,
    max_thrust_fwd_n: Scalar,
    max_thrust_rev_n: Scalar,
)
    ensures
        ({
            let r = invalid(
                EffectorKind::FixedThruster {
                    pos_x_m,
                    pos_y_m,
                    azimuth_rad,
                    max_thrust_fwd_n,
                    max_thrust_rev_n,
                },
            );
            let all_finite = pos_x_m.finite() && pos_y_m.finite() && azimuth_rad.finite()
                && max_thrust_fwd_n.finite() && max_thrust_rev_n.finite();
            let reach = max_thrust_fwd_n.units() > 0 && max_thrust_rev_n.units() > 0;
            &&& r is None <==> all_finite && reach
            &&& r == Some(ConfigError::NonFinite) <==> !all_finite
            &&& r == Some(ConfigError::NonPositiveLimit) <==> all_finite && !reach
        }),
{
}

/// A rudder is usable exactly when all four of its fields are finite and its
/// effectiveness, its largest angle and its speed floor are above zero; its
/// place may be anywhere.
pub proof fn rudder_is_usable_by_its_fields(
    pos_x_m: Scalar,
    side_force_n_per_rad_mps2: Scalar,
    max_angle_rad: Scalar,
    min_effective_speed_mps: Scalar,
)
    ensures
        ({
            let r = invalid(
                EffectorKind::Rudder {
                    pos_x_m,
                    side_force_n_per_rad_mps2,
                    max_angle_rad,
                    min_effective_speed_mps,
                },
            );
            let all_finite = pos_x_m.finite() && side_force_n_per_rad_mps2.finite()
                && max_angle_rad.finite() && min_effective_speed_mps.finite();
            let reach = side_force_n_per_rad_mps2.units() > 0 && max_angle_rad.units() > 0
                && min_effective_speed_mps.units() > 0;
            &&& r is None <==> all_finite && reach
            &&& r == Some(ConfigError::NonFinite) <==> !all_finite
            &&& r == Some(ConfigError::NonPositiveLimit) <==> all_finite && !reach
        }),
{
}

/// The speed that a rudder's authority is scheduled on is the larger of the
/// surge speed's size and the rudder's floor: the same ahead and astern, and
/// the floor itself at rest.
pub proof fn effective_speed_is_the_larger(surge_mps: Scalar, floor_mps: Scalar, u: Scalar)
    requires
        call_ensures(effective_speed, (surge_mps, floor_mps), u),
        !surge_mps.nan(),
        !floor_mps.nan(),
        floor_mps.units() > 0,
    ensures
        u.units() >= floor_mps.units(),
        u.units() >= surge_mps.units(),
        u.units() >= -surge_mps.units(),
        u.units() == floor_mps.units() || u.units() == surge_mps.units() || u.units()
            == -surge_mps.units(),
{
}

} // verus!
