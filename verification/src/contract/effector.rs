//! Effector table types the manifest compiles onto, and the per-effector
//! output the allocator produces.

use vstd::prelude::*;

use super::bounded::BoundedList;
use super::time::Timestamp;
use crate::scalar::Scalar;

verus! {

/// Integer effector identity.
#[derive(Copy, Clone, Debug, PartialEq, Eq, Structural)]
pub struct EffectorId(pub u16);

impl Default for EffectorId {
    fn default() -> (id: EffectorId)
        ensures
            id.0 == 0,
    {
        EffectorId(0)
    }
}

#[derive(Copy, Clone, Debug, PartialEq)]
pub enum EffectorKind {
    /// Position is offset from the vessel body origin (x forward, y
    /// starboard). `azimuth_rad` is the mounting angle of the thrust axis
    /// relative to the body x-axis. Both thrust limits are positive
    /// magnitudes.
    FixedThruster {
        pos_x_m: Scalar,
        pos_y_m: Scalar,
        azimuth_rad: Scalar,
        max_thrust_fwd_n: Scalar,
        max_thrust_rev_n: Scalar,
    },
    /// Side force model: Y = k * u_eff^2 * delta, with k =
    /// `side_force_n_per_rad_mps2` and u_eff = max(|u|,
    /// `min_effective_speed_mps`). Yaw moment N = `pos_x_m` * Y.
    Rudder {
        pos_x_m: Scalar,
        side_force_n_per_rad_mps2: Scalar,
        max_angle_rad: Scalar,
        min_effective_speed_mps: Scalar,
    },
}

#[derive(Copy, Clone, Debug, PartialEq)]
pub struct EffectorConfig {
    pub id: EffectorId,
    pub kind: EffectorKind,
}

/// Filler for fixed-capacity storage; the values carry no meaning.
impl Default for EffectorConfig {
    fn default() -> (c: EffectorConfig)
        ensures
            c.id.0 == 0,
            c.kind matches EffectorKind::FixedThruster {
                pos_x_m,
                pos_y_m,
                azimuth_rad,
                max_thrust_fwd_n,
                max_thrust_rev_n,
            } && pos_x_m.bits == 0 && pos_y_m.bits == 0 && azimuth_rad.bits == 0
                && max_thrust_fwd_n.bits == 0 && max_thrust_rev_n.bits == 0,
    {
        EffectorConfig {
            id: EffectorId(0),
            kind: EffectorKind::FixedThruster {
                pos_x_m: Scalar::zero(),
                pos_y_m: Scalar::zero(),
                azimuth_rad: Scalar::zero(),
                max_thrust_fwd_n: Scalar::zero(),
                max_thrust_rev_n: Scalar::zero(),
            },
        }
    }
}

pub const MAX_EFFECTORS: usize = 8;

/// Per-effector command, indexed parallel to the effector table. Physical
/// units per effector: newtons for a thruster, radians for a rudder.
#[derive(Copy, Clone, Debug, PartialEq)]
pub struct ActuatorOutputs {
    pub t: Timestamp,
    pub values: BoundedList<Scalar, 8>,
}

/// What actuation the effector table can deliver. Carried data, derived from
/// the effector table by the allocator.
#[derive(Copy, Clone, Debug, PartialEq, Eq, Structural)]
pub struct ActuationCapability {
    pub sway_authority: bool,
    pub yaw_authority_at_rest: bool,
}

impl ActuationCapability {
    /// Every axis under control.
    pub fn full() -> (c: ActuationCapability)
        ensures
            c.sway_authority,
            c.yaw_authority_at_rest,
    {
        ActuationCapability { sway_authority: true, yaw_authority_at_rest: true }
    }
}

} // verus!
