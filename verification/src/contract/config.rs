//! The vessel config the manifest compiles onto. Estimator and supervisor
//! consume this and never the manifest text.

use vstd::prelude::*;

use super::bounded::BoundedList;
use super::conn::ClaimantPriority;
use super::effector::EffectorConfig;
use super::geo::GeoPoint;
use super::time::Duration;
use crate::scalar::Scalar;

verus! {

/// Declared trust level of a sensor. `InnerLoop` may be fused and participates
/// in failsafe logic; `Enrichment` is pass-through only.
#[derive(Copy, Clone, Debug, PartialEq, Eq, Structural)]
pub enum License {
    InnerLoop,
    Enrichment,
}

#[derive(Copy, Clone, Debug, PartialEq, Eq, Structural)]
pub enum SensorRole {
    Gnss,
    Imu,
    Compass,
    Heading,
    Wind,
    Depth,
    Ais,
    Power,
    ActuatorFeedback,
}

/// Integer sensor identity; the manifest compiler assigns ids from the string
/// ids.
#[derive(Copy, Clone, Debug, PartialEq, Eq, Structural)]
pub struct SensorId(pub u16);

impl Default for SensorId {
    fn default() -> (id: SensorId)
        ensures
            id.0 == 0,
    {
        SensorId(0)
    }
}

/// Per-sensor trust declaration.
#[derive(Copy, Clone, Debug, PartialEq)]
pub struct SensorConfig {
    pub id: SensorId,
    pub role: SensorRole,
    pub license: License,
    pub max_age: Duration,
    /// Where the sensor sits relative to the vessel's reference point, body
    /// frame (x forward, y starboard). Zero for a sensor at the reference
    /// point.
    pub lever_arm_m: [Scalar; 2],
}

/// Filler for fixed-capacity storage; the values carry no meaning.
impl Default for SensorConfig {
    fn default() -> (c: SensorConfig)
        ensures
            c.id.0 == 0,
            c.role == SensorRole::Gnss,
            c.license == License::Enrichment,
            c.max_age@ == 0,
            c.lever_arm_m@[0].bits == 0,
            c.lever_arm_m@[1].bits == 0,
    {
        SensorConfig {
            id: SensorId(0),
            role: SensorRole::Gnss,
            license: License::Enrichment,
            max_age: Duration::zero(),
            lever_arm_m: [Scalar::zero(), Scalar::zero()],
        }
    }
}

/// Coefficients of the Fossen 3-DOF model.
#[derive(Copy, Clone, Debug, PartialEq)]
pub struct Fossen3DofParams {
    pub mass_kg: Scalar,
    pub izz_kg_m2: Scalar,
    pub x_udot: Scalar,
    pub y_vdot: Scalar,
    pub n_rdot: Scalar,
    pub x_u: Scalar,
    pub y_v: Scalar,
    pub n_r: Scalar,
}

/// Which process model the estimator runs.
#[derive(Copy, Clone, Debug, PartialEq)]
pub enum ModelParams {
    ConstantVelocity,
    Fossen3Dof(Fossen3DofParams),
}

/// Which model and which promoted sensors. The heading list is fusion
/// priority order.
#[derive(Copy, Clone, Debug, PartialEq)]
pub struct EstimatorConfig {
    pub model: ModelParams,
    pub gnss: BoundedList<SensorId, 4>,
    pub imu: BoundedList<SensorId, 4>,
    pub heading: BoundedList<SensorId, 4>,
}

#[derive(Copy, Clone, Debug, PartialEq, Eq, Structural)]
pub enum GeofenceAction {
    Hold,
    Return,
    ZeroThrust,
}

/// Closed-ring validity is the manifest compiler's check, not enforced here.
#[derive(Copy, Clone, Debug, PartialEq)]
pub struct GeofenceConfig {
    pub enabled: bool,
    pub action: GeofenceAction,
    pub ring: BoundedList<GeoPoint, 32>,
}

#[derive(Copy, Clone, Debug, PartialEq, Eq, Structural)]
pub enum ConnGrantDefault {
    Nobody,
    Autonomy,
}

/// Vessel-specific constants of the failsafe matrix; the matrix itself is
/// firmware logic.
#[derive(Copy, Clone, Debug, PartialEq)]
pub struct SupervisorConfig {
    pub claimant_heartbeat: Duration,
    pub conn_grant_default: ConnGrantDefault,
    pub position_degraded_after: Duration,
    pub low_voltage_v: Scalar,
    pub critical_voltage_v: Scalar,
    pub power_stale_after: Duration,
    pub geofence: GeofenceConfig,
    /// Claimants that outrank the default priority of zero.
    pub claimant_priorities: BoundedList<ClaimantPriority, 8>,
}

#[derive(Copy, Clone, Debug, PartialEq)]
pub struct VesselConfig {
    pub sensors: BoundedList<SensorConfig, 16>,
    pub estimator: EstimatorConfig,
    pub supervisor: SupervisorConfig,
    pub effectors: BoundedList<EffectorConfig, 8>,
}

} // verus!
