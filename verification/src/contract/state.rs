use vstd::prelude::*;

use super::geo::GeoPoint;
use super::time::Timestamp;
use crate::scalar::Scalar;

verus! {

/// Body-frame velocities of the Fossen 3-DOF model: surge forward, sway to
/// starboard, yaw rate clockwise-positive seen from above.
#[derive(Copy, Clone, Debug, PartialEq)]
pub struct BodyVelocity {
    pub surge_mps: Scalar,
    pub sway_mps: Scalar,
    pub yaw_rate_radps: Scalar,
}

/// Position and heading. Heading is yaw, clockwise-positive from true north
/// (NED convention).
#[derive(Copy, Clone, Debug, PartialEq)]
pub struct Pose {
    pub position: GeoPoint,
    pub heading_rad: Scalar,
}

/// State covariance, order [n, e, psi, u, v, r], expressed in the local NED
/// tangent frame at the current position; meters, radians, and their rates.
pub type Covariance = [[Scalar; 6]; 6];

/// Estimator output: the one state everything downstream consumes.
#[derive(Copy, Clone, Debug, PartialEq)]
pub struct VesselState {
    pub t: Timestamp,
    pub pose: Pose,
    pub velocity: BodyVelocity,
    pub covariance: Covariance,
}

} // verus!
