//! Sensor measurements as they cross the driver boundary into the estimator.
//!
//! The noise std rides on the measurement: the source declares what it knows.

use vstd::prelude::*;

use super::config::SensorId;
use super::geo::GeoPoint;
use super::time::Timestamp;
use crate::scalar::Scalar;

verus! {

#[derive(Debug, Clone, Copy, PartialEq)]
pub struct Measurement {
    pub sensor: SensorId,
    pub t: Timestamp,
    pub kind: MeasurementKind,
}

#[derive(Debug, Clone, Copy, PartialEq)]
pub enum MeasurementKind {
    /// Horizontal position fix. std_m is the 1-sigma error per horizontal axis.
    GnssPosition { position: GeoPoint, std_m: Scalar },
    /// True heading, NED convention (clockwise-positive from true north).
    Heading { heading_rad: Scalar, std_rad: Scalar },
    /// Body-frame yaw rate from a gyro.
    YawRate { yaw_rate_radps: Scalar, std_radps: Scalar },
    /// Speed over ground, e.g. from a GNSS receiver's velocity solution.
    SpeedOverGround { sog_mps: Scalar, std_mps: Scalar },
    /// True course over ground, same NED convention as `Heading`. Distinct
    /// from heading: course is the direction of travel over the ground.
    CourseOverGround { cog_rad: Scalar, std_rad: Scalar },
    /// Horizontal position fix with a full 2x2 NE covariance (m^2,
    /// row-major [n, e]) and the receiver's fix mode.
    GnssPositionCov { position: GeoPoint, cov_ne_m2: [[Scalar; 2]; 2], fix: GnssFixMode },
}

/// GNSS receiver fix mode. Telemetry vocabulary, not policy: the estimator
/// records the mode of the most recently accepted position fix for health
/// reporting, but does not gate fusion on it.
#[derive(Debug, Clone, Copy, PartialEq, Eq, Structural)]
pub enum GnssFixMode {
    NoFix,
    Autonomous,
    Differential,
    RtkFixed,
    RtkFloat,
    DeadReckoning,
    Other,
}

} // verus!
