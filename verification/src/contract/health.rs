use vstd::prelude::*;

use super::measurement::GnssFixMode;
use crate::scalar::Scalar;

verus! {

#[derive(Copy, Clone, Debug, PartialEq, Eq, Structural)]
pub enum HealthLevel {
    Nominal,
    Degraded,
    Fault,
}

/// Covariance-based estimator health. The stds come straight from the state
/// covariance; the staleness flags say which fused roles have gone past their
/// declared max_age. The supervisor applies thresholds, this only reports.
#[derive(Copy, Clone, Debug, PartialEq)]
pub struct EstimatorHealth {
    pub level: HealthLevel,
    pub position_std_m: Scalar,
    pub heading_std_rad: Scalar,
    pub gnss_stale: bool,
    pub heading_stale: bool,
    pub yaw_rate_stale: bool,
    /// Fix mode of the most recently accepted position measurement.
    pub fix: Option<GnssFixMode>,
}

} // verus!
