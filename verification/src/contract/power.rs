use vstd::prelude::*;

use super::time::Timestamp;
use crate::scalar::Scalar;

verus! {

/// Power telemetry as it crosses into the supervisor.
#[derive(Copy, Clone, Debug, PartialEq)]
pub struct PowerStatus {
    pub t: Timestamp,
    pub voltage_v: Scalar,
}

} // verus!
