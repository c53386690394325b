use vstd::prelude::*;

use super::time::Timestamp;
use crate::scalar::Scalar;

verus! {

/// Generalized tau of the Fossen 3-DOF model.
#[derive(Copy, Clone, Debug)]
pub struct ForceDemand {
    pub surge_n: Scalar,
    pub sway_n: Scalar,
    pub yaw_nm: Scalar,
}

impl ForceDemand {
    /// No force on any axis.
    pub open spec fn is_zero(self) -> bool {
        self.surge_n.bits == 0 && self.sway_n.bits == 0 && self.yaw_nm.bits == 0
    }

    /// Components equal as IEEE-754 has it.
    pub open spec fn same(self, other: ForceDemand) -> bool {
        self.surge_n.same(other.surge_n) && self.sway_n.same(other.sway_n) && self.yaw_nm.same(
            other.yaw_nm,
        )
    }

    /// No force on any axis.
    pub fn zero() -> (tau: ForceDemand)
        ensures
            tau.is_zero(),
            tau.surge_n.bits == 0 && tau.sway_n.bits == 0 && tau.yaw_nm.bits == 0,
    {
        ForceDemand { surge_n: Scalar::zero(), sway_n: Scalar::zero(), yaw_nm: Scalar::zero() }
    }
}

impl PartialEq for ForceDemand {
    fn eq(&self, other: &ForceDemand) -> (b: bool) {
        self.surge_n == other.surge_n && self.sway_n == other.sway_n && self.yaw_nm
            == other.yaw_nm
    }
}

impl vstd::std_specs::cmp::PartialEqSpecImpl for ForceDemand {
    open spec fn obeys_eq_spec() -> bool {
        true
    }

    open spec fn eq_spec(&self, other: &ForceDemand) -> bool {
        self.same(*other)
    }
}

#[derive(Copy, Clone, Debug, PartialEq)]
pub struct ActuatorCommand {
    pub t: Timestamp,
    pub demand: ForceDemand,
}

/// What the actuators report back; input to the command-then-report
/// comparison.
#[derive(Copy, Clone, Debug, PartialEq)]
pub struct ActuatorFeedback {
    pub t: Timestamp,
    pub achieved: ForceDemand,
}

} // verus!
