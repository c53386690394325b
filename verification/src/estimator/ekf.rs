use vstd::prelude::*;

use crate::contract::{BodyVelocity, Covariance, Fossen3DofParams, GeoPoint, Pose, Timestamp};
use crate::contract::VesselState;
use crate::scalar::Scalar;

verus! {

/// How the velocity states propagate between measurements.
#[derive(Copy, Clone, Debug, PartialEq)]
pub enum ProcessModel {
    /// u, v, r held constant.
    ConstantVelocity,
    /// nu_dot from the Fossen 3-DOF model under the latest force demand.
    Hydrodynamic(Fossen3DofParams),
}

/// Filter state over x = [n, e, psi, u, v, r]: NED position (m), heading
/// (rad), body surge/sway (m/s), yaw rate (rad/s), with its covariance.
#[derive(Copy, Clone, Debug, PartialEq)]
pub struct Ekf {
    pub x: [Scalar; 6],
    pub p: Covariance,
}

/// Every element of a state and covariance is finite.
pub open spec fn all_finite(x: Seq<Scalar>, p: Seq<[Scalar; 6]>) -> bool {
    &&& forall|i: int| 0 <= i < x.len() ==> (#[trigger] x[i]).finite()
    &&& forall|i: int, j: int|
        0 <= i < p.len() && 0 <= j < 6 ==> (#[trigger] p[i]@[j]).finite()
}

impl Ekf {
    /// False once any state or covariance element has gone non-finite, the
    /// estimator's health gate for a filter that has come numerically unglued.
    pub fn is_finite(&self) -> (b: bool)
        ensures
            b == all_finite(self.x@, self.p@),
    {
        let mut i: usize = 0;
        while i < 6
            invariant
                i <= 6,
                forall|k: int| 0 <= k < i ==> (#[trigger] self.x@[k]).finite(),
                forall|k: int, j: int|
                    0 <= k < i && 0 <= j < 6 ==> (#[trigger] self.p@[k]@[j]).finite(),
            decreases 6 - i,
        {
            if !self.x[i].is_finite() {
                return false;
            }
            let row: [Scalar; 6] = self.p[i];
            let mut j: usize = 0;
            while j < 6
                invariant
                    i < 6,
                    j <= 6,
                    row == self.p@[i as int],
                    forall|k: int| 0 <= k < j ==> (#[trigger] row@[k]).finite(),
                decreases 6 - j,
            {
                if !row[j].is_finite() {
                    proof {
                        assert(!self.p@[i as int]@[j as int].finite());
                    }
                    return false;
                }
                j = j + 1;
            }
            i = i + 1;
        }
        true
    }

    /// The state everything downstream consumes, once the host has put the
    /// local position back on the globe.
    pub fn vessel_state(&self, t: Timestamp, position: GeoPoint) -> (s: VesselState)
        ensures
            s.t == t,
            s.pose.position == position,
            s.pose.heading_rad == self.x@[2],
            s.velocity.surge_mps == self.x@[3],
            s.velocity.sway_mps == self.x@[4],
            s.velocity.yaw_rate_radps == self.x@[5],
            s.covariance == self.p,
    {
        VesselState {
            t,
            pose: Pose { position, heading_rad: self.x[2] },
            velocity: BodyVelocity {
                surge_mps: self.x[3],
                sway_mps: self.x[4],
                yaw_rate_radps: self.x[5],
            },
            covariance: self.p,
        }
    }
}

/// Estimated-speed floor of speed and course over ground, 0.5 m/s: below it
/// the direction over the ground is noise whatever a receiver reports.
pub const COG_MIN_SPEED_BITS: u64 = 0x3fe0_0000_0000_0000;

/// The speed floor as a value.
pub fn cog_min_speed() -> (s: Scalar)
    ensures
        s.bits == COG_MIN_SPEED_BITS,
{
    Scalar { bits: COG_MIN_SPEED_BITS }
}

/// Whether an antenna speed is too low for speed and course over ground to be
/// fused. Judged on the antenna's speed: that is what a receiver measures.
pub open spec fn too_slow(antenna_speed_mps: Scalar) -> bool {
    antenna_speed_mps.less(Scalar { bits: COG_MIN_SPEED_BITS })
}

pub fn below_speed_floor(antenna_speed_mps: Scalar) -> (b: bool)
    ensures
        b == too_slow(antenna_speed_mps),
{
    antenna_speed_mps.lt(cog_min_speed())
}

/// One element that is not finite, anywhere in the state or the covariance, is
/// enough, and nothing else is.
pub proof fn one_bad_element_is_enough(x: Seq<Scalar>, p: Seq<[Scalar; 6]>, i: int, j: int)
    requires
        0 <= i < x.len(),
        0 <= i < p.len(),
        0 <= j < 6,
    ensures
        !x[i].finite() || !p[i]@[j].finite() ==> !all_finite(x, p),
        !all_finite(x, p) ==> (exists|k: int| 0 <= k < x.len() && !(#[trigger] x[k]).finite()) || (
        exists|k: int, l: int|
            0 <= k < p.len() && 0 <= l < 6 && !(#[trigger] p[k]@[l]).finite()),
{
}

/// The floor is half a meter per second: what is strictly below it is too
/// slow, and nothing else is.
pub proof fn too_slow_is_below_half_a_meter_per_second(v: Scalar)
    ensures
        too_slow(v) <==> !v.nan() && 2 * v.units() < vstd::arithmetic::power2::pow2(1074),
{
    vstd::arithmetic::power2::lemma2_to64_rest();
    crate::scalar::pattern_value(
        COG_MIN_SPEED_BITS,
        53,
        0x10_0000_0000_0000,
        0x20_0000_0000_0000,
    );
}

/// The published state is the filter's own: heading, surge, sway and yaw rate
/// from elements 2 to 5, with its covariance, at the given time and place.
pub proof fn published_state_is_the_filter_state(
    f: Ekf,
    t: Timestamp,
    position: GeoPoint,
    s: VesselState,
)
    requires
        call_ensures(Ekf::vessel_state, (&f, t, position), s),
    ensures
        s.t == t,
        s.pose.position.lat_rad == position.lat_rad,
        s.pose.position.lon_rad == position.lon_rad,
        s.pose.heading_rad == f.x@[2],
        s.velocity.surge_mps == f.x@[3],
        s.velocity.sway_mps == f.x@[4],
        s.velocity.yaw_rate_radps == f.x@[5],
        s.covariance == f.p,
{
}

} // verus!
