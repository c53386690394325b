use vstd::prelude::*;

use super::actuator::ForceDemand;
use super::bounded::BoundedList;
use super::geo::GeoPoint;
use crate::scalar::Scalar;

verus! {

/// What the conn holder asks guidance to do.
#[derive(Copy, Clone, Debug)]
pub enum Setpoint {
    Idle,
    HeadingSpeed { heading_rad: Scalar, speed_mps: Scalar },
    StationKeep { position: GeoPoint },
    /// Waypoints traversed in order at the given speed; guidance holds
    /// station at the final one.
    FollowPath { path: BoundedList<GeoPoint, 16>, speed_mps: Scalar },
    /// A force demand passed straight through, e.g. from a hand controller.
    DirectEffort(ForceDemand),
}

/// Waypoint lists equal point by point.
pub open spec fn same_path(a: Seq<GeoPoint>, b: Seq<GeoPoint>) -> bool {
    a.len() == b.len() && forall|i: int| 0 <= i < a.len() ==> (#[trigger] a[i]).same(b[i])
}

impl Setpoint {
    /// The same demand, its numbers equal as IEEE-754 has it.
    pub open spec fn same(self, other: Setpoint) -> bool {
        match (self, other) {
            (Setpoint::Idle, Setpoint::Idle) => true,
            (
                Setpoint::HeadingSpeed { heading_rad: h1, speed_mps: s1 },
                Setpoint::HeadingSpeed { heading_rad: h2, speed_mps: s2 },
            ) => h1.same(h2) && s1.same(s2),
            (
                Setpoint::StationKeep { position: p1 },
                Setpoint::StationKeep { position: p2 },
            ) => p1.same(p2),
            (
                Setpoint::FollowPath { path: p1, speed_mps: s1 },
                Setpoint::FollowPath { path: p2, speed_mps: s2 },
            ) => same_path(p1@, p2@) && s1.same(s2),
            (Setpoint::DirectEffort(d1), Setpoint::DirectEffort(d2)) => d1.same(d2),
            _ => false,
        }
    }
}

impl PartialEq for Setpoint {
    fn eq(&self, other: &Setpoint) -> (b: bool) {
        match self {
            Setpoint::Idle => match other {
                Setpoint::Idle => true,
                _ => false,
            },
            Setpoint::HeadingSpeed { heading_rad, speed_mps } => match other {
                Setpoint::HeadingSpeed { heading_rad: h, speed_mps: s } => *heading_rad == *h
                    && *speed_mps == *s,
                _ => false,
            },
            Setpoint::StationKeep { position } => match other {
                Setpoint::StationKeep { position: p } => *position == *p,
                _ => false,
            },
            Setpoint::FollowPath { path, speed_mps } => match other {
                Setpoint::FollowPath { path: p, speed_mps: s } => *path == *p && *speed_mps == *s,
                _ => false,
            },
            Setpoint::DirectEffort(demand) => match other {
                Setpoint::DirectEffort(d) => *demand == *d,
                _ => false,
            },
        }
    }
}

impl vstd::std_specs::cmp::PartialEqSpecImpl for Setpoint {
    open spec fn obeys_eq_spec() -> bool {
        true
    }

    open spec fn eq_spec(&self, other: &Setpoint) -> bool {
        self.same(*other)
    }
}

/// Two setpoints are the same exactly when they are of one kind and every
/// number in one equals its counterpart in the other; a NaN equals nothing.
pub proof fn setpoints_are_the_same_number_by_number(a: Setpoint, b: Setpoint)
    ensures
        a is Idle && b is Idle ==> a.same(b),
        a.same(b) ==> (a is Idle <==> b is Idle) && (a is HeadingSpeed <==> b is HeadingSpeed) && (
        a is StationKeep <==> b is StationKeep) && (a is FollowPath <==> b is FollowPath) && (
        a is DirectEffort <==> b is DirectEffort),
        a matches Setpoint::HeadingSpeed { heading_rad: h1, speed_mps: s1 } ==> (
        b matches Setpoint::HeadingSpeed { heading_rad: h2, speed_mps: s2 } ==> (a.same(b) <==> (
        !h1.nan() && !h2.nan() && !s1.nan() && !s2.nan() && h1.units() == h2.units() && s1.units()
            == s2.units()))),
        a matches Setpoint::StationKeep { position: p1 } ==> (
        b matches Setpoint::StationKeep { position: p2 } ==> (a.same(b) <==> (!p1.lat_rad.nan()
            && !p2.lat_rad.nan() && !p1.lon_rad.nan() && !p2.lon_rad.nan() && p1.lat_rad.units()
            == p2.lat_rad.units() && p1.lon_rad.units() == p2.lon_rad.units()))),
        a matches Setpoint::FollowPath { path: p1, speed_mps: s1 } ==> (
        b matches Setpoint::FollowPath { path: p2, speed_mps: s2 } ==> (a.same(b) <==> (p1@.len()
            == p2@.len() && (forall|i: int|
            0 <= i < p1@.len() ==> !(#[trigger] p1@[i]).lat_rad.nan() && !p2@[i].lat_rad.nan()
                && !p1@[i].lon_rad.nan() && !p2@[i].lon_rad.nan() && p1@[i].lat_rad.units()
                == p2@[i].lat_rad.units() && p1@[i].lon_rad.units() == p2@[i].lon_rad.units())
            && !s1.nan() && !s2.nan() && s1.units() == s2.units()))),
        a matches Setpoint::DirectEffort(d1) ==> (b matches Setpoint::DirectEffort(d2) ==> (a.same(b)
            <==> (!d1.surge_n.nan() && !d2.surge_n.nan() && !d1.sway_n.nan() && !d2.sway_n.nan()
            && !d1.yaw_nm.nan() && !d2.yaw_nm.nan() && d1.surge_n.units() == d2.surge_n.units()
            && d1.sway_n.units() == d2.sway_n.units() && d1.yaw_nm.units() == d2.yaw_nm.units()))),
{
}

} // verus!
