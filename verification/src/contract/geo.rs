use vstd::prelude::*;

use crate::scalar::Scalar;

verus! {

/// WGS84 position in radians. Radians because the math consumes them.
#[derive(Copy, Clone, Debug)]
pub struct GeoPoint {
    pub lat_rad: Scalar,
    pub lon_rad: Scalar,
}

impl Default for GeoPoint {
    fn default() -> (p: GeoPoint)
        ensures
            p.lat_rad.bits == 0,
            p.lon_rad.bits == 0,
    {
        GeoPoint { lat_rad: Scalar::zero(), lon_rad: Scalar::zero() }
    }
}

impl GeoPoint {
    /// Coordinates equal as IEEE-754 has it.
    pub open spec fn same(self, other: GeoPoint) -> bool {
        self.lat_rad.same(other.lat_rad) && self.lon_rad.same(other.lon_rad)
    }
}

impl PartialEq for GeoPoint {
    fn eq(&self, other: &GeoPoint) -> (b: bool) {
        self.lat_rad == other.lat_rad && self.lon_rad == other.lon_rad
    }
}

impl vstd::std_specs::cmp::PartialEqSpecImpl for GeoPoint {
    open spec fn obeys_eq_spec() -> bool {
        true
    }

    open spec fn eq_spec(&self, other: &GeoPoint) -> bool {
        self.same(*other)
    }
}

} // verus!
