//! What a measurement must satisfy on its own, before anyone asks who sent
//! it: one bad sample must not reach the filter through the Kalman gain.

use vstd::prelude::*;

use crate::contract::{GeoPoint, MeasurementKind};
use crate::scalar::Scalar;

verus! {

/// Why a measurement was refused.
#[derive(Debug, Clone, Copy, PartialEq, Eq, Structural)]
pub enum Rejection {
    /// Not in the matching fusion list, or no sensor entry at all.
    UnknownSensor,
    /// Listed, but the license is not `InnerLoop`.
    NotLicensed,
    /// Timestamp behind the filter.
    OutOfOrder,
    /// A value or declared std is NaN/infinite.
    NonFinite,
    /// A declared std is finite but not strictly positive, or a declared 2x2
    /// covariance is not symmetric within tolerance or not positive-definite.
    InvalidStd,
    /// A GNSS position is finite but geometrically impossible, a declared
    /// speed is negative, or a declared course exceeds one turn in magnitude.
    OutOfRange,
    /// A speed or course over ground arrived while the estimated antenna
    /// speed is below the floor.
    LowSpeed,
}

/// What the host has computed about a measurement before it hands it over.
/// A field that a measurement's kind gives no meaning to is not read.
#[derive(Debug, Clone, Copy, PartialEq)]
pub struct Figures {
    /// The filter's current speed estimate at the measuring sensor's lever
    /// arm. Read for speed and course over ground once the filter runs.
    pub antenna_speed_mps: Scalar,
    /// |c01 - c10| of a declared covariance.
    pub off_diagonal_gap: Scalar,
    /// The largest gap that still counts as symmetric.
    pub off_diagonal_tolerance: Scalar,
    /// c00 c11 - c01 c10 of a declared covariance.
    pub determinant: Scalar,
    /// The per-axis std an isotropic covariance of the same trace would have.
    pub isotropic_std_m: Scalar,
}

/// pi / 2, pi and 2 pi, rounded to binary64.
pub const FRAC_PI_2_BITS: u64 = 0x3ff9_21fb_5444_2d18;

pub const PI_BITS: u64 = 0x4009_21fb_5444_2d18;

pub const TAU_BITS: u64 = 0x4019_21fb_5444_2d18;

/// 1, the least scale that the symmetry of a covariance is judged on.
pub const LEAST_SCALE_BITS: u64 = 0x3ff0_0000_0000_0000;

/// Strictly above zero; false of NaN.
pub open spec fn positive(x: Scalar) -> bool {
    !x.nan() && x.units() > 0
}

/// At most `bound` away from zero; false of NaN.
pub open spec fn within(x: Scalar, bound_bits: u64) -> bool {
    let bound = Scalar { bits: bound_bits };
    !x.nan() && -bound.units() <= x.units() <= bound.units()
}

fn is_positive(x: Scalar) -> (b: bool)
    ensures
        b == positive(x),
{
    x.gt(Scalar::zero())
}

fn is_within(x: Scalar, bound_bits: u64) -> (b: bool)
    requires
        bound_bits < 0x7ff0_0000_0000_0000,
    ensures
        b == within(x, bound_bits),
{
    x.abs().le(Scalar { bits: bound_bits })
}

/// Every value and declared std that a measurement carries is finite.
pub open spec fn finite_values(kind: MeasurementKind) -> bool {
    match kind {
        MeasurementKind::GnssPosition { position, std_m } => position.lat_rad.finite()
            && position.lon_rad.finite() && std_m.finite(),
        MeasurementKind::Heading { heading_rad, std_rad } => heading_rad.finite()
            && std_rad.finite(),
        MeasurementKind::YawRate { yaw_rate_radps, std_radps } => yaw_rate_radps.finite()
            && std_radps.finite(),
        MeasurementKind::SpeedOverGround { sog_mps, std_mps } => sog_mps.finite()
            && std_mps.finite(),
        MeasurementKind::CourseOverGround { cog_rad, std_rad } => cog_rad.finite()
            && std_rad.finite(),
        MeasurementKind::GnssPositionCov { position, cov_ne_m2, fix } => position.lat_rad.finite()
            && position.lon_rad.finite() && cov_ne_m2@[0]@[0].finite()
            && cov_ne_m2@[0]@[1].finite() && cov_ne_m2@[1]@[0].finite()
            && cov_ne_m2@[1]@[1].finite(),
    }
}

/// A declared covariance is symmetric within tolerance and positive-definite:
/// both diagonal entries and the determinant strictly positive.
pub open spec fn usable_covariance(cov: [[Scalar; 2]; 2], f: Figures) -> bool {
    &&& f.off_diagonal_gap.at_most(f.off_diagonal_tolerance)
    &&& positive(cov@[0]@[0])
    &&& positive(cov@[1]@[1])
    &&& positive(f.determinant)
}

/// The scale that the symmetry tolerance of a covariance is relative to: the
/// larger of its off-diagonal sizes, and never below one.
pub fn symmetry_scale(cov: &[[Scalar; 2]; 2]) -> (scale: Scalar)
    ensures
        scale == crate::scalar::greater(
            crate::scalar::greater(size_of(cov@[0]@[1]), size_of(cov@[1]@[0])),
            Scalar { bits: LEAST_SCALE_BITS },
        ),
        !scale.nan(),
        scale.units() >= vstd::arithmetic::power2::pow2(1074),
        !cov@[0]@[1].nan() ==> -scale.units() <= cov@[0]@[1].units() <= scale.units(),
        !cov@[1]@[0].nan() ==> -scale.units() <= cov@[1]@[0].units() <= scale.units(),
        scale.units() == vstd::arithmetic::power2::pow2(1074) || scale.units()
            == cov@[0]@[1].units() || scale.units() == -cov@[0]@[1].units() || scale.units()
            == cov@[1]@[0].units() || scale.units() == -cov@[1]@[0].units(),
{
    proof {
        bounds_are_multiples_of_pi();
    }
    let north: [Scalar; 2] = cov[0];
    let east: [Scalar; 2] = cov[1];
    north[1].abs().max(east[0].abs()).max(Scalar { bits: LEAST_SCALE_BITS })
}

/// A value with its sign bit cleared.
pub open spec fn size_of(x: Scalar) -> Scalar {
    Scalar { bits: crate::scalar::low_bits(x.bits) as u64 }
}

/// The declared uncertainty can drive the Kalman gain.
pub open spec fn usable_std(kind: MeasurementKind, f: Figures) -> bool {
    match kind {
        MeasurementKind::GnssPosition { std_m, .. } => positive(std_m),
        MeasurementKind::Heading { std_rad, .. } => positive(std_rad),
        MeasurementKind::YawRate { std_radps, .. } => positive(std_radps),
        MeasurementKind::SpeedOverGround { std_mps, .. } => positive(std_mps),
        MeasurementKind::CourseOverGround { std_rad, .. } => positive(std_rad),
        MeasurementKind::GnssPositionCov { cov_ne_m2, .. } => usable_covariance(cov_ne_m2, f),
    }
}

/// On the globe: |lat| <= pi/2 and |lon| <= pi, both bounds included.
pub open spec fn on_globe(p: GeoPoint) -> bool {
    within(p.lat_rad, FRAC_PI_2_BITS) && within(p.lon_rad, PI_BITS)
}

/// No value is impossible for what it measures. Heading and yaw rate carry no
/// bound.
pub open spec fn plausible(kind: MeasurementKind) -> bool {
    match kind {
        MeasurementKind::GnssPosition { position, .. } => on_globe(position),
        MeasurementKind::GnssPositionCov { position, .. } => on_globe(position),
        MeasurementKind::Heading { .. } => true,
        MeasurementKind::YawRate { .. } => true,
        MeasurementKind::SpeedOverGround { sog_mps, .. } => !sog_mps.nan() && sog_mps.units() >= 0,
        MeasurementKind::CourseOverGround { cog_rad, .. } => within(cog_rad, TAU_BITS),
    }
}

/// What is wrong with a measurement in itself, if anything: non-finite values
/// first, then an unusable uncertainty, then an impossible value.
pub open spec fn screened_out(kind: MeasurementKind, f: Figures) -> Option<Rejection> {
    if !finite_values(kind) {
        Some(Rejection::NonFinite)
    } else if !usable_std(kind, f) {
        Some(Rejection::InvalidStd)
    } else if !plausible(kind) {
        Some(Rejection::OutOfRange)
    } else {
        None
    }
}

pub fn values_finite(kind: &MeasurementKind) -> (b: bool)
    ensures
        b == finite_values(*kind),
{
    match *kind {
        MeasurementKind::GnssPosition { position, std_m } => position.lat_rad.is_finite()
            && position.lon_rad.is_finite() && std_m.is_finite(),
        MeasurementKind::Heading { heading_rad, std_rad } => heading_rad.is_finite()
            && std_rad.is_finite(),
        MeasurementKind::YawRate { yaw_rate_radps, std_radps } => yaw_rate_radps.is_finite()
            && std_radps.is_finite(),
        MeasurementKind::SpeedOverGround { sog_mps, std_mps } => sog_mps.is_finite()
            && std_mps.is_finite(),
        MeasurementKind::CourseOverGround { cog_rad, std_rad } => cog_rad.is_finite()
            && std_rad.is_finite(),
        MeasurementKind::GnssPositionCov { position, cov_ne_m2, fix: _ } => {
            let north: [Scalar; 2] = cov_ne_m2[0];
            let east: [Scalar; 2] = cov_ne_m2[1];
            position.lat_rad.is_finite() && position.lon_rad.is_finite() && north[0].is_finite()
                && north[1].is_finite() && east[0].is_finite() && east[1].is_finite()
        },
    }
}

fn covariance_valid(cov: &[[Scalar; 2]; 2], f: &Figures) -> (b: bool)
    ensures
        b == usable_covariance(*cov, *f),
{
    let north: [Scalar; 2] = cov[0];
    let east: [Scalar; 2] = cov[1];
    let symmetric = f.off_diagonal_gap.le(f.off_diagonal_tolerance);
    let diag_positive = is_positive(north[0]) && is_positive(east[1]);
    symmetric && diag_positive && is_positive(f.determinant)
}

pub fn std_positive(kind: &MeasurementKind, f: &Figures) -> (b: bool)
    ensures
        b == usable_std(*kind, *f),
{
    match *kind {
        MeasurementKind::GnssPosition { std_m, .. } => is_positive(std_m),
        MeasurementKind::Heading { std_rad, .. } => is_positive(std_rad),
        MeasurementKind::YawRate { std_radps, .. } => is_positive(std_radps),
        MeasurementKind::SpeedOverGround { std_mps, .. } => is_positive(std_mps),
        MeasurementKind::CourseOverGround { std_rad, .. } => is_positive(std_rad),
        MeasurementKind::GnssPositionCov { cov_ne_m2, .. } => covariance_valid(&cov_ne_m2, f),
    }
}

fn position_ok(p: GeoPoint) -> (b: bool)
    ensures
        b == on_globe(p),
{
    is_within(p.lat_rad, FRAC_PI_2_BITS) && is_within(p.lon_rad, PI_BITS)
}

pub fn range_valid(kind: &MeasurementKind) -> (b: bool)
    ensures
        b == plausible(*kind),
{
    match *kind {
        MeasurementKind::GnssPosition { position, .. } => position_ok(position),
        MeasurementKind::GnssPositionCov { position, .. } => position_ok(position),
        MeasurementKind::Heading { .. } => true,
        MeasurementKind::YawRate { .. } => true,
        MeasurementKind::SpeedOverGround { sog_mps, .. } => sog_mps.ge(Scalar::zero()),
        MeasurementKind::CourseOverGround { cog_rad, .. } => is_within(cog_rad, TAU_BITS),
    }
}

/// The bounds are pi / 2, pi and 2 pi to seven decimals, each exactly twice
/// the one before, and the least scale is one.
pub proof fn bounds_are_multiples_of_pi()
    ensures
        ({
            let one = vstd::arithmetic::power2::pow2(1074);
            let quarter = (Scalar { bits: FRAC_PI_2_BITS }).units();
            let half = (Scalar { bits: PI_BITS }).units();
            let full = (Scalar { bits: TAU_BITS }).units();
            &&& 1_5707963 * one < 1_0000000 * quarter < 1_5707964 * one
            &&& half == 2 * quarter
            &&& full == 2 * half
            &&& (Scalar { bits: LEAST_SCALE_BITS }).units() == one
        }),
{
    vstd::arithmetic::power2::lemma2_to64();
    vstd::arithmetic::power2::lemma2_to64_rest();
    crate::scalar::pattern_value(FRAC_PI_2_BITS, 52, 0x19_21fb_5444_2d18, 0x10_0000_0000_0000);
    crate::scalar::pattern_value(PI_BITS, 51, 0x19_21fb_5444_2d18, 0x8_0000_0000_0000);
    crate::scalar::pattern_value(TAU_BITS, 50, 0x19_21fb_5444_2d18, 0x4_0000_0000_0000);
    crate::scalar::pattern_value(
        LEAST_SCALE_BITS,
        52,
        0x10_0000_0000_0000,
        0x10_0000_0000_0000,
    );
}

/// A position passes exactly when its coordinates and its std are finite, the
/// std is above zero, the latitude is at most a quarter turn and the longitude
/// at most half a turn from zero; the first of these to fail names the reason.
pub proof fn position_is_screened(position: GeoPoint, std_m: Scalar, f: Figures)
    ensures
        ({
            let out = screened_out(MeasurementKind::GnssPosition { position, std_m }, f);
            let lat = position.lat_rad.units();
            let lon = position.lon_rad.units();
            let quarter = (Scalar { bits: FRAC_PI_2_BITS }).units();
            let all_finite = position.lat_rad.finite() && position.lon_rad.finite()
                && std_m.finite();
            let on_earth = -quarter <= lat <= quarter && -2 * quarter <= lon <= 2 * quarter;
            &&& !all_finite ==> out == Some(Rejection::NonFinite)
            &&& all_finite && std_m.units() <= 0 ==> out == Some(Rejection::InvalidStd)
            &&& all_finite && std_m.units() > 0 && !on_earth ==> out == Some(
                Rejection::OutOfRange,
            )
            &&& all_finite && std_m.units() > 0 && on_earth ==> out is None
        }),
{
    bounds_are_multiples_of_pi();
}

/// The same of a position with a covariance, all four entries of which have to
/// be finite; in place of the std both variances and the determinant have to
/// be above zero and the off-diagonal gap within its tolerance.
pub proof fn position_with_covariance_is_screened(
    position: GeoPoint,
    cov_ne_m2: [[Scalar; 2]; 2],
    fix: crate::contract::GnssFixMode,
    f: Figures,
)
    ensures
        ({
            let out = screened_out(
                MeasurementKind::GnssPositionCov { position, cov_ne_m2, fix },
                f,
            );
            let lat = position.lat_rad.units();
            let lon = position.lon_rad.units();
            let quarter = (Scalar { bits: FRAC_PI_2_BITS }).units();
            let all_finite = position.lat_rad.finite() && position.lon_rad.finite() && (forall|
                r: int,
                c: int,
            |
                0 <= r < 2 && 0 <= c < 2 ==> (#[trigger] cov_ne_m2@[r]@[c]).finite());
            let spread = cov_ne_m2@[0]@[0].units() > 0 && cov_ne_m2@[1]@[1].units() > 0
                && !f.determinant.nan() && f.determinant.units() > 0;
            let symmetric = !f.off_diagonal_gap.nan() && !f.off_diagonal_tolerance.nan()
                && f.off_diagonal_gap.units() <= f.off_diagonal_tolerance.units();
            let on_earth = -quarter <= lat <= quarter && -2 * quarter <= lon <= 2 * quarter;
            &&& !all_finite ==> out == Some(Rejection::NonFinite)
            &&& all_finite && !(spread && symmetric) ==> out == Some(Rejection::InvalidStd)
            &&& all_finite && spread && symmetric && !on_earth ==> out == Some(
                Rejection::OutOfRange,
            )
            &&& all_finite && spread && symmetric && on_earth ==> out is None
        }),
{
    bounds_are_multiples_of_pi();
    let all_entries = forall|r: int, c: int|
        0 <= r < 2 && 0 <= c < 2 ==> (#[trigger] cov_ne_m2@[r]@[c]).finite();
    if all_entries {
        assert(cov_ne_m2@[0]@[0].finite() && cov_ne_m2@[0]@[1].finite());
        assert(cov_ne_m2@[1]@[0].finite() && cov_ne_m2@[1]@[1].finite());
    }
}

/// A heading or yaw rate passes exactly when it and its std are finite and the
/// std is above zero, whatever its size.
pub proof fn heading_and_yaw_rate_are_screened(value: Scalar, std: Scalar, f: Figures)
    ensures
        ({
            let heading = screened_out(
                MeasurementKind::Heading { heading_rad: value, std_rad: std },
                f,
            );
            let rate = screened_out(
                MeasurementKind::YawRate { yaw_rate_radps: value, std_radps: std },
                f,
            );
            let all_finite = value.finite() && std.finite();
            &&& !all_finite ==> heading == Some(Rejection::NonFinite) && rate == heading
            &&& all_finite && std.units() <= 0 ==> heading == Some(Rejection::InvalidStd) && rate
                == heading
            &&& all_finite && std.units() > 0 ==> heading is None && rate is None
        }),
{
}

/// A speed passes exactly when it and its std are finite, the std is above
/// zero and the speed not below it; a course when it is at most one turn
/// either way.
pub proof fn speed_and_course_are_screened(value: Scalar, std: Scalar, f: Figures)
    ensures
        ({
            let speed = screened_out(
                MeasurementKind::SpeedOverGround { sog_mps: value, std_mps: std },
                f,
            );
            let course = screened_out(
                MeasurementKind::CourseOverGround { cog_rad: value, std_rad: std },
                f,
            );
            let quarter = (Scalar { bits: FRAC_PI_2_BITS }).units();
            let all_finite = value.finite() && std.finite();
            let within_a_turn = -4 * quarter <= value.units() <= 4 * quarter;
            &&& !all_finite ==> speed == Some(Rejection::NonFinite) && course == speed
            &&& all_finite && std.units() <= 0 ==> speed == Some(Rejection::InvalidStd) && course
                == speed
            &&& all_finite && std.units() > 0 && value.units() < 0 ==> speed == Some(
                Rejection::OutOfRange,
            )
            &&& all_finite && std.units() > 0 && value.units() >= 0 ==> speed is None
            &&& all_finite && std.units() > 0 && !within_a_turn ==> course == Some(
                Rejection::OutOfRange,
            )
            &&& all_finite && std.units() > 0 && within_a_turn ==> course is None
        }),
{
    bounds_are_multiples_of_pi();
}

} // verus!
