use vstd::prelude::*;

use crate::contract::{ActuationCapability, ForceDemand, GeoPoint, ModelParams, Setpoint};
use crate::contract::VesselConfig;
use crate::scalar::Scalar;

verus! {

/// A waypoint counts as reached inside this radius, 5 m.
pub const ACCEPT_RADIUS_M_BITS: u64 = 0x4014_0000_0000_0000;

/// Station-keeping zone boundary, 5 m.
pub const NEAR_ZONE_M_BITS: u64 = 0x4014_0000_0000_0000;

/// A hull without sway authority goes quiet inside the first radius, 4 m, and
/// stays so until it has drifted past the second, 10 m.
pub const DRIFT_RADIUS_M_BITS: u64 = 0x4010_0000_0000_0000;

pub const REAPPROACH_RADIUS_M_BITS: u64 = 0x4024_0000_0000_0000;

/// The geometry of one path leg, seen from the vessel.
#[derive(Copy, Clone, Debug, PartialEq)]
pub struct Leg {
    /// Distance to the leg's endpoint.
    pub endpoint_dist_m: Scalar,
    /// The vessel's offset from the leg's start, projected onto the leg and
    /// multiplied by its length.
    pub progress: Scalar,
    /// The leg's length squared.
    pub length_sq: Scalar,
}

/// What the host has worked out about the setpoint's geometry. A field that
/// the setpoint gives no meaning to is not read.
#[derive(Copy, Clone, Debug)]
pub struct Geometry<'a> {
    /// The vessel's heading.
    pub heading_rad: Scalar,
    /// Distance to the point a station-keep or the end of a path holds at.
    pub hold_dist_m: Scalar,
    /// The legs of a path, leg `i` from waypoint `i` to waypoint `i + 1`.
    pub legs: &'a [Leg],
}

/// The control law of a tick, for the host to evaluate.
#[derive(Copy, Clone, Debug, PartialEq)]
pub enum Law {
    /// No force at all.
    Rest,
    /// This demand.
    Effort(ForceDemand),
    /// Hold a heading and a speed.
    Steer { heading_rad: Scalar, speed_mps: Scalar },
    /// An ordinary transit leg toward a point.
    Approach { target: GeoPoint },
    /// Position control at a point, with the heading held.
    Hold { target: GeoPoint, heading_rad: Scalar },
    /// Line-of-sight following of a leg at a speed.
    Track { from: GeoPoint, to: GeoPoint, speed_mps: Scalar },
}

/// What guidance remembers between ticks.
pub ghost struct Progress {
    pub last: Option<Setpoint>,
    pub seg: int,
    pub hold_heading: Option<Scalar>,
    pub drifting: bool,
}

/// Progress as a changed setpoint leaves it.
pub open spec fn renewed(setpoint: Setpoint) -> Progress {
    Progress { last: Some(setpoint), seg: 0, hold_heading: None, drifting: false }
}

/// Progress when a tick starts: kept while the setpoint stays the same, else
/// renewed. A setpoint that is not equal to itself, holding a NaN, is never
/// the same.
pub open spec fn opened(p: Progress, setpoint: Setpoint) -> Progress {
    if p.last is Some && p.last->0.same(setpoint) {
        p
    } else {
        renewed(setpoint)
    }
}

/// A leg is done when the vessel is inside the acceptance radius of its
/// endpoint or past the perpendicular through it. A leg of no length is done.
pub open spec fn leg_done(leg: Leg) -> bool {
    leg.endpoint_dist_m.at_most(Scalar { bits: ACCEPT_RADIUS_M_BITS }) || leg.length_sq.at_most(
        leg.progress,
    )
}

/// Leg `k` is known and done.
pub open spec fn passed(legs: Seq<Leg>, k: int) -> bool {
    0 <= k < legs.len() && leg_done(legs[k])
}

/// The first leg from `seg` on that is not done, out of the first `count`.
pub open spec fn advanced(legs: Seq<Leg>, seg: int, count: int) -> int
    decreases count - seg,
{
    if seg < count && passed(legs, seg) {
        advanced(legs, seg + 1, count)
    } else {
        seg
    }
}

/// Whether a hull that has to drift at the hold point is drifting.
pub open spec fn drifts(was: bool, dist: Scalar) -> bool {
    if was {
        !(Scalar { bits: REAPPROACH_RADIUS_M_BITS }).less(dist)
    } else {
        dist.less(Scalar { bits: DRIFT_RADIUS_M_BITS })
    }
}

/// Whether a distance is outside the near zone.
pub open spec fn far(dist: Scalar) -> bool {
    (Scalar { bits: NEAR_ZONE_M_BITS }).less(dist)
}

/// Progress after a tick of holding at a point. A hull with sway authority
/// captures its heading on entering the near zone and gives it up on leaving;
/// one without drifts and reapproaches.
pub open spec fn held(p: Progress, sway: bool, g_heading: Scalar, dist: Scalar) -> Progress {
    if !sway {
        Progress { drifting: drifts(p.drifting, dist), ..p }
    } else if far(dist) {
        Progress { hold_heading: None, ..p }
    } else {
        Progress {
            hold_heading: if p.hold_heading is Some {
                p.hold_heading
            } else {
                Some(g_heading)
            },
            ..p
        }
    }
}

/// The law of holding at `target`, given the progress after the tick.
pub open spec fn hold_law(after: Progress, sway: bool, target: GeoPoint, dist: Scalar) -> Law {
    if !sway {
        if after.drifting {
            Law::Rest
        } else {
            Law::Approach { target }
        }
    } else if far(dist) {
        Law::Approach { target }
    } else {
        Law::Hold { target, heading_rad: after.hold_heading->0 }
    }
}

/// Progress and law of a tick.
pub open spec fn ticked(
    p: Progress,
    sway: bool,
    setpoint: Setpoint,
    heading_rad: Scalar,
    hold_dist_m: Scalar,
    legs: Seq<Leg>,
) -> (Progress, Law) {
    let o = opened(p, setpoint);
    match setpoint {
        Setpoint::Idle => (o, Law::Rest),
        Setpoint::DirectEffort(demand) => (o, Law::Effort(demand)),
        Setpoint::HeadingSpeed { heading_rad: h, speed_mps } => (
            o,
            Law::Steer { heading_rad: h, speed_mps },
        ),
        Setpoint::StationKeep { position } => {
            let after = held(o, sway, heading_rad, hold_dist_m);
            (after, hold_law(after, sway, position, hold_dist_m))
        },
        Setpoint::FollowPath { path, speed_mps } => {
            let n = path@.len() as int;
            if n == 0 {
                (o, Law::Rest)
            } else if n == 1 {
                let after = held(o, sway, heading_rad, hold_dist_m);
                (after, hold_law(after, sway, path@[0], hold_dist_m))
            } else {
                let seg = advanced(legs, o.seg, n - 1);
                let along = Progress { seg, ..o };
                if seg >= n - 1 {
                    let after = held(along, sway, heading_rad, hold_dist_m);
                    (after, hold_law(after, sway, path@[n - 1], hold_dist_m))
                } else {
                    (along, Law::Track { from: path@[seg], to: path@[seg + 1], speed_mps })
                }
            }
        },
    }
}

/// The active segment of a path always starts at one of its waypoints.
pub open spec fn on_path(p: Progress) -> bool {
    match p.last {
        Some(Setpoint::FollowPath { path, .. }) => 0 <= p.seg && (p.seg == 0 || p.seg
            < path@.len()),
        _ => p.seg == 0,
    }
}

pub struct Guidance {
    model: ModelParams,
    capability: ActuationCapability,
    // Last setpoint seen; a change resets everything below.
    last: Option<Setpoint>,
    // FollowPath progress: the active segment runs path[seg] -> path[seg+1].
    seg: usize,
    // Station-keeping near zone: heading captured on zone entry and held.
    hold_heading: Option<Scalar>,
    // A hull without sway authority that has gone quiet at the hold point.
    drifting: bool,
}

impl View for Guidance {
    type V = Progress;

    closed spec fn view(&self) -> Progress {
        Progress {
            last: self.last,
            seg: self.seg as int,
            hold_heading: self.hold_heading,
            drifting: self.drifting,
        }
    }
}

proof fn lemma_advanced(legs: Seq<Leg>, seg: int, count: int)
    requires
        0 <= seg,
    ensures
        seg <= advanced(legs, seg, count),
        seg <= count ==> advanced(legs, seg, count) <= count,
        forall|k: int|
            seg <= k < advanced(legs, seg, count) ==> #[trigger] passed(legs, k),
    decreases count - seg,
{
    if seg < count && passed(legs, seg) {
        lemma_advanced(legs, seg + 1, count);
    }
}

/// Sequencing stops at the first leg that is not done, and at the end of the
/// path when there is none.
proof fn lemma_advanced_stops(legs: Seq<Leg>, seg: int, count: int, stop: int)
    requires
        seg <= stop <= count,
        forall|k: int| seg <= k < stop ==> #[trigger] passed(legs, k),
        stop == count || !passed(legs, stop),
    ensures
        advanced(legs, seg, count) == stop,
    decreases stop - seg,
{
    if seg < stop {
        assert(passed(legs, seg));
        lemma_advanced_stops(legs, seg + 1, count, stop);
    }
}

impl Guidance {
    pub closed spec fn model(self) -> ModelParams {
        self.model
    }

    pub closed spec fn capability(self) -> ActuationCapability {
        self.capability
    }

    #[verifier::type_invariant]
    spec fn wf(self) -> bool {
        on_path(self@)
    }

    /// `config` selects the model that the host derives its gains from,
    /// `capability` the kind of hold.
    pub fn new(config: &VesselConfig, capability: ActuationCapability) -> (g: Guidance)
        ensures
            g.model() == config.estimator.model,
            g.capability() == capability,
            g@ == (Progress { last: None, seg: 0, hold_heading: None, drifting: false }),
    {
        Guidance {
            model: config.estimator.model,
            capability,
            last: None,
            seg: 0,
            hold_heading: None,
            drifting: false,
        }
    }

    /// One control tick: the effective setpoint and its geometry, out comes
    /// the law. Pure except for progress.
    pub fn tick(&mut self, setpoint: &Setpoint, geometry: &Geometry<'_>) -> (law: Law)
        ensures
            final(self).model() == old(self).model(),
            final(self).capability() == old(self).capability(),
            (final(self)@, law) == ticked(
                old(self)@,
                old(self).capability().sway_authority,
                *setpoint,
                geometry.heading_rad,
                geometry.hold_dist_m,
                geometry.legs@,
            ),
    {
        proof {
            use_type_invariant(&*self);
        }
        let same = match self.last {
            Some(last) => last == *setpoint,
            None => false,
        };
        if !same {
            *self =
            Guidance {
                model: self.model,
                capability: self.capability,
                last: Some(*setpoint),
                seg: 0,
                hold_heading: None,
                drifting: false,
            };
        }
        let ghost o = self@;
        match setpoint {
            Setpoint::Idle => Law::Rest,
            Setpoint::DirectEffort(demand) => Law::Effort(*demand),
            Setpoint::HeadingSpeed { heading_rad, speed_mps } => Law::Steer {
                heading_rad: *heading_rad,
                speed_mps: *speed_mps,
            },
            Setpoint::StationKeep { position } => self.station_keep(*position, geometry),
            Setpoint::FollowPath { path, speed_mps } => {
                let points = path.as_slice();
                let n: usize = points.len();
                if n == 0 {
                    return Law::Rest;
                }
                if n == 1 {
                    return self.station_keep(points[0], geometry);
                }
                let seg: usize = self.follow_path(n, geometry);
                if seg >= n - 1 {
                    return self.station_keep(points[n - 1], geometry);
                }
                Law::Track { from: points[seg], to: points[seg + 1], speed_mps: *speed_mps }
            },
        }
    }

    /// Advances past every leg that is done and returns the active segment.
    fn follow_path(&mut self, n: usize, geometry: &Geometry<'_>) -> (seg: usize)
        requires
            2 <= n,
            old(self)@.last matches Some(Setpoint::FollowPath { path, .. }) && path@.len() == n,
        ensures
            final(self).model() == old(self).model(),
            final(self).capability() == old(self).capability(),
            seg == advanced(geometry.legs@, old(self)@.seg, n - 1),
            seg <= n - 1,
            final(self)@ == (Progress { seg: seg as int, ..old(self)@ }),
    {
        proof {
            use_type_invariant(&*self);
        }
        let legs = geometry.legs;
        let mut seg: usize = self.seg;
        let ghost start = self@.seg;
        while seg + 1 < n && seg < legs.len() && Self::reached(&legs[seg])
            invariant
                0 <= start <= seg < n,
                legs@ == geometry.legs@,
                advanced(geometry.legs@, start, n - 1) == advanced(
                    geometry.legs@,
                    seg as int,
                    n - 1,
                ),
            decreases n - seg,
        {
            seg = seg + 1;
        }
        self.seg = seg;
        seg
    }

    fn reached(leg: &Leg) -> (b: bool)
        ensures
            b == leg_done(*leg),
    {
        leg.endpoint_dist_m.le(Scalar { bits: ACCEPT_RADIUS_M_BITS }) || leg.progress.ge(
            leg.length_sq,
        )
    }

    fn station_keep(&mut self, target: GeoPoint, geometry: &Geometry<'_>) -> (law: Law)
        ensures
            final(self).model() == old(self).model(),
            final(self).capability() == old(self).capability(),
            final(self)@ == held(
                old(self)@,
                old(self).capability().sway_authority,
                geometry.heading_rad,
                geometry.hold_dist_m,
            ),
            law == hold_law(
                final(self)@,
                old(self).capability().sway_authority,
                target,
                geometry.hold_dist_m,
            ),
    {
        proof {
            use_type_invariant(&*self);
        }
        let dist = geometry.hold_dist_m;
        if !self.capability.sway_authority {
            let drifting = if self.drifting {
                !dist.gt(Scalar { bits: REAPPROACH_RADIUS_M_BITS })
            } else {
                dist.lt(Scalar { bits: DRIFT_RADIUS_M_BITS })
            };
            self.drifting = drifting;
            return if drifting {
                Law::Rest
            } else {
                Law::Approach { target }
            };
        }
        if dist.gt(Scalar { bits: NEAR_ZONE_M_BITS }) {
            // Far zone: an ordinary transit leg toward the target.
            self.hold_heading = None;
            Law::Approach { target }
        } else {
            // Near zone: position control at the point, holding the heading
            // of approach.
            let heading_rad = match self.hold_heading {
                Some(h) => h,
                None => geometry.heading_rad,
            };
            self.hold_heading = Some(heading_rad);
            Law::Hold { target, heading_rad }
        }
    }

    /// The active segment of a followed path.
    pub fn segment(&self) -> (seg: usize)
        ensures
            seg == self@.seg,
    {
        self.seg
    }

    /// The model that the host derives its gains from.
    pub fn gains_model(&self) -> (m: ModelParams)
        ensures
            m == self.model(),
    {
        self.model
    }
}

/// A changed setpoint starts over: the tick is that of a guidance that has
/// seen nothing.
pub proof fn setpoint_change_resets_progress(
    p: Progress,
    sway: bool,
    setpoint: Setpoint,
    heading_rad: Scalar,
    hold_dist_m: Scalar,
    legs: Seq<Leg>,
)
    requires
        p.last is None || !p.last->0.same(setpoint),
    ensures
        ticked(p, sway, setpoint, heading_rad, hold_dist_m, legs) == ticked(
            Progress { last: None, seg: 0, hold_heading: None, drifting: false },
            sway,
            setpoint,
            heading_rad,
            hold_dist_m,
            legs,
        ),
{
}

/// While the setpoint stays, waypoints are consumed in order and none is taken
/// back; a leg is passed only when it is done, and the segment never leaves
/// the path.
pub proof fn waypoints_are_taken_in_order(
    p: Progress,
    sway: bool,
    setpoint: Setpoint,
    heading_rad: Scalar,
    hold_dist_m: Scalar,
    legs: Seq<Leg>,
)
    requires
        on_path(p),
        p.last is Some && p.last->0.same(setpoint),
    ensures
        ({
            let after = ticked(p, sway, setpoint, heading_rad, hold_dist_m, legs).0;
            &&& on_path(after)
            &&& p.seg <= after.seg
            &&& forall|k: int|
                p.seg <= k < after.seg ==> #[trigger] passed(legs, k)
        }),
{
    if let Setpoint::FollowPath { path, .. } = setpoint {
        lemma_advanced(legs, p.seg, path@.len() - 1);
        assert(p.last->0 is FollowPath);
        assert(p.last->0->path@.len() == path@.len());
    }
}

/// Nothing to follow is rest, and a path of one point is a station-keep at it.
pub proof fn degenerate_paths(
    p: Progress,
    sway: bool,
    path_setpoint: Setpoint,
    heading_rad: Scalar,
    hold_dist_m: Scalar,
    legs: Seq<Leg>,
)
    requires
        path_setpoint is FollowPath,
        p.last is None,
        p.seg == 0 && p.hold_heading is None && !p.drifting,
    ensures
        path_setpoint->path@.len() == 0 ==> ticked(
            p,
            sway,
            path_setpoint,
            heading_rad,
            hold_dist_m,
            legs,
        ).1 == Law::Rest,
        path_setpoint->path@.len() == 1 ==> ticked(
            p,
            sway,
            path_setpoint,
            heading_rad,
            hold_dist_m,
            legs,
        ).1 == ticked(
            p,
            sway,
            Setpoint::StationKeep { position: path_setpoint->path@[0] },
            heading_rad,
            hold_dist_m,
            legs,
        ).1,
{
}

/// What a tick of following a path asks for: rest where there is nothing to
/// follow; the hold of a station-keep at the only point, or at the last one
/// once every remaining leg is done; else a transit of the first leg, `stop`,
/// that is not.
pub proof fn path_law_by_case(
    p: Progress,
    sway: bool,
    path_setpoint: Setpoint,
    heading_rad: Scalar,
    hold_dist_m: Scalar,
    legs: Seq<Leg>,
    stop: int,
)
    requires
        on_path(p),
        path_setpoint is FollowPath,
        opened(p, path_setpoint).seg <= stop,
        forall|k: int|
            opened(p, path_setpoint).seg <= k < stop ==> #[trigger] passed(legs, k),
    ensures
        ({
            let path = path_setpoint->path@;
            let end = path.len() - 1;
            let o = opened(p, path_setpoint);
            let there = held(Progress { seg: end, ..o }, sway, heading_rad, hold_dist_m);
            let (after, law) = ticked(
                p,
                sway,
                path_setpoint,
                heading_rad,
                hold_dist_m,
                legs,
            );
            &&& path.len() == 0 ==> after == o && law == Law::Rest
            &&& path.len() == 1 || (path.len() > 1 && stop == end) ==> after == there && law
                == hold_law(there, sway, path.last(), hold_dist_m)
            &&& stop < end && !passed(legs, stop) ==> after == (Progress { seg: stop, ..o })
                && law == (Law::Track {
                from: path[stop],
                to: path[stop + 1],
                speed_mps: path_setpoint->FollowPath_speed_mps,
            })
        }),
{
    let o = opened(p, path_setpoint);
    let end = path_setpoint->path@.len() - 1;
    if p.last is Some && p.last->0.same(path_setpoint) {
        assert(p.last->0 is FollowPath);
        assert(p.last->0->path@.len() == end + 1);
    }
    if 0 < end && (stop == end || (stop < end && !passed(legs, stop))) {
        lemma_advanced_stops(legs, o.seg, end, stop);
    }
}

/// A hull without sway authority goes quiet inside the drift radius, stays
/// quiet as long as it has not left the reapproach radius, and is never quiet
/// outside it.
pub proof fn drift_and_reapproach(p: Progress, heading_rad: Scalar, dist: Scalar, target: GeoPoint)
    requires
        !dist.nan(),
    ensures
        ({
            let after = held(p, false, heading_rad, dist);
            let law = hold_law(after, false, target, dist);
            &&& dist.less(Scalar { bits: DRIFT_RADIUS_M_BITS }) ==> law == Law::Rest
            &&& p.drifting && dist.at_most(Scalar { bits: REAPPROACH_RADIUS_M_BITS }) ==> law
                == Law::Rest
            &&& (Scalar { bits: REAPPROACH_RADIUS_M_BITS }).less(dist) ==> law
                == (Law::Approach { target })
            &&& !p.drifting && !dist.less(Scalar { bits: DRIFT_RADIUS_M_BITS }) ==> law
                == (Law::Approach { target })
        }),
{
    lemma_radii();
}

/// The drift radius lies inside the reapproach radius.
proof fn lemma_radii()
    ensures
        (Scalar { bits: DRIFT_RADIUS_M_BITS }).less(Scalar { bits: REAPPROACH_RADIUS_M_BITS }),
        !(Scalar { bits: REAPPROACH_RADIUS_M_BITS }).nan(),
{
    crate::scalar::lemma_magnitude_order(DRIFT_RADIUS_M_BITS, REAPPROACH_RADIUS_M_BITS);
}

/// A hull with sway authority keeps the heading it captured on entering the
/// near zone for as long as it stays there, whichever way it turns meanwhile.
pub proof fn hold_heading_is_kept(
    p: Progress,
    heading_rad: Scalar,
    dist: Scalar,
    later_heading_rad: Scalar,
    later_dist: Scalar,
    target: GeoPoint,
)
    requires
        p.hold_heading is None,
        !far(dist),
        !far(later_dist),
    ensures
        ({
            let entered = held(p, true, heading_rad, dist);
            let later = held(entered, true, later_heading_rad, later_dist);
            &&& hold_law(entered, true, target, dist) == (Law::Hold { target, heading_rad })
            &&& hold_law(later, true, target, later_dist) == (Law::Hold { target, heading_rad })
        }),
{
}

/// The radii are 5 m, 5 m, 4 m and 10 m.
pub proof fn radii_in_meters()
    ensures
        ({
            let one = vstd::arithmetic::power2::pow2(1074) as int;
            &&& one > 0
            &&& (Scalar { bits: ACCEPT_RADIUS_M_BITS }).units() == 5 * one
            &&& (Scalar { bits: NEAR_ZONE_M_BITS }).units() == 5 * one
            &&& (Scalar { bits: DRIFT_RADIUS_M_BITS }).units() == 4 * one
            &&& (Scalar { bits: REAPPROACH_RADIUS_M_BITS }).units() == 10 * one
        }),
{
    vstd::arithmetic::power2::lemma2_to64_rest();
    crate::scalar::pattern_value(
        ACCEPT_RADIUS_M_BITS,
        50,
        0x14_0000_0000_0000,
        0x4_0000_0000_0000,
    );
    crate::scalar::pattern_value(
        DRIFT_RADIUS_M_BITS,
        50,
        0x10_0000_0000_0000,
        0x4_0000_0000_0000,
    );
    crate::scalar::pattern_value(
        REAPPROACH_RADIUS_M_BITS,
        49,
        0x14_0000_0000_0000,
        0x2_0000_0000_0000,
    );
}

/// A leg is done for every endpoint distance of at most 5 m and for every
/// progress at or beyond its length squared, however far beyond, and for
/// nothing else.
pub proof fn leg_is_done_near_its_end_or_past_it(leg: Leg)
    ensures
        leg_done(leg) <==> (!leg.endpoint_dist_m.nan() && leg.endpoint_dist_m.units() <= 5
            * vstd::arithmetic::power2::pow2(1074)) || (!leg.progress.nan() && !leg.length_sq.nan()
            && leg.progress.units() >= leg.length_sq.units()),
{
    radii_in_meters();
}

/// A leg that is done stays done when the vessel is no farther from its
/// endpoint and no less far along.
pub proof fn done_stays_done(leg: Leg, later: Leg)
    requires
        leg_done(leg),
        later.length_sq == leg.length_sq,
        !later.progress.nan(),
        !later.endpoint_dist_m.nan(),
        !leg.progress.nan() ==> later.progress.units() >= leg.progress.units(),
        !leg.endpoint_dist_m.nan() ==> later.endpoint_dist_m.units() <= leg.endpoint_dist_m.units(),
    ensures
        leg_done(later),
{
    radii_in_meters();
}

/// A tick on a path takes the vessel past leg `k` when every leg from the
/// active one up to `k` has its endpoint within 5 m or is passed by its
/// progress, and never past a leg for which neither holds.
pub proof fn tick_passes_exactly_the_legs_that_are_done(
    p: Progress,
    sway: bool,
    path_setpoint: Setpoint,
    heading_rad: Scalar,
    hold_dist_m: Scalar,
    legs: Seq<Leg>,
    k: int,
)
    requires
        on_path(p),
        path_setpoint is FollowPath,
        path_setpoint->path@.len() >= 2,
        legs.len() == path_setpoint->path@.len() - 1,
        opened(p, path_setpoint).seg <= k < legs.len(),
    ensures
        ({
            let after = ticked(
                p,
                sway,
                path_setpoint,
                heading_rad,
                hold_dist_m,
                legs,
            ).0;
            let one = vstd::arithmetic::power2::pow2(1074) as int;
            &&& (forall|j: int|
                opened(p, path_setpoint).seg <= j <= k ==> ((!(
                #[trigger] legs[j]).endpoint_dist_m.nan() && legs[j].endpoint_dist_m.units() <= 5
                    * one) || (!legs[j].progress.nan() && !legs[j].length_sq.nan()
                    && legs[j].progress.units() >= legs[j].length_sq.units()))) ==> after.seg > k
            &&& (legs[k].endpoint_dist_m.nan() || legs[k].endpoint_dist_m.units() > 5 * one) && (
            legs[k].progress.nan() || legs[k].length_sq.nan() || legs[k].progress.units()
                < legs[k].length_sq.units()) ==> after.seg <= k
        }),
{
    let o = opened(p, path_setpoint);
    let end = path_setpoint->path@.len() - 1;
    radii_in_meters();
    if p.last is Some && p.last->0.same(path_setpoint) {
        assert(p.last->0 is FollowPath);
        assert(p.last->0->path@.len() == end + 1);
    }
    lemma_advanced(legs, o.seg, end);
    let seg = advanced(legs, o.seg, end);
    if seg <= k {
        lemma_stopped_leg(legs, o.seg, end);
        assert(!passed(legs, seg));
        assert(!leg_done(legs[seg]));
    }
    if seg > k {
        assert(passed(legs, k));
    }
}

proof fn lemma_stopped_leg(legs: Seq<Leg>, seg: int, count: int)
    requires
        seg <= count,
        advanced(legs, seg, count) < count,
    ensures
        !passed(legs, advanced(legs, seg, count)),
    decreases count - seg,
{
    if seg < count && passed(legs, seg) {
        lemma_stopped_leg(legs, seg + 1, count);
    }
}

/// Each setpoint without a place to go gets its own law with its own numbers:
/// idle rests, a heading and speed are steered, a direct effort is passed
/// straight through; none of them moves anything but the memory of the
/// setpoint.
pub proof fn plain_setpoints_get_their_law(
    p: Progress,
    sway: bool,
    setpoint: Setpoint,
    heading_rad: Scalar,
    hold_dist_m: Scalar,
    legs: Seq<Leg>,
)
    ensures
        ({
            let (after, law) = ticked(p, sway, setpoint, heading_rad, hold_dist_m, legs);
            &&& setpoint is Idle ==> law == Law::Rest
            &&& setpoint matches Setpoint::HeadingSpeed { heading_rad: h, speed_mps } ==> (
            law matches Law::Steer { heading_rad: lh, speed_mps: ls } && lh == h && ls == speed_mps)
            &&& setpoint matches Setpoint::DirectEffort(d) ==> (law matches Law::Effort(e)
                && e.surge_n == d.surge_n && e.sway_n == d.sway_n && e.yaw_nm == d.yaw_nm)
            &&& setpoint is Idle || setpoint is HeadingSpeed || setpoint is DirectEffort ==> after
                == opened(p, setpoint)
        }),
{
}

/// Progress is kept exactly while the setpoint stays the same, and starts over
/// with the first segment, no held heading and no drift when it changes; the
/// setpoint of the tick is the one remembered.
pub proof fn progress_is_kept_while_the_setpoint_stays(p: Progress, setpoint: Setpoint)
    ensures
        p.last is Some && p.last->0.same(setpoint) ==> opened(p, setpoint) == p,
        p.last is None || !p.last->0.same(setpoint) ==> {
            &&& opened(p, setpoint).last == Some(setpoint)
            &&& opened(p, setpoint).seg == 0
            &&& opened(p, setpoint).hold_heading is None
            &&& !opened(p, setpoint).drifting
        },
{
}

/// Station-keeping by a hull with sway authority: beyond 5 m it approaches
/// the position and forgets the heading it held; within it holds the position
/// with the heading it had when it came in, or the present one if it is just
/// coming in.
pub proof fn station_keeping_with_sway(
    p: Progress,
    position: GeoPoint,
    heading_rad: Scalar,
    hold_dist_m: Scalar,
    legs: Seq<Leg>,
)
    ensures
        ({
            let setpoint = Setpoint::StationKeep { position };
            let o = opened(p, setpoint);
            let (after, law) = ticked(p, true, setpoint, heading_rad, hold_dist_m, legs);
            let beyond = !hold_dist_m.nan() && hold_dist_m.units() > 5
                * vstd::arithmetic::power2::pow2(1074);
            &&& beyond ==> law == (Law::Approach { target: position }) && after.hold_heading is None
            &&& !beyond && o.hold_heading is Some ==> law == (Law::Hold {
                target: position,
                heading_rad: o.hold_heading->0,
            }) && after.hold_heading == o.hold_heading
            &&& !beyond && o.hold_heading is None ==> law == (Law::Hold {
                target: position,
                heading_rad,
            }) && after.hold_heading == Some(heading_rad)
            &&& after.seg == o.seg && after.drifting == o.drifting && after.last == o.last
        }),
{
    radii_in_meters();
}

/// Station-keeping by a hull without sway authority: it rests once it is
/// strictly within 4 m and goes on resting up to and including 10 m; else it
/// approaches the position.
pub proof fn station_keeping_without_sway(
    p: Progress,
    position: GeoPoint,
    heading_rad: Scalar,
    hold_dist_m: Scalar,
    legs: Seq<Leg>,
)
    requires
        !hold_dist_m.nan(),
    ensures
        ({
            let setpoint = Setpoint::StationKeep { position };
            let o = opened(p, setpoint);
            let (after, law) = ticked(p, false, setpoint, heading_rad, hold_dist_m, legs);
            let one = vstd::arithmetic::power2::pow2(1074) as int;
            let d = hold_dist_m.units();
            &&& d < 4 * one || (o.drifting && d <= 10 * one) ==> law == Law::Rest && after.drifting
            &&& d > 10 * one || (!o.drifting && d >= 4 * one) ==> law == (Law::Approach {
                target: position,
            }) && !after.drifting
            &&& after.seg == o.seg && after.hold_heading == o.hold_heading && after.last == o.last
        }),
{
    radii_in_meters();
}

/// Whatever a path comes down to holding at a point is what a station-keep at
/// that point would do in the same progress.
pub proof fn end_of_path_is_a_station_keep(
    p: Progress,
    sway: bool,
    path_setpoint: Setpoint,
    heading_rad: Scalar,
    hold_dist_m: Scalar,
    legs: Seq<Leg>,
    keep: Progress,
)
    requires
        on_path(p),
        path_setpoint is FollowPath,
        path_setpoint->path@.len() >= 1,
        forall|k: int|
            opened(p, path_setpoint).seg <= k < path_setpoint->path@.len() - 1
                ==> #[trigger] passed(legs, k),
        ({
            let point = path_setpoint->path@.last();
            let o = opened(p, path_setpoint);
            let k = opened(keep, Setpoint::StationKeep { position: point });
            k.hold_heading == o.hold_heading && k.drifting == o.drifting
        }),
    ensures
        ticked(p, sway, path_setpoint, heading_rad, hold_dist_m, legs).1 == ticked(
            keep,
            sway,
            Setpoint::StationKeep { position: path_setpoint->path@.last() },
            heading_rad,
            hold_dist_m,
            legs,
        ).1,
{
    let o = opened(p, path_setpoint);
    let end = path_setpoint->path@.len() - 1;
    if p.last is Some && p.last->0.same(path_setpoint) {
        assert(p.last->0 is FollowPath);
        assert(p.last->0->path@.len() == end + 1);
    }
    path_law_by_case(p, sway, path_setpoint, heading_rad, hold_dist_m, legs, end);
}

} // verus!
