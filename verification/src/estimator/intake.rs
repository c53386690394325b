//! Licensing, ordering, initialization and staleness of measurement streams.

use vstd::prelude::*;

use super::ekf::{below_speed_floor, Ekf, ProcessModel};
use super::screen::{range_valid, std_positive, values_finite, Figures, Rejection};
use crate::contract::{ActuatorCommand, BoundedList, Duration, EstimatorHealth, ForceDemand};
use crate::contract::{GeoPoint, GnssFixMode, HealthLevel, License, Measurement};
use crate::contract::{MeasurementKind, ModelParams, SensorConfig, SensorId, Timestamp};
use crate::contract::VesselConfig;
use crate::scalar::Scalar;

verus! {

/// The fused measurement roles, named for what is measured rather than the
/// producing hardware. Speed and course over ground ride the Gnss role: they
/// come from the same physical receiver as the position.
#[derive(Clone, Copy, Debug, PartialEq, Eq, Structural)]
pub enum Role {
    Gnss,
    Heading,
    YawRate,
}

pub open spec fn role_of(kind: MeasurementKind) -> Role {
    match kind {
        MeasurementKind::Heading { .. } => Role::Heading,
        MeasurementKind::YawRate { .. } => Role::YawRate,
        _ => Role::Gnss,
    }
}

/// An update for the filter, in the terms the measurement stated it.
#[derive(Clone, Copy, Debug, PartialEq)]
pub enum Update {
    Position { position: GeoPoint, std_m: Scalar, lever_arm_m: [Scalar; 2] },
    PositionCov { position: GeoPoint, cov_ne_m2: [[Scalar; 2]; 2], lever_arm_m: [Scalar; 2] },
    Heading { heading_rad: Scalar, std_rad: Scalar },
    YawRate { yaw_rate_radps: Scalar, std_radps: Scalar },
    SpeedOverGround { sog_mps: Scalar, std_mps: Scalar, lever_arm_m: [Scalar; 2] },
    CourseOverGround { cog_rad: Scalar, std_rad: Scalar, lever_arm_m: [Scalar; 2] },
}

/// What an accepted measurement asks of the numeric filter.
#[derive(Clone, Copy, Debug, PartialEq)]
pub enum Step {
    /// Nothing: the filter has not started yet.
    Hold,
    /// Start at the frame origin with these uncertainties and this heading,
    /// velocities zero.
    Start { pos_std_m: Scalar, heading_rad: Scalar, heading_std_rad: Scalar },
    /// Predict by `span`, then apply `update`.
    Fuse { span: Duration, update: Update },
}

/// The instant a state query is answered for, and how far the filter has to
/// be predicted to get there.
#[derive(Clone, Copy, Debug, PartialEq, Eq, Structural)]
pub struct Moment {
    pub t: Timestamp,
    pub span: Duration,
}

/// What the intake remembers.
pub ghost struct Intake {
    pub gnss_list: Seq<SensorId>,
    pub heading_list: Seq<SensorId>,
    pub imu_list: Seq<SensorId>,
    pub sensors: Seq<SensorConfig>,
    pub last_gnss: Option<Timestamp>,
    pub last_heading: Option<Timestamp>,
    pub last_imu: Option<Timestamp>,
    pub last_fix: Option<GnssFixMode>,
    pub latest_t: Option<Timestamp>,
    pub origin: Option<GeoPoint>,
    pub init_pos_std_m: Option<Scalar>,
    pub init_heading: Option<(Scalar, Scalar)>,
    pub filter_t: Option<Timestamp>,
    pub process: ProcessModel,
    pub tau: ForceDemand,
}

/// The sensors that may deliver a role.
pub open spec fn fusion_list(s: Intake, role: Role) -> Seq<SensorId> {
    match role {
        Role::Gnss => s.gnss_list,
        Role::Heading => s.heading_list,
        Role::YawRate => s.imu_list,
    }
}

pub open spec fn last_of(s: Intake, role: Role) -> Option<Timestamp> {
    match role {
        Role::Gnss => s.last_gnss,
        Role::Heading => s.last_heading,
        Role::YawRate => s.last_imu,
    }
}

/// The first entry for a sensor id, if there is one.
pub open spec fn find_sensor(sensors: Seq<SensorConfig>, id: SensorId) -> Option<SensorConfig>
    decreases sensors.len(),
{
    if sensors.len() == 0 {
        None
    } else if sensors[0].id == id {
        Some(sensors[0])
    } else {
        find_sensor(sensors.skip(1), id)
    }
}

/// Why a sensor may not deliver a role, if it may not.
pub open spec fn refused(s: Intake, id: SensorId, role: Role) -> Option<Rejection> {
    if !fusion_list(s, role).contains(id) {
        Some(Rejection::UnknownSensor)
    } else {
        match find_sensor(s.sensors, id) {
            None => Some(Rejection::UnknownSensor),
            Some(c) => if c.license != License::InnerLoop {
                Some(Rejection::NotLicensed)
            } else {
                None
            },
        }
    }
}

pub open spec fn over_ground(kind: MeasurementKind) -> bool {
    kind is SpeedOverGround || kind is CourseOverGround
}

/// Why a measurement is refused, if it is: what is wrong with it in itself,
/// then who sent it, then when, then how slow the vessel is.
pub open spec fn rejection(s: Intake, m: Measurement, f: Figures) -> Option<Rejection> {
    if super::screen::screened_out(m.kind, f) is Some {
        super::screen::screened_out(m.kind, f)
    } else if refused(s, m.sensor, role_of(m.kind)) is Some {
        refused(s, m.sensor, role_of(m.kind))
    } else if s.latest_t matches Some(t) && m.t@ < t@ {
        Some(Rejection::OutOfOrder)
    } else if over_ground(m.kind) && s.filter_t is Some && super::ekf::too_slow(
        f.antenna_speed_mps,
    ) {
        Some(Rejection::LowSpeed)
    } else {
        None
    }
}

/// The position fix a measurement carries, with the std to start from.
pub open spec fn fix_of(kind: MeasurementKind, f: Figures) -> Option<(GeoPoint, Scalar)> {
    match kind {
        MeasurementKind::GnssPosition { position, std_m } => Some((position, std_m)),
        MeasurementKind::GnssPositionCov { position, .. } => Some((position, f.isotropic_std_m)),
        _ => None,
    }
}

pub open spec fn heading_of(kind: MeasurementKind) -> Option<(Scalar, Scalar)> {
    match kind {
        MeasurementKind::Heading { heading_rad, std_rad } => Some((heading_rad, std_rad)),
        _ => None,
    }
}

/// `new` where nothing is held yet.
pub open spec fn keep_first<T>(held: Option<T>, new: Option<T>) -> Option<T> {
    if held is Some {
        held
    } else {
        new
    }
}

/// The stashes after an accepted measurement: before the filter has started,
/// the first position fix and the first heading are kept.
pub open spec fn origin_after(s: Intake, m: Measurement, f: Figures) -> Option<GeoPoint> {
    keep_first(
        s.origin,
        match fix_of(m.kind, f) {
            Some(fix) => Some(fix.0),
            None => None,
        },
    )
}

pub open spec fn pos_std_after(s: Intake, m: Measurement, f: Figures) -> Option<Scalar> {
    keep_first(
        s.init_pos_std_m,
        match fix_of(m.kind, f) {
            Some(fix) => Some(fix.1),
            None => None,
        },
    )
}

pub open spec fn heading_after(s: Intake, m: Measurement) -> Option<(Scalar, Scalar)> {
    keep_first(s.init_heading, heading_of(m.kind))
}

/// Whether the filter runs once a measurement is accepted: it did before, or
/// a fix and a heading have now both arrived.
pub open spec fn running_after(s: Intake, m: Measurement, f: Figures) -> bool {
    s.filter_t is Some || (pos_std_after(s, m, f) is Some && heading_after(s, m) is Some)
}

/// The fix mode that health reports after an accepted measurement: a position
/// sets it, or clears it when it carries none; nothing else touches it.
pub open spec fn fix_mode_after(s: Intake, kind: MeasurementKind) -> Option<GnssFixMode> {
    match kind {
        MeasurementKind::GnssPosition { .. } => None,
        MeasurementKind::GnssPositionCov { fix, .. } => Some(fix),
        _ => s.last_fix,
    }
}

/// The intake after an accepted measurement.
pub open spec fn accepted(s: Intake, m: Measurement, f: Figures) -> Intake {
    Intake {
        last_gnss: if role_of(m.kind) == Role::Gnss {
            Some(m.t)
        } else {
            s.last_gnss
        },
        last_heading: if role_of(m.kind) == Role::Heading {
            Some(m.t)
        } else {
            s.last_heading
        },
        last_imu: if role_of(m.kind) == Role::YawRate {
            Some(m.t)
        } else {
            s.last_imu
        },
        last_fix: fix_mode_after(s, m.kind),
        latest_t: Some(m.t),
        origin: origin_after(s, m, f),
        init_pos_std_m: pos_std_after(s, m, f),
        init_heading: heading_after(s, m),
        filter_t: if running_after(s, m, f) {
            Some(m.t)
        } else {
            None
        },
        ..s
    }
}

/// The update a measurement stands for, with its sensor's lever arm.
pub open spec fn update_of(kind: MeasurementKind, lever_arm_m: [Scalar; 2]) -> Update {
    match kind {
        MeasurementKind::GnssPosition { position, std_m } => Update::Position {
            position,
            std_m,
            lever_arm_m,
        },
        MeasurementKind::GnssPositionCov { position, cov_ne_m2, .. } => Update::PositionCov {
            position,
            cov_ne_m2,
            lever_arm_m,
        },
        MeasurementKind::Heading { heading_rad, std_rad } => Update::Heading {
            heading_rad,
            std_rad,
        },
        MeasurementKind::YawRate { yaw_rate_radps, std_radps } => Update::YawRate {
            yaw_rate_radps,
            std_radps,
        },
        MeasurementKind::SpeedOverGround { sog_mps, std_mps } => Update::SpeedOverGround {
            sog_mps,
            std_mps,
            lever_arm_m,
        },
        MeasurementKind::CourseOverGround { cog_rad, std_rad } => Update::CourseOverGround {
            cog_rad,
            std_rad,
            lever_arm_m,
        },
    }
}

/// Whether an update carries a measurement's own numbers, each in its own
/// place.
pub open spec fn carries(update: Update, kind: MeasurementKind) -> bool {
    &&& kind matches MeasurementKind::GnssPosition { position, std_m } ==> (
    update matches Update::Position { position: p, std_m: sd, .. } && p.lat_rad
        == position.lat_rad && p.lon_rad == position.lon_rad && sd == std_m)
    &&& kind matches MeasurementKind::GnssPositionCov { position, cov_ne_m2, .. } ==> (
    update matches Update::PositionCov { position: p, cov_ne_m2: cov, .. } && p.lat_rad
        == position.lat_rad && p.lon_rad == position.lon_rad && cov == cov_ne_m2)
    &&& kind matches MeasurementKind::Heading { heading_rad, std_rad } ==> (
    update matches Update::Heading { heading_rad: h, std_rad: sd } && h == heading_rad && sd
        == std_rad)
    &&& kind matches MeasurementKind::YawRate { yaw_rate_radps, std_radps } ==> (
    update matches Update::YawRate { yaw_rate_radps: r, std_radps: sd } && r == yaw_rate_radps
        && sd == std_radps)
    &&& kind matches MeasurementKind::SpeedOverGround { sog_mps, std_mps } ==> (
    update matches Update::SpeedOverGround { sog_mps: v, std_mps: sd, .. } && v == sog_mps && sd
        == std_mps)
    &&& kind matches MeasurementKind::CourseOverGround { cog_rad, std_rad } ==> (
    update matches Update::CourseOverGround { cog_rad: c, std_rad: sd, .. } && c == cog_rad && sd
        == std_rad)
}

/// Whether `step` is what an accepted measurement asks of the filter: the
/// update after a predict to its time once the filter runs, the start once
/// both seeds are in, else nothing.
pub open spec fn asks_for(s: Intake, m: Measurement, f: Figures, step: Step) -> bool {
    if s.filter_t is Some {
        step matches Step::Fuse { span, update } && span@ == m.t@ - s.filter_t->0@
            && update == update_of(
            m.kind,
            find_sensor(s.sensors, m.sensor)->0.lever_arm_m,
        )
    } else if running_after(s, m, f) {
        step == Step::Start {
            pos_std_m: pos_std_after(s, m, f)->0,
            heading_rad: (heading_after(s, m)->0).0,
            heading_std_rad: (heading_after(s, m)->0).1,
        }
    } else {
        step == Step::Hold
    }
}

/// Whether sensor entry `i` may deliver a role.
pub open spec fn licensed(s: Intake, role: Role, i: int) -> bool {
    &&& 0 <= i < s.sensors.len()
    &&& s.sensors[i].license == License::InnerLoop
    &&& fusion_list(s, role).contains(s.sensors[i].id)
}

/// Time since `t`, zero when `t` is still to come.
pub open spec fn elapsed(now: Timestamp, t: Timestamp) -> int {
    if t@ <= now@ {
        now@ - t@
    } else {
        0
    }
}

/// A role is stale when some licensed sensor's max_age has passed since the
/// last accepted measurement, or none was ever accepted. A role with no
/// licensed sensor is never fused and cannot go stale.
pub open spec fn role_stale(s: Intake, role: Role, now: Timestamp) -> bool {
    exists|i: int| #[trigger]
        licensed(s, role, i) && match last_of(s, role) {
            Some(t) => elapsed(now, t) > s.sensors[i].max_age@,
            None => true,
        }
}

/// What holds of every intake: the frame is anchored exactly when a start std
/// is held, the filter runs exactly when both seeds are held, and a running
/// filter stands at the latest accepted time.
pub open spec fn consistent(s: Intake) -> bool {
    &&& s.origin is Some <==> s.init_pos_std_m is Some
    &&& s.filter_t is Some <==> (s.init_pos_std_m is Some && s.init_heading is Some)
    &&& s.filter_t is Some ==> s.latest_t == s.filter_t
    &&& s.last_gnss is Some ==> s.latest_t is Some && s.last_gnss->0@ <= s.latest_t->0@
    &&& s.last_heading is Some ==> s.latest_t is Some && s.last_heading->0@ <= s.latest_t->0@
    &&& s.last_imu is Some ==> s.latest_t is Some && s.last_imu->0@ <= s.latest_t->0@
    &&& s.origin is Some ==> s.last_gnss is Some
    &&& s.init_heading is Some ==> s.last_heading is Some
}

spec fn counts(sensors: Seq<SensorConfig>, list: Seq<SensorId>, i: int) -> bool {
    sensors[i].license == License::InnerLoop && list.contains(sensors[i].id)
}

/// Whether `age` is the smallest max_age among the licensed sensors of a
/// list, the first `n` entries considered.
spec fn is_min_age(
    sensors: Seq<SensorConfig>,
    list: Seq<SensorId>,
    n: int,
    age: Option<Duration>,
) -> bool {
    match age {
        None => forall|i: int| 0 <= i < n ==> !#[trigger] counts(sensors, list, i),
        Some(a) => {
            &&& exists|i: int|
                0 <= i < n && #[trigger] counts(sensors, list, i) && sensors[i].max_age == a
            &&& forall|i: int|
                0 <= i < n && #[trigger] counts(sensors, list, i) ==> a@ <= sensors[i].max_age@
        },
    }
}

fn list_contains(list: &BoundedList<SensorId, 4>, id: SensorId) -> (b: bool)
    ensures
        b == list@.contains(id),
{
    let items = list.as_slice();
    let mut i: usize = 0;
    while i < items.len()
        invariant
            items@ == list@,
            i <= items@.len(),
            forall|k: int| 0 <= k < i ==> #[trigger] list@[k] != id,
        decreases items.len() - i,
    {
        if items[i] == id {
            proof {
                assert(list@[i as int] == id);
            }
            return true;
        }
        i = i + 1;
    }
    false
}

fn min_age(
    sensors: &BoundedList<SensorConfig, 16>,
    list: &BoundedList<SensorId, 4>,
) -> (age: Option<Duration>)
    ensures
        is_min_age(sensors@, list@, sensors@.len() as int, age),
{
    let items = sensors.as_slice();
    let mut age: Option<Duration> = None;
    let mut i: usize = 0;
    while i < items.len()
        invariant
            items@ == sensors@,
            i <= items@.len(),
            is_min_age(sensors@, list@, i as int, age),
        decreases items.len() - i,
    {
        let ghost before = age;
        let c: SensorConfig = items[i];
        if c.license == License::InnerLoop && list_contains(list, c.id) {
            let lower = match age {
                None => true,
                Some(a) => c.max_age.as_nanos() < a.as_nanos(),
            };
            if lower {
                age = Some(c.max_age);
            }
        }
        proof {
            assert(counts(sensors@, list@, i as int) ==> age is Some);
            assert forall|k: int| 0 <= k < i + 1 && #[trigger] counts(sensors@, list@, k) implies
                age is Some && age->0@ <= sensors@[k].max_age@ by {}
            if age is Some && age == before {
                let w = choose|k: int|
                    0 <= k < i && #[trigger] counts(sensors@, list@, k) && sensors@[k].max_age
                        == age->0;
                assert(counts(sensors@, list@, w));
            } else if age is Some {
                assert(counts(sensors@, list@, i as int) && sensors@[i as int].max_age == age->0);
            }
        }
        i = i + 1;
    }
    age
}

/// Sensor intake: holds the fusion lists, the per-role staleness clocks, the
/// start seeds and the filter time.
pub struct Estimator {
    gnss_list: BoundedList<SensorId, 4>,
    heading_list: BoundedList<SensorId, 4>,
    imu_list: BoundedList<SensorId, 4>,
    sensors: BoundedList<SensorConfig, 16>,
    // Smallest max_age among each role's licensed sensors; None when the role
    // has no licensed sensor and therefore is never fused.
    gnss_max_age: Option<Duration>,
    heading_max_age: Option<Duration>,
    imu_max_age: Option<Duration>,
    last_gnss: Option<Timestamp>,
    last_heading: Option<Timestamp>,
    last_imu: Option<Timestamp>,
    // Fix mode of the most recently accepted position measurement; None
    // before the first and after a plain position, which carries no mode.
    last_fix: Option<GnssFixMode>,
    latest_t: Option<Timestamp>,
    origin: Option<GeoPoint>,
    // Pre-initialization stashes: the first accepted fix anchors the frame,
    // the first accepted heading seeds psi.
    init_pos_std_m: Option<Scalar>,
    init_heading: Option<(Scalar, Scalar)>,
    filter_t: Option<Timestamp>,
    process: ProcessModel,
    // Latest force demand; zero until the first command arrives.
    tau: ForceDemand,
}

impl View for Estimator {
    type V = Intake;

    closed spec fn view(&self) -> Intake {
        Intake {
            gnss_list: self.gnss_list@,
            heading_list: self.heading_list@,
            imu_list: self.imu_list@,
            sensors: self.sensors@,
            last_gnss: self.last_gnss,
            last_heading: self.last_heading,
            last_imu: self.last_imu,
            last_fix: self.last_fix,
            latest_t: self.latest_t,
            origin: self.origin,
            init_pos_std_m: self.init_pos_std_m,
            init_heading: self.init_heading,
            filter_t: self.filter_t,
            process: self.process,
            tau: self.tau,
        }
    }
}

/// The process model that a configuration selects. Coefficients that the
/// model does not accept fall back to constant velocity: a configuration
/// written by hand must still yield a working estimator.
pub open spec fn selected_process(model: ModelParams, accepted: bool) -> ProcessModel {
    match model {
        ModelParams::ConstantVelocity => ProcessModel::ConstantVelocity,
        ModelParams::Fossen3Dof(params) => if accepted {
            ProcessModel::Hydrodynamic(params)
        } else {
            ProcessModel::ConstantVelocity
        },
    }
}

impl Estimator {
    spec fn ages_agree(self) -> bool {
        let n = self.sensors@.len() as int;
        &&& is_min_age(self.sensors@, self.gnss_list@, n, self.gnss_max_age)
        &&& is_min_age(self.sensors@, self.heading_list@, n, self.heading_max_age)
        &&& is_min_age(self.sensors@, self.imu_list@, n, self.imu_max_age)
    }

    #[verifier::type_invariant]
    spec fn wf(self) -> bool {
        self.ages_agree() && consistent(self@)
    }

    /// Copies the fusion lists and per-sensor max_age out of the config and
    /// selects the process model. `model_accepted` is whether the hydrodynamic
    /// model takes the configured coefficients.
    pub fn new(config: &VesselConfig, model_accepted: bool) -> (e: Estimator)
        ensures
            consistent(e@),
            e@ == (Intake {
                gnss_list: config.estimator.gnss@,
                heading_list: config.estimator.heading@,
                imu_list: config.estimator.imu@,
                sensors: config.sensors@,
                last_gnss: None,
                last_heading: None,
                last_imu: None,
                last_fix: None,
                latest_t: None,
                origin: None,
                init_pos_std_m: None,
                init_heading: None,
                filter_t: None,
                process: selected_process(config.estimator.model, model_accepted),
                tau: e@.tau,
            }),
            e@.tau.is_zero(),
            e@.tau.surge_n.bits == 0 && e@.tau.sway_n.bits == 0 && e@.tau.yaw_nm.bits == 0,
            config.estimator.model is ConstantVelocity || !model_accepted ==> e@.process
                == ProcessModel::ConstantVelocity,
            model_accepted ==> (config.estimator.model matches ModelParams::Fossen3Dof(params)
                ==> e@.process == ProcessModel::Hydrodynamic(params)),
    {
        let process = match config.estimator.model {
            ModelParams::ConstantVelocity => ProcessModel::ConstantVelocity,
            ModelParams::Fossen3Dof(params) => if model_accepted {
                ProcessModel::Hydrodynamic(params)
            } else {
                ProcessModel::ConstantVelocity
            },
        };
        Estimator {
            gnss_max_age: min_age(&config.sensors, &config.estimator.gnss),
            heading_max_age: min_age(&config.sensors, &config.estimator.heading),
            imu_max_age: min_age(&config.sensors, &config.estimator.imu),
            gnss_list: config.estimator.gnss,
            heading_list: config.estimator.heading,
            imu_list: config.estimator.imu,
            sensors: config.sensors,
            last_gnss: None,
            last_heading: None,
            last_imu: None,
            last_fix: None,
            latest_t: None,
            origin: None,
            init_pos_std_m: None,
            init_heading: None,
            filter_t: None,
            process,
            tau: ForceDemand::zero(),
        }
    }

    /// Latest force demand for the hydrodynamic prior. Command timestamps are
    /// not fused: the filter never rewinds to apply a demand at its stamped
    /// time.
    pub fn command(&mut self, cmd: &ActuatorCommand)
        ensures
            final(self)@ == (Intake { tau: cmd.demand, ..old(self)@ }),
    {
        proof {
            use_type_invariant(&*self);
        }
        self.tau = cmd.demand;
    }

    /// Decides on a measurement. A refused measurement changes nothing; an
    /// accepted one is recorded, and the step it asks of the filter returned.
    pub fn handle(&mut self, m: &Measurement, figures: &Figures) -> (r: Result<Step, Rejection>)
        ensures
            consistent(final(self)@),
            match r {
                Ok(step) => {
                    &&& rejection(old(self)@, *m, *figures) is None
                    &&& asks_for(old(self)@, *m, *figures, step)
                    &&& final(self)@ == accepted(old(self)@, *m, *figures)
                    &&& final(self)@.latest_t == Some(m.t)
                    &&& old(self)@.filter_t is Some ==> step is Fuse && final(self)@.filter_t
                        == Some(m.t)
                    &&& old(self)@.filter_t is None ==> !(step is Fuse)
                    &&& step is Fuse ==> carries(step->update, m.kind)
                },
                Err(e) => {
                    &&& rejection(old(self)@, *m, *figures) == Some(e)
                    &&& final(self)@ == old(self)@
                },
            },
    {
        proof {
            use_type_invariant(&*self);
        }
        if !values_finite(&m.kind) {
            return Err(Rejection::NonFinite);
        }
        if !std_positive(&m.kind, figures) {
            return Err(Rejection::InvalidStd);
        }
        if !range_valid(&m.kind) {
            return Err(Rejection::OutOfRange);
        }
        let role = match m.kind {
            MeasurementKind::GnssPosition { .. } => Role::Gnss,
            MeasurementKind::GnssPositionCov { .. } => Role::Gnss,
            MeasurementKind::SpeedOverGround { .. } => Role::Gnss,
            MeasurementKind::CourseOverGround { .. } => Role::Gnss,
            MeasurementKind::Heading { .. } => Role::Heading,
            MeasurementKind::YawRate { .. } => Role::YawRate,
        };
        let lever_arm_m: [Scalar; 2] = match self.entry_for(m.sensor, role) {
            Ok(c) => c.lever_arm_m,
            Err(e) => {
                return Err(e);
            },
        };
        if let Some(t) = self.latest_t {
            if m.t.as_nanos() < t.as_nanos() {
                return Err(Rejection::OutOfOrder);
            }
        }
        // Checked before anything is recorded, so a rejection costs the
        // filter nothing. Before the filter runs there is no speed estimate
        // to judge against.
        let slow_matters = match m.kind {
            MeasurementKind::SpeedOverGround { .. } => true,
            MeasurementKind::CourseOverGround { .. } => true,
            _ => false,
        };
        if slow_matters && self.filter_t.is_some() && below_speed_floor(
            figures.antenna_speed_mps,
        ) {
            return Err(Rejection::LowSpeed);
        }
        let mut next = Estimator {
            gnss_list: self.gnss_list,
            heading_list: self.heading_list,
            imu_list: self.imu_list,
            sensors: self.sensors,
            gnss_max_age: self.gnss_max_age,
            heading_max_age: self.heading_max_age,
            imu_max_age: self.imu_max_age,
            last_gnss: if role == Role::Gnss {
                Some(m.t)
            } else {
                self.last_gnss
            },
            last_heading: if role == Role::Heading {
                Some(m.t)
            } else {
                self.last_heading
            },
            last_imu: if role == Role::YawRate {
                Some(m.t)
            } else {
                self.last_imu
            },
            last_fix: match m.kind {
                MeasurementKind::GnssPosition { .. } => None,
                MeasurementKind::GnssPositionCov { fix, .. } => Some(fix),
                _ => self.last_fix,
            },
            latest_t: Some(m.t),
            origin: self.origin,
            init_pos_std_m: self.init_pos_std_m,
            init_heading: self.init_heading,
            filter_t: match self.filter_t {
                Some(_) => Some(m.t),
                None => None,
            },
            process: self.process,
            tau: self.tau,
        };
        let step = match self.filter_t {
            Some(t) => Step::Fuse {
                span: m.t.saturating_duration_since(t),
                update: Self::update_for(&m.kind, lever_arm_m),
            },
            None => {
                let (origin, pos_std, heading) = self.seeds(&m.kind, figures);
                match (pos_std, heading) {
                    (Some(pos_std_m), Some((heading_rad, heading_std_rad))) => {
                        next =
                        Estimator {
                            origin,
                            init_pos_std_m: pos_std,
                            init_heading: heading,
                            filter_t: Some(m.t),
                            ..next
                        };
                        Step::Start { pos_std_m, heading_rad, heading_std_rad }
                    },
                    _ => {
                        next =
                        Estimator { origin, init_pos_std_m: pos_std, init_heading: heading, ..next };
                        Step::Hold
                    },
                }
            },
        };
        *self = next;
        Ok(step)
    }

    /// The stashes after an accepted measurement that finds the filter not
    /// started: the first fix anchors the frame, the first heading seeds psi,
    /// everything else has nothing to seed.
    fn seeds(&self, kind: &MeasurementKind, figures: &Figures) -> (r: (
        Option<GeoPoint>,
        Option<Scalar>,
        Option<(Scalar, Scalar)>,
    ))
        requires
            self@.origin is Some <==> self@.init_pos_std_m is Some,
        ensures
            forall|m: Measurement| #![trigger origin_after(self@, m, *figures)]
                m.kind == *kind ==> r.0 == origin_after(self@, m, *figures) && r.1
                    == pos_std_after(self@, m, *figures) && r.2 == heading_after(self@, m),
    {
        match *kind {
            MeasurementKind::GnssPosition { position, std_m } => if self.origin.is_none() {
                (Some(position), Some(std_m), self.init_heading)
            } else {
                (self.origin, self.init_pos_std_m, self.init_heading)
            },
            MeasurementKind::GnssPositionCov { position, .. } => if self.origin.is_none() {
                (Some(position), Some(figures.isotropic_std_m), self.init_heading)
            } else {
                (self.origin, self.init_pos_std_m, self.init_heading)
            },
            MeasurementKind::Heading { heading_rad, std_rad } => if self.init_heading.is_none() {
                (self.origin, self.init_pos_std_m, Some((heading_rad, std_rad)))
            } else {
                (self.origin, self.init_pos_std_m, self.init_heading)
            },
            _ => (self.origin, self.init_pos_std_m, self.init_heading),
        }
    }

    fn update_for(kind: &MeasurementKind, lever_arm_m: [Scalar; 2]) -> (u: Update)
        ensures
            u == update_of(*kind, lever_arm_m),
            carries(u, *kind),
    {
        match *kind {
            MeasurementKind::GnssPosition { position, std_m } => Update::Position {
                position,
                std_m,
                lever_arm_m,
            },
            MeasurementKind::GnssPositionCov { position, cov_ne_m2, .. } => Update::PositionCov {
                position,
                cov_ne_m2,
                lever_arm_m,
            },
            MeasurementKind::Heading { heading_rad, std_rad } => Update::Heading {
                heading_rad,
                std_rad,
            },
            MeasurementKind::YawRate { yaw_rate_radps, std_radps } => Update::YawRate {
                yaw_rate_radps,
                std_radps,
            },
            MeasurementKind::SpeedOverGround { sog_mps, std_mps } => Update::SpeedOverGround {
                sog_mps,
                std_mps,
                lever_arm_m,
            },
            MeasurementKind::CourseOverGround { cog_rad, std_rad } => Update::CourseOverGround {
                cog_rad,
                std_rad,
                lever_arm_m,
            },
        }
    }

    /// The entry of a sensor that may deliver a role. The heading list's
    /// priority order is deliberately unused: every licensed heading sensor is
    /// fused, weighted by its reported std.
    fn entry_for(&self, sensor: SensorId, role: Role) -> (r: Result<SensorConfig, Rejection>)
        ensures
            match r {
                Ok(c) => refused(self@, sensor, role) is None && find_sensor(
                    self@.sensors,
                    sensor,
                ) == Some(c),
                Err(e) => refused(self@, sensor, role) == Some(e),
            },
    {
        let listed = match role {
            Role::Gnss => list_contains(&self.gnss_list, sensor),
            Role::Heading => list_contains(&self.heading_list, sensor),
            Role::YawRate => list_contains(&self.imu_list, sensor),
        };
        if !listed {
            return Err(Rejection::UnknownSensor);
        }
        let items = self.sensors.as_slice();
        let mut i: usize = 0;
        proof {
            assert(items@.skip(0) == items@);
        }
        while i < items.len()
            invariant
                items@ == self.sensors@,
                i <= items@.len(),
                fusion_list(self@, role).contains(sensor),
                find_sensor(self@.sensors, sensor) == find_sensor(items@.skip(i as int), sensor),
            decreases items.len() - i,
        {
            let c: SensorConfig = items[i];
            proof {
                assert(items@.skip(i as int)[0] == c);
                assert(items@.skip(i as int).skip(1) == items@.skip(i + 1));
            }
            if c.id == sensor {
                if c.license != License::InnerLoop {
                    return Err(Rejection::NotLicensed);
                }
                return Ok(c);
            }
            i = i + 1;
        }
        Err(Rejection::UnknownSensor)
    }

    /// The instant a query for `now` is answered for. None until the filter
    /// has started. The filter cannot rewind: a query older than the filter
    /// time is answered for the filter time.
    pub fn state(&self, now: Timestamp) -> (r: Option<Moment>)
        ensures
            r is Some <==> self@.filter_t is Some,
            r matches Some(at) ==> {
                let t = self@.filter_t->0;
                &&& at.t == (if now@ > t@ {
                    now
                } else {
                    t
                })
                &&& at.span@ == elapsed(now, t)
                &&& at.t@ >= now@ && at.t@ >= t@
                &&& at.span@ == at.t@ - t@
            },
    {
        match self.filter_t {
            None => None,
            Some(t) => {
                let at = if now.as_nanos() > t.as_nanos() {
                    now
                } else {
                    t
                };
                Some(Moment { t: at, span: at.saturating_duration_since(t) })
            },
        }
    }

    /// Fault until started or if the filter has gone non-finite, Degraded
    /// while any fused role is stale, else Nominal. `predicted` is the filter
    /// predicted to `now`, and the stds are those of its covariance; neither
    /// is read before the filter has started.
    pub fn health(
        &self,
        now: Timestamp,
        predicted: &Ekf,
        position_std_m: Scalar,
        heading_std_rad: Scalar,
    ) -> (h: EstimatorHealth)
        ensures
            h.gnss_stale == role_stale(self@, Role::Gnss, now),
            h.heading_stale == role_stale(self@, Role::Heading, now),
            h.yaw_rate_stale == role_stale(self@, Role::YawRate, now),
            h.fix == self@.last_fix,
            h.level == (if self@.filter_t is None || !super::ekf::all_finite(
                predicted.x@,
                predicted.p@,
            ) {
                HealthLevel::Fault
            } else if h.gnss_stale || h.heading_stale || h.yaw_rate_stale {
                HealthLevel::Degraded
            } else {
                HealthLevel::Nominal
            }),
            self@.filter_t is Some ==> h.position_std_m == position_std_m && h.heading_std_rad
                == heading_std_rad,
            self@.filter_t is None ==> h.position_std_m.bits == INFINITY_BITS
                && h.heading_std_rad.bits == INFINITY_BITS,
    {
        proof {
            use_type_invariant(self);
            lemma_stale(self@, Role::Gnss, self.gnss_max_age, now);
            lemma_stale(self@, Role::Heading, self.heading_max_age, now);
            lemma_stale(self@, Role::YawRate, self.imu_max_age, now);
        }
        let gnss_stale = Self::stale(now, self.last_gnss, self.gnss_max_age);
        let heading_stale = Self::stale(now, self.last_heading, self.heading_max_age);
        let yaw_rate_stale = Self::stale(now, self.last_imu, self.imu_max_age);
        if self.filter_t.is_none() {
            // No estimate yet; infinite uncertainty is the honest report.
            return EstimatorHealth {
                level: HealthLevel::Fault,
                position_std_m: Scalar { bits: INFINITY_BITS },
                heading_std_rad: Scalar { bits: INFINITY_BITS },
                gnss_stale,
                heading_stale,
                yaw_rate_stale,
                fix: self.last_fix,
            };
        }
        // A non-finite state or covariance overrides staleness: the filter is
        // unusable, not merely degraded.
        let level = if !predicted.is_finite() {
            HealthLevel::Fault
        } else if gnss_stale || heading_stale || yaw_rate_stale {
            HealthLevel::Degraded
        } else {
            HealthLevel::Nominal
        };
        EstimatorHealth {
            level,
            position_std_m,
            heading_std_rad,
            gnss_stale,
            heading_stale,
            yaw_rate_stale,
            fix: self.last_fix,
        }
    }

    fn stale(now: Timestamp, last: Option<Timestamp>, max_age: Option<Duration>) -> (b: bool)
        ensures
            b == past_age(now, last, max_age),
    {
        match (max_age, last) {
            (Some(age), Some(t)) => now.saturating_duration_since(t).as_nanos() > age.as_nanos(),
            (Some(_), None) => true,
            (None, _) => false,
        }
    }

    /// Where the local frame is anchored: at the first accepted fix.
    pub fn frame_origin(&self) -> (o: Option<GeoPoint>)
        ensures
            o == self@.origin,
    {
        self.origin
    }

    pub fn process_model(&self) -> (p: ProcessModel)
        ensures
            p == self@.process,
    {
        self.process
    }

    pub fn demand(&self) -> (tau: ForceDemand)
        ensures
            tau == self@.tau,
    {
        self.tau
    }
}

/// Positive infinity.
pub const INFINITY_BITS: u64 = 0x7ff0_0000_0000_0000;

spec fn past_age(now: Timestamp, last: Option<Timestamp>, max_age: Option<Duration>) -> bool {
    match (max_age, last) {
        (Some(age), Some(t)) => elapsed(now, t) > age@,
        (Some(_), None) => true,
        (None, _) => false,
    }
}

/// The smallest max_age decides staleness for all of them.
proof fn lemma_stale(s: Intake, role: Role, age: Option<Duration>, now: Timestamp)
    requires
        is_min_age(s.sensors, fusion_list(s, role), s.sensors.len() as int, age),
    ensures
        past_age(now, last_of(s, role), age) == role_stale(s, role, now),
{
    let list = fusion_list(s, role);
    assert(forall|i: int|
        0 <= i < s.sensors.len() ==> #[trigger] licensed(s, role, i) == counts(
            s.sensors,
            list,
            i,
        ));
    if age is Some {
        let w = choose|i: int|
            0 <= i < s.sensors.len() && #[trigger] counts(s.sensors, list, i)
                && s.sensors[i].max_age == age->0;
        assert(licensed(s, role, w));
    }
    if role_stale(s, role, now) {
        let v = choose|i: int| #[trigger]
            licensed(s, role, i) && match last_of(s, role) {
                Some(t) => elapsed(now, t) > s.sensors[i].max_age@,
                None => true,
            };
        assert(counts(s.sensors, list, v));
    }
}

/// A measurement is accepted only from a sensor that the matching fusion list
/// names and whose entry is licensed for the inner loop.
pub proof fn only_licensed_sensors_are_fused(s: Intake, m: Measurement, f: Figures)
    requires
        rejection(s, m, f) is None,
    ensures
        fusion_list(s, role_of(m.kind)).contains(m.sensor),
        find_sensor(s.sensors, m.sensor) is Some,
        find_sensor(s.sensors, m.sensor)->0.license == License::InnerLoop,
{
}

/// Accepted time never runs backwards, and a measurement at the very time of
/// the last accepted one is still in order.
pub proof fn accepted_time_never_runs_back(s: Intake, m: Measurement, f: Figures)
    requires
        s.latest_t is Some,
    ensures
        rejection(s, m, f) is None ==> m.t@ >= s.latest_t->0@,
        m.t@ == s.latest_t->0@ ==> rejection(s, m, f) != Some(Rejection::OutOfOrder),
{
    crate::contract::time::timestamp_is_its_nanos(m.t, s.latest_t->0);
}

/// Accepting a measurement keeps the intake consistent, never stops a running
/// filter, and never moves an anchored frame or a kept seed.
pub proof fn seeds_and_frame_are_kept(s: Intake, m: Measurement, f: Figures)
    requires
        consistent(s),
        rejection(s, m, f) is None,
    ensures
        consistent(accepted(s, m, f)),
        s.filter_t is Some ==> accepted(s, m, f).filter_t is Some,
        s.origin is Some ==> accepted(s, m, f).origin == s.origin,
        s.init_heading is Some ==> accepted(s, m, f).init_heading == s.init_heading,
{
}

/// The filter starts as soon as a position fix and a heading have both been
/// accepted, in either order, at the position of the fix and with the heading
/// as its seed.
pub proof fn starts_on_fix_and_heading_in_either_order(
    s: Intake,
    fix: Measurement,
    heading: Measurement,
    f: Figures,
)
    requires
        consistent(s),
        s.origin is None,
        s.init_heading is None,
        fix_of(fix.kind, f) is Some,
        heading_of(heading.kind) is Some,
    ensures
        accepted(s, fix, f).filter_t is None,
        accepted(s, heading, f).filter_t is None,
        ({
            let a = accepted(accepted(s, fix, f), heading, f);
            let b = accepted(accepted(s, heading, f), fix, f);
            &&& a.filter_t == Some(heading.t)
            &&& b.filter_t == Some(fix.t)
            &&& a.origin == Some((fix_of(fix.kind, f)->0).0)
            &&& a.origin == b.origin
            &&& a.init_pos_std_m == Some((fix_of(fix.kind, f)->0).1)
            &&& a.init_pos_std_m == b.init_pos_std_m
            &&& a.init_heading == heading_of(heading.kind)
            &&& a.init_heading == b.init_heading
        }),
{
}

/// A role with no licensed sensor cannot go stale, and one that has a licensed
/// sensor is stale until its first measurement is accepted.
pub proof fn staleness_needs_a_licensed_sensor(s: Intake, role: Role, now: Timestamp)
    ensures
        (forall|i: int| !#[trigger] licensed(s, role, i)) ==> !role_stale(s, role, now),
        (exists|i: int| #[trigger] licensed(s, role, i)) && last_of(s, role) is None ==> role_stale(
            s,
            role,
            now,
        ),
{
}

/// Once stale, a role stays stale until a measurement of it is accepted.
pub proof fn staleness_only_grows(s: Intake, role: Role, now: Timestamp, later: Timestamp)
    requires
        now@ <= later@,
        role_stale(s, role, now),
    ensures
        role_stale(s, role, later),
{
    let i = choose|i: int| #[trigger]
        licensed(s, role, i) && match last_of(s, role) {
            Some(t) => elapsed(now, t) > s.sensors[i].max_age@,
            None => true,
        };
    assert(licensed(s, role, i));
    crate::contract::time::duration_is_its_nanos(s.sensors[i].max_age, s.sensors[i].max_age);
}

/// The first entry with an id is the one that counts.
proof fn lemma_first_entry(sensors: Seq<SensorConfig>, id: SensorId, i: int)
    requires
        0 <= i < sensors.len(),
        sensors[i].id == id,
        forall|k: int| 0 <= k < i ==> (#[trigger] sensors[k]).id != id,
    ensures
        find_sensor(sensors, id) == Some(sensors[i]),
    decreases sensors.len(),
{
    if i > 0 {
        let rest = sensors.skip(1);
        assert(sensors[0].id != id);
        assert forall|k: int| 0 <= k < i - 1 implies (#[trigger] rest[k]).id != id by {
            assert(rest[k] == sensors[k + 1]);
        }
        lemma_first_entry(rest, id, i - 1);
    }
}

proof fn lemma_no_entry(sensors: Seq<SensorConfig>, id: SensorId)
    requires
        forall|k: int| 0 <= k < sensors.len() ==> (#[trigger] sensors[k]).id != id,
    ensures
        find_sensor(sensors, id) is None,
    decreases sensors.len(),
{
    if sensors.len() > 0 {
        let rest = sensors.skip(1);
        assert(sensors[0].id != id);
        assert forall|k: int| 0 <= k < rest.len() implies (#[trigger] rest[k]).id != id by {
            assert(rest[k] == sensors[k + 1]);
        }
        lemma_no_entry(rest, id);
    }
}

/// A position fused into a running filter is the measured one: latitude for
/// latitude, longitude for longitude, with the std it was declared with, seen
/// from where the sensor's own entry says the antenna sits, after a predict
/// over exactly the time that has passed.
pub proof fn fused_position_is_the_measured_one(
    s: Intake,
    m: Measurement,
    f: Figures,
    step: Step,
    entry: int,
)
    requires
        s.filter_t is Some,
        asks_for(s, m, f, step),
        0 <= entry < s.sensors.len(),
        s.sensors[entry].id == m.sensor,
        forall|k: int| 0 <= k < entry ==> (#[trigger] s.sensors[k]).id != m.sensor,
    ensures
        step matches Step::Fuse { span, .. } && span@ == m.t@ - s.filter_t->0@,
        m.kind matches MeasurementKind::GnssPosition { position, std_m } ==> (
        step matches Step::Fuse { update: Update::Position { position: p, std_m: sd, lever_arm_m }, .. }
            && p.lat_rad == position.lat_rad && p.lon_rad == position.lon_rad && sd == std_m
            && lever_arm_m == s.sensors[entry].lever_arm_m),
        m.kind matches MeasurementKind::GnssPositionCov { position, cov_ne_m2, .. } ==> (
        step matches Step::Fuse {
            update: Update::PositionCov { position: p, cov_ne_m2: cov, lever_arm_m },
            ..
        } && p.lat_rad == position.lat_rad && p.lon_rad == position.lon_rad && cov == cov_ne_m2
            && lever_arm_m == s.sensors[entry].lever_arm_m),
{
    lemma_first_entry(s.sensors, m.sensor, entry);
}

/// A heading, yaw rate, speed or course fused into a running filter is the
/// measured one, with the std it was declared with; speed and course are seen
/// from where the sensor's own entry says the antenna sits.
pub proof fn fused_motion_is_the_measured_one(
    s: Intake,
    m: Measurement,
    f: Figures,
    step: Step,
    entry: int,
)
    requires
        s.filter_t is Some,
        asks_for(s, m, f, step),
        0 <= entry < s.sensors.len(),
        s.sensors[entry].id == m.sensor,
        forall|k: int| 0 <= k < entry ==> (#[trigger] s.sensors[k]).id != m.sensor,
    ensures
        m.kind matches MeasurementKind::Heading { heading_rad, std_rad } ==> (
        step matches Step::Fuse { update: Update::Heading { heading_rad: h, std_rad: sd }, .. } && h
            == heading_rad && sd == std_rad),
        m.kind matches MeasurementKind::YawRate { yaw_rate_radps, std_radps } ==> (
        step matches Step::Fuse { update: Update::YawRate { yaw_rate_radps: r, std_radps: sd }, .. }
            && r == yaw_rate_radps && sd == std_radps),
        m.kind matches MeasurementKind::SpeedOverGround { sog_mps, std_mps } ==> (
        step matches Step::Fuse {
            update: Update::SpeedOverGround { sog_mps: v, std_mps: sd, lever_arm_m },
            ..
        } && v == sog_mps && sd == std_mps && lever_arm_m == s.sensors[entry].lever_arm_m),
        m.kind matches MeasurementKind::CourseOverGround { cog_rad, std_rad } ==> (
        step matches Step::Fuse {
            update: Update::CourseOverGround { cog_rad: c, std_rad: sd, lever_arm_m },
            ..
        } && c == cog_rad && sd == std_rad && lever_arm_m == s.sensors[entry].lever_arm_m),
{
    lemma_first_entry(s.sensors, m.sensor, entry);
}

/// A measurement that nothing is wrong with in itself is accepted exactly when
/// the list for what it measures names its sensor, that sensor's entry is
/// licensed for the inner loop, it is not older than the latest accepted one,
/// and, for speed and course once the filter runs, the antenna is not below
/// half a meter per second. The first of these to fail names the reason.
pub proof fn acceptance_by_list_license_order_and_speed(
    s: Intake,
    m: Measurement,
    f: Figures,
    entry: int,
)
    requires
        super::screen::screened_out(m.kind, f) is None,
        0 <= entry < s.sensors.len(),
        s.sensors[entry].id == m.sensor,
        forall|k: int| 0 <= k < entry ==> (#[trigger] s.sensors[k]).id != m.sensor,
    ensures
        ({
            let listed = if m.kind is Heading {
                s.heading_list.contains(m.sensor)
            } else if m.kind is YawRate {
                s.imu_list.contains(m.sensor)
            } else {
                s.gnss_list.contains(m.sensor)
            };
            let licensed_entry = s.sensors[entry].license == License::InnerLoop;
            let late = s.latest_t is Some && m.t@ < s.latest_t->0@;
            let slow = (m.kind is SpeedOverGround || m.kind is CourseOverGround) && s.filter_t is Some
                && !f.antenna_speed_mps.nan() && 2 * f.antenna_speed_mps.units()
                < vstd::arithmetic::power2::pow2(1074);
            &&& !listed ==> rejection(s, m, f) == Some(Rejection::UnknownSensor)
            &&& listed && !licensed_entry ==> rejection(s, m, f) == Some(Rejection::NotLicensed)
            &&& listed && licensed_entry && late ==> rejection(s, m, f) == Some(
                Rejection::OutOfOrder,
            )
            &&& listed && licensed_entry && !late && slow ==> rejection(s, m, f) == Some(
                Rejection::LowSpeed,
            )
            &&& listed && licensed_entry && !late && !slow ==> rejection(s, m, f) is None
        }),
{
    lemma_first_entry(s.sensors, m.sensor, entry);
    super::ekf::too_slow_is_below_half_a_meter_per_second(f.antenna_speed_mps);
}

/// What is wrong with a measurement in itself is reported before anything
/// else, and a sensor without any entry is unknown whatever the lists say.
pub proof fn faults_and_strangers_are_refused(s: Intake, m: Measurement, f: Figures)
    ensures
        super::screen::screened_out(m.kind, f) is Some ==> rejection(s, m, f)
            == super::screen::screened_out(m.kind, f),
        super::screen::screened_out(m.kind, f) is None && (forall|k: int|
            0 <= k < s.sensors.len() ==> (#[trigger] s.sensors[k]).id != m.sensor) ==> rejection(
            s,
            m,
            f,
        ) == Some(Rejection::UnknownSensor),
{
    if forall|k: int| 0 <= k < s.sensors.len() ==> (#[trigger] s.sensors[k]).id != m.sensor {
        lemma_no_entry(s.sensors, m.sensor);
    }
}

/// An accepted measurement is the latest, moves the clock of what it measures
/// to its own time and no other clock, and moves a running filter to its time.
/// The configuration, the demand and the process model stay.
pub proof fn acceptance_moves_one_clock(s: Intake, m: Measurement, f: Figures)
    ensures
        ({
            let a = accepted(s, m, f);
            &&& a.latest_t == Some(m.t)
            &&& m.kind is Heading ==> a.last_heading == Some(m.t) && a.last_gnss == s.last_gnss
                && a.last_imu == s.last_imu
            &&& m.kind is YawRate ==> a.last_imu == Some(m.t) && a.last_gnss == s.last_gnss
                && a.last_heading == s.last_heading
            &&& !(m.kind is Heading) && !(m.kind is YawRate) ==> a.last_gnss == Some(m.t)
                && a.last_heading == s.last_heading && a.last_imu == s.last_imu
            &&& s.filter_t is Some ==> a.filter_t == Some(m.t)
            &&& m.kind is GnssPosition ==> a.last_fix is None
            &&& m.kind matches MeasurementKind::GnssPositionCov { fix, .. } ==> a.last_fix == Some(
                fix,
            )
            &&& !(m.kind is GnssPosition) && !(m.kind is GnssPositionCov) ==> a.last_fix
                == s.last_fix
            &&& a.gnss_list == s.gnss_list && a.heading_list == s.heading_list && a.imu_list
                == s.imu_list && a.sensors == s.sensors
            &&& a.tau == s.tau && a.process == s.process
        }),
{
}

/// The filter starts with the measured heading and its std, and with the std
/// of the fix, at the fix's own coordinates, whichever of the two came last
/// and however many other measurements came between.
pub proof fn start_is_seeded_by_the_measurements(
    s: Intake,
    fix: Measurement,
    heading: Measurement,
    f: Figures,
    position: GeoPoint,
    std_m: Scalar,
    heading_rad: Scalar,
    std_rad: Scalar,
    step: Step,
)
    requires
        consistent(s),
        s.filter_t is None,
        fix.kind == (MeasurementKind::GnssPosition { position, std_m }) || (
        fix.kind matches MeasurementKind::GnssPositionCov { position: p, .. } && p == position
            && std_m == f.isotropic_std_m),
        heading.kind == (MeasurementKind::Heading { heading_rad, std_rad }),
    ensures
        s.origin is None ==> {
            &&& accepted(s, fix, f).origin is Some
            &&& accepted(s, fix, f).origin->0.lat_rad == position.lat_rad
            &&& accepted(s, fix, f).origin->0.lon_rad == position.lon_rad
            &&& accepted(s, fix, f).init_pos_std_m == Some(std_m)
            &&& accepted(s, fix, f).init_heading == s.init_heading
        },
        s.init_heading is None ==> {
            &&& accepted(s, heading, f).init_heading == Some((heading_rad, std_rad))
            &&& accepted(s, heading, f).origin == s.origin
            &&& accepted(s, heading, f).init_pos_std_m == s.init_pos_std_m
        },
        s.init_heading is None && s.init_pos_std_m is Some && asks_for(s, heading, f, step) ==> step
            == (Step::Start {
            pos_std_m: s.init_pos_std_m->0,
            heading_rad,
            heading_std_rad: std_rad,
        }),
        s.origin is None && s.init_heading is Some && asks_for(s, fix, f, step) ==> step
            == (Step::Start {
            pos_std_m: std_m,
            heading_rad: (s.init_heading->0).0,
            heading_std_rad: (s.init_heading->0).1,
        }),
        s.init_heading is None && s.init_pos_std_m is None ==> (asks_for(s, heading, f, step)
            ==> step == Step::Hold) && (asks_for(s, fix, f, step) ==> step == Step::Hold),
{
}

/// Nothing but a position and a heading starts the filter: before it runs,
/// any other accepted measurement leaves the seeds alone and asks for nothing.
pub proof fn only_fix_and_heading_seed(s: Intake, m: Measurement, f: Figures, step: Step)
    requires
        consistent(s),
        s.filter_t is None,
        m.kind is YawRate || m.kind is SpeedOverGround || m.kind is CourseOverGround,
    ensures
        accepted(s, m, f).filter_t is None,
        accepted(s, m, f).origin == s.origin,
        accepted(s, m, f).init_pos_std_m == s.init_pos_std_m,
        accepted(s, m, f).init_heading == s.init_heading,
        asks_for(s, m, f, step) ==> step == Step::Hold,
{
}

/// The list that names the sensors of a role, and the clock of that role.
pub open spec fn stream_of(s: Intake, role: Role) -> (Seq<SensorId>, Option<Timestamp>) {
    match role {
        Role::Gnss => (s.gnss_list, s.last_gnss),
        Role::Heading => (s.heading_list, s.last_heading),
        Role::YawRate => (s.imu_list, s.last_imu),
    }
}

/// A role is stale exactly when one of its licensed sensors allows less time
/// than has passed since the role was last heard, or it was never heard: each
/// role by its own list and its own clock, an allowance just used up still
/// fresh.
pub proof fn staleness_by_list_and_clock(s: Intake, now: Timestamp)
    ensures
        role_stale(s, Role::Gnss, now) <==> exists|i: int|
            0 <= i < s.sensors.len() && s.sensors[i].license == License::InnerLoop
                && s.gnss_list.contains((#[trigger] s.sensors[i]).id) && (s.last_gnss is None || now@
                - s.last_gnss->0@ > s.sensors[i].max_age@),
        role_stale(s, Role::Heading, now) <==> exists|i: int|
            0 <= i < s.sensors.len() && s.sensors[i].license == License::InnerLoop
                && s.heading_list.contains((#[trigger] s.sensors[i]).id) && (s.last_heading is None
                || now@ - s.last_heading->0@ > s.sensors[i].max_age@),
        role_stale(s, Role::YawRate, now) <==> exists|i: int|
            0 <= i < s.sensors.len() && s.sensors[i].license == License::InnerLoop
                && s.imu_list.contains((#[trigger] s.sensors[i]).id) && (s.last_imu is None || now@
                - s.last_imu->0@ > s.sensors[i].max_age@),
{
    lemma_role_stale(s, Role::Gnss, now);
    lemma_role_stale(s, Role::Heading, now);
    lemma_role_stale(s, Role::YawRate, now);
}

proof fn lemma_role_stale(s: Intake, role: Role, now: Timestamp)
    ensures
        role_stale(s, role, now) <==> exists|i: int|
            0 <= i < s.sensors.len() && s.sensors[i].license == License::InnerLoop && stream_of(
                s,
                role,
            ).0.contains((#[trigger] s.sensors[i]).id) && (stream_of(s, role).1 is None || now@
                - stream_of(s, role).1->0@ > s.sensors[i].max_age@),
{
    assert forall|i: int| 0 <= i < s.sensors.len() implies (#[trigger] s.sensors[i]).max_age@
        >= 0 by {
        crate::contract::time::duration_is_its_nanos(s.sensors[i].max_age, s.sensors[i].max_age);
    }
    if role_stale(s, role, now) {
        let i = choose|i: int| #[trigger]
            licensed(s, role, i) && match last_of(s, role) {
                Some(t) => elapsed(now, t) > s.sensors[i].max_age@,
                None => true,
            };
        assert(s.sensors[i].max_age@ >= 0);
    }
    if exists|i: int|
        0 <= i < s.sensors.len() && s.sensors[i].license == License::InnerLoop && stream_of(
            s,
            role,
        ).0.contains((#[trigger] s.sensors[i]).id) && (stream_of(s, role).1 is None || now@
            - stream_of(s, role).1->0@ > s.sensors[i].max_age@) {
        let i = choose|i: int|
            0 <= i < s.sensors.len() && s.sensors[i].license == License::InnerLoop && stream_of(
                s,
                role,
            ).0.contains((#[trigger] s.sensors[i]).id) && (stream_of(s, role).1 is None || now@
                - stream_of(s, role).1->0@ > s.sensors[i].max_age@);
        assert(s.sensors[i].max_age@ >= 0);
        assert(licensed(s, role, i));
    }
}

/// Health is a fault exactly while the filter has not started or has an
/// element that is not finite; else degraded exactly while one of the three
/// roles is stale; the stale flags, the fix mode and the stds are each their
/// own, and the stds infinite before the start.
pub proof fn health_says_what_is_wrong(
    e: Estimator,
    now: Timestamp,
    predicted: Ekf,
    position_std_m: Scalar,
    heading_std_rad: Scalar,
    h: EstimatorHealth,
)
    requires
        call_ensures(
            Estimator::health,
            (&e, now, &predicted, position_std_m, heading_std_rad),
            h,
        ),
    ensures
        h.gnss_stale == role_stale(e@, Role::Gnss, now),
        h.heading_stale == role_stale(e@, Role::Heading, now),
        h.yaw_rate_stale == role_stale(e@, Role::YawRate, now),
        h.fix == e@.last_fix,
        h.level == HealthLevel::Fault <==> e@.filter_t is None || (exists|k: int|
            0 <= k < 6 && !(#[trigger] predicted.x@[k]).finite()) || (exists|k: int, l: int|
            0 <= k < 6 && 0 <= l < 6 && !(#[trigger] predicted.p@[k]@[l]).finite()),
        h.level == HealthLevel::Degraded ==> h.gnss_stale || h.heading_stale || h.yaw_rate_stale,
        h.level == HealthLevel::Nominal ==> !h.gnss_stale && !h.heading_stale && !h.yaw_rate_stale,
        e@.filter_t is Some ==> h.position_std_m == position_std_m && h.heading_std_rad
            == heading_std_rad,
        e@.filter_t is None ==> h.position_std_m.bits == 0x7ff0_0000_0000_0000
            && h.heading_std_rad.bits == 0x7ff0_0000_0000_0000,
{
}

/// A query is answered for the time asked or the filter's own, whichever is
/// later, after a predict over exactly the time between; before the filter has
/// started it is not answered.
pub proof fn query_is_answered_for_the_later_time(e: Estimator, now: Timestamp, r: Option<Moment>)
    requires
        call_ensures(Estimator::state, (&e, now), r),
    ensures
        r is Some <==> e@.filter_t is Some,
        r matches Some(at) ==> {
            &&& at.t == now || at.t == e@.filter_t->0
            &&& at.t@ >= now@ && at.t@ >= e@.filter_t->0@
            &&& e@.filter_t->0@ + at.span@ == at.t@
        },
{
}

/// A new estimator fuses exactly the sensors its configuration lists for each
/// role, knows exactly the configured entries, holds no demand, has heard
/// nothing, and runs the hydrodynamic model exactly when that is configured
/// and accepted.
pub proof fn new_estimator_follows_its_configuration(
    config: VesselConfig,
    model_accepted: bool,
    e: Estimator,
)
    requires
        call_ensures(Estimator::new, (&config, model_accepted), e),
    ensures
        e@.gnss_list == config.estimator.gnss@,
        e@.heading_list == config.estimator.heading@,
        e@.imu_list == config.estimator.imu@,
        e@.sensors == config.sensors@,
        e@.last_gnss is None && e@.last_heading is None && e@.last_imu is None,
        e@.latest_t is None && e@.filter_t is None && e@.origin is None && e@.last_fix is None,
        e@.init_pos_std_m is None && e@.init_heading is None,
        e@.tau.surge_n.bits == 0 && e@.tau.sway_n.bits == 0 && e@.tau.yaw_nm.bits == 0,
        config.estimator.model matches ModelParams::Fossen3Dof(params) ==> (model_accepted
            ==> e@.process == ProcessModel::Hydrodynamic(params)) && (!model_accepted ==> e@.process
            == ProcessModel::ConstantVelocity),
        config.estimator.model is ConstantVelocity ==> e@.process == ProcessModel::ConstantVelocity,
{
}

} // verus!
