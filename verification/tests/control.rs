//! Guidance and allocation, with the arithmetic a host brings: local
//! geometry, gains, the weighted solve and a vessel to drive.

use std::f64::consts::PI;

use nalgebra::{Cholesky, SMatrix, SVector, Vector3};

use coxswain::allocation::effectors::AXIS_EPS_BITS;
use coxswain::allocation::{
    capability, effective_speed, limits, Allocation, Allocator, ConfigError, Plan, Reach, Verdict,
};
use coxswain::contract::{
    ActuationCapability, BoundedList, ConnGrantDefault, Duration, EffectorConfig, EffectorId,
    EffectorKind, EstimatorConfig, ForceDemand, Fossen3DofParams, GeoPoint, GeofenceAction,
    GeofenceConfig, ModelParams, Setpoint, SupervisorConfig, VesselConfig, MAX_EFFECTORS,
};
use coxswain::guidance::saturation::{MAX_SURGE_N_BITS, MAX_SWAY_N_BITS, MAX_YAW_NM_BITS};
use coxswain::guidance::sequencing::{
    ACCEPT_RADIUS_M_BITS, DRIFT_RADIUS_M_BITS, NEAR_ZONE_M_BITS, REAPPROACH_RADIUS_M_BITS,
};
use coxswain::guidance::{approach_speed, saturate, Geometry, Guidance, Law, Leg};
use coxswain::scalar::Scalar;

const TICK_S: f64 = 0.1;

fn s(x: f64) -> Scalar {
    Scalar::from_bits(x.to_bits())
}

fn f(x: Scalar) -> f64 {
    f64::from_bits(x.to_bits())
}

fn tau(surge: f64, sway: f64, yaw: f64) -> ForceDemand {
    ForceDemand {
        surge_n: s(surge),
        sway_n: s(sway),
        yaw_nm: s(yaw),
    }
}

// ------------------------------------------------------------- local frame

#[derive(Copy, Clone)]
struct LocalFrame {
    origin: GeoPoint,
    r_m: f64,
    r_n_cos_lat: f64,
}

impl LocalFrame {
    fn new(origin: GeoPoint) -> LocalFrame {
        let e2 = 0.006_694_379_990_14;
        let a = 6_378_137.0;
        let sin_lat = libm::sin(f(origin.lat_rad));
        let w2 = 1.0 - e2 * sin_lat * sin_lat;
        LocalFrame {
            origin,
            r_m: a * (1.0 - e2) / (w2 * libm::sqrt(w2)),
            r_n_cos_lat: a / libm::sqrt(w2) * libm::cos(f(origin.lat_rad)),
        }
    }

    fn to_local(self, p: GeoPoint) -> (f64, f64) {
        (
            (f(p.lat_rad) - f(self.origin.lat_rad)) * self.r_m,
            (f(p.lon_rad) - f(self.origin.lon_rad)) * self.r_n_cos_lat,
        )
    }

    fn to_geo(self, n_m: f64, e_m: f64) -> GeoPoint {
        GeoPoint {
            lat_rad: s(f(self.origin.lat_rad) + n_m / self.r_m),
            lon_rad: s(f(self.origin.lon_rad) + e_m / self.r_n_cos_lat),
        }
    }
}

// ---------------------------------------------------------------- the host

fn example() -> Fossen3DofParams {
    Fossen3DofParams {
        mass_kg: s(210.0),
        izz_kg_m2: s(95.0),
        x_udot: s(-18.0),
        y_vdot: s(-140.0),
        n_rdot: s(-80.0),
        x_u: s(-35.0),
        y_v: s(-220.0),
        n_r: s(-110.0),
    }
}

fn config() -> VesselConfig {
    VesselConfig {
        sensors: BoundedList::new(),
        estimator: EstimatorConfig {
            model: ModelParams::Fossen3Dof(example()),
            gnss: BoundedList::new(),
            imu: BoundedList::new(),
            heading: BoundedList::new(),
        },
        supervisor: SupervisorConfig {
            claimant_heartbeat: Duration::from_millis(500),
            conn_grant_default: ConnGrantDefault::Nobody,
            position_degraded_after: Duration::from_secs(2),
            low_voltage_v: s(11.5),
            critical_voltage_v: s(10.5),
            power_stale_after: Duration::from_secs(3),
            geofence: GeofenceConfig {
                enabled: false,
                action: GeofenceAction::Hold,
                ring: BoundedList::new(),
            },
            claimant_priorities: BoundedList::new(),
        },
        effectors: BoundedList::new(),
    }
}

fn origin() -> GeoPoint {
    GeoPoint {
        lat_rad: s(57.67_f64.to_radians()),
        lon_rad: s(11.85_f64.to_radians()),
    }
}

#[derive(Copy, Clone)]
struct State {
    position: GeoPoint,
    heading: f64,
    u: f64,
    v: f64,
    r: f64,
}

fn state(heading: f64, u: f64, r: f64) -> State {
    State {
        position: origin(),
        heading,
        u,
        v: 0.0,
        r,
    }
}

fn wrap_pi(a: f64) -> f64 {
    let two_pi = 2.0 * PI;
    let mut w = a % two_pi;
    if w > PI {
        w -= two_pi;
    } else if w <= -PI {
        w += two_pi;
    }
    w
}

/// Guidance with its laws evaluated at the example vessel's gains.
struct Pilot {
    guidance: Guidance,
}

impl Pilot {
    fn new(capability: ActuationCapability) -> Pilot {
        Pilot {
            guidance: Guidance::new(&config(), capability),
        }
    }

    fn gains(&self) -> (f64, f64, f64, f64) {
        match self.guidance.gains_model() {
            ModelParams::Fossen3Dof(p) => {
                let inertia = f(p.izz_kg_m2) - f(p.n_rdot);
                let kp_u = ((f(p.mass_kg) - f(p.x_udot)) / 2.0 + f(p.x_u)).max(0.0);
                (inertia * 0.25, inertia, kp_u, -f(p.x_u))
            }
            ModelParams::ConstantVelocity => (43.75, 175.0, 300.0, 0.0),
        }
    }

    fn yaw(&self, psi_ref: f64, st: &State) -> f64 {
        let (kp, kd, _, _) = self.gains();
        kp * wrap_pi(psi_ref - st.heading) - kd * st.r
    }

    fn surge(&self, u_ref: f64, st: &State) -> f64 {
        let (_, _, kp, ff) = self.gains();
        kp * (u_ref - st.u) + ff * u_ref
    }

    fn tick(&mut self, sp: &Setpoint, st: &State) -> ForceDemand {
        let frame = LocalFrame::new(st.position);
        let points: Vec<GeoPoint> = match sp {
            Setpoint::StationKeep { position } => vec![*position],
            Setpoint::FollowPath { path, .. } => path.to_vec(),
            _ => vec![],
        };
        let local: Vec<(f64, f64)> = points.iter().map(|p| frame.to_local(*p)).collect();
        let hold = local
            .last()
            .map(|p| libm::hypot(p.0, p.1))
            .unwrap_or(0.0);
        let legs: Vec<Leg> = local
            .windows(2)
            .map(|w| {
                let (dn, de) = (w[1].0 - w[0].0, w[1].1 - w[0].1);
                Leg {
                    endpoint_dist_m: s(libm::hypot(w[1].0, w[1].1)),
                    progress: s(-w[0].0 * dn - w[0].1 * de),
                    length_sq: s(dn * dn + de * de),
                }
            })
            .collect();
        let law = self.guidance.tick(
            sp,
            &Geometry {
                heading_rad: s(st.heading),
                hold_dist_m: s(hold),
                legs: &legs,
            },
        );
        saturate(self.evaluate(law, st, frame))
    }

    fn evaluate(&self, law: Law, st: &State, frame: LocalFrame) -> ForceDemand {
        match law {
            Law::Rest => ForceDemand::zero(),
            Law::Effort(demand) => demand,
            Law::Steer {
                heading_rad,
                speed_mps,
            } => tau(
                self.surge(f(speed_mps), st),
                0.0,
                self.yaw(f(heading_rad), st),
            ),
            Law::Approach { target } => {
                let (tn, te) = frame.to_local(target);
                let u_ref = f(approach_speed(s(0.3 * libm::hypot(tn, te))));
                tau(
                    self.surge(u_ref, st),
                    0.0,
                    self.yaw(libm::atan2(te, tn), st),
                )
            }
            Law::Hold {
                target,
                heading_rad,
            } => {
                let (tn, te) = frame.to_local(target);
                let (sn, cs) = (libm::sin(st.heading), libm::cos(st.heading));
                tau(
                    20.0 * (cs * tn + sn * te) - 100.0 * st.u,
                    20.0 * (-sn * tn + cs * te) - 50.0 * st.v,
                    self.yaw(f(heading_rad), st),
                )
            }
            Law::Track {
                from,
                to,
                speed_mps,
            } => {
                let (an, ae) = frame.to_local(from);
                let (bn, be) = frame.to_local(to);
                let (dn, de) = (bn - an, be - ae);
                let e = (de * an - dn * ae) / libm::hypot(dn, de);
                let chi = wrap_pi(libm::atan2(de, dn) + libm::atan2(-e, 10.0));
                tau(self.surge(f(speed_mps), st), 0.0, self.yaw(chi, st))
            }
        }
    }
}

/// tau = B f contribution of one unit of an effector's output.
fn column(kind: &EffectorKind, surge_mps: f64) -> Vector3<f64> {
    match *kind {
        EffectorKind::FixedThruster {
            pos_x_m,
            pos_y_m,
            azimuth_rad,
            ..
        } => {
            let (sn, cs) = (libm::sin(f(azimuth_rad)), libm::cos(f(azimuth_rad)));
            Vector3::new(cs, sn, f(pos_x_m) * sn - f(pos_y_m) * cs)
        }
        EffectorKind::Rudder {
            pos_x_m,
            side_force_n_per_rad_mps2,
            min_effective_speed_mps,
            ..
        } => {
            let u_eff = f(effective_speed(s(surge_mps), min_effective_speed_mps));
            let k_u2 = f(side_force_n_per_rad_mps2) * u_eff * u_eff;
            Vector3::new(0.0, k_u2, f(pos_x_m) * k_u2)
        }
    }
}

fn reach(table: &[EffectorConfig]) -> Vec<Reach> {
    table
        .iter()
        .map(|e| match e.kind {
            EffectorKind::FixedThruster { .. } => {
                let c = column(&e.kind, 0.0);
                Reach {
                    sway: s(c[1].abs()),
                    yaw: s(c[2].abs()),
                }
            }
            EffectorKind::Rudder { .. } => Reach {
                sway: s(0.0),
                yaw: s(0.0),
            },
        })
        .collect()
}

/// Weighted least squares over the free effectors, redistributed until the
/// library accepts.
fn allocate(a: &Allocator, demand: ForceDemand, surge_mps: f64) -> Allocation {
    let mut spread = match a.allocate(demand, s(surge_mps)) {
        Plan::Settled(out) => return out,
        Plan::Solve(spread) => spread,
    };
    let table = a.effectors();
    let n = table.len();
    let weight = Vector3::new(1.0, 0.1, 10.0);
    let scale = table
        .iter()
        .map(|e| weight.component_mul(&column(&e.kind, surge_mps)).norm_squared())
        .fold(0.0, f64::max);
    let lambda = 1e-12 * scale;
    let mut residual = Vector3::new(f(demand.surge_n), f(demand.sway_n), f(demand.yaw_nm));
    let mut solves = 0;
    while !spread.is_settled() {
        solves += 1;
        assert!(solves <= n + 1, "did not settle");
        let mut bw = SMatrix::<f64, 3, MAX_EFFECTORS>::zeros();
        for (i, e) in table.iter().enumerate() {
            if spread.is_free(i) {
                bw.set_column(i, &weight.component_mul(&column(&e.kind, surge_mps)));
            }
        }
        let lhs = bw.transpose() * bw
            + SMatrix::<f64, MAX_EFFECTORS, MAX_EFFECTORS>::identity() * lambda;
        let rhs: SVector<f64, MAX_EFFECTORS> = bw.transpose() * weight.component_mul(&residual);
        let x = Cholesky::new(lhs).unwrap().solve(&rhs);
        let mut solved = [s(0.0); MAX_EFFECTORS];
        let mut excess = [s(0.0); MAX_EFFECTORS];
        for i in 0..MAX_EFFECTORS {
            solved[i] = s(x[i]);
            if i < n {
                let (lo, hi) = limits(&table[i].kind);
                let (lo, hi) = (f(lo), f(hi));
                if x[i] > hi {
                    excess[i] = s((x[i] - hi) / hi.abs());
                } else if x[i] < lo {
                    excess[i] = s((lo - x[i]) / lo.abs());
                }
            }
        }
        if let Verdict::Clamped { index, bound } = spread.solve(&solved, &excess) {
            residual -= column(&table[index].kind, surge_mps) * f(bound);
        }
    }
    let mut achieved = Vector3::zeros();
    for (e, v) in table.iter().zip(spread.outputs().iter()) {
        achieved += column(&e.kind, surge_mps) * f(*v);
    }
    spread.finish(tau(achieved[0], achieved[1], achieved[2]))
}

/// A 3-DOF hull: M nu_dot = tau - C(nu) nu - D nu.
struct Hull {
    n: f64,
    e: f64,
    psi: f64,
    nu: [f64; 3],
}

impl Hull {
    fn new() -> Hull {
        Hull {
            n: 0.0,
            e: 0.0,
            psi: 0.0,
            nu: [0.0; 3],
        }
    }

    fn truth(&self) -> State {
        let p = LocalFrame::new(origin()).to_geo(self.n, self.e);
        State {
            position: p,
            heading: self.psi,
            u: self.nu[0],
            v: self.nu[1],
            r: self.nu[2],
        }
    }

    fn step(&mut self, force: [f64; 3]) {
        let (m_u, m_v, i_r) = (228.0, 350.0, 175.0);
        let dt = 0.01;
        for _ in 0..10 {
            let [u, v, r] = self.nu;
            let (sn, cs) = (libm::sin(self.psi), libm::cos(self.psi));
            self.n += (u * cs - v * sn) * dt;
            self.e += (u * sn + v * cs) * dt;
            self.psi = wrap_pi(self.psi + r * dt);
            self.nu[0] += (force[0] + m_v * v * r - 35.0 * u) / m_u * dt;
            self.nu[1] += (force[1] - m_u * u * r - 220.0 * v) / m_v * dt;
            self.nu[2] += (force[2] - (m_v - m_u) * u * v - 110.0 * r) / i_r * dt;
        }
    }
}

struct Bench {
    hull: Hull,
    pilot: Pilot,
    frame: LocalFrame,
}

impl Bench {
    fn new() -> Bench {
        Bench {
            hull: Hull::new(),
            pilot: Pilot::new(ActuationCapability::full()),
            frame: LocalFrame::new(origin()),
        }
    }

    fn tick(&mut self, sp: &Setpoint) -> (State, ForceDemand) {
        let st = self.hull.truth();
        let d = self.pilot.tick(sp, &st);
        self.hull.step([f(d.surge_n), f(d.sway_n), f(d.yaw_nm)]);
        (st, d)
    }
}

struct UnderactuatedBench {
    hull: Hull,
    pilot: Pilot,
    allocator: Allocator,
    frame: LocalFrame,
}

impl UnderactuatedBench {
    fn new() -> UnderactuatedBench {
        let table = esc_and_rudder();
        UnderactuatedBench {
            hull: Hull::new(),
            pilot: Pilot::new(capability(&table, &reach(&table))),
            allocator: Allocator::new(&table).unwrap(),
            frame: LocalFrame::new(origin()),
        }
    }

    /// One tick through the honest loop: guidance tau, allocation, achieved
    /// tau applied to the hull.
    fn tick(&mut self, sp: &Setpoint) -> (State, ForceDemand) {
        let st = self.hull.truth();
        let d = self.pilot.tick(sp, &st);
        let out = allocate(&self.allocator, d, st.u).achieved;
        self.hull.step([f(out.surge_n), f(out.sway_n), f(out.yaw_nm)]);
        (st, d)
    }
}

fn distance(frame: LocalFrame, st: &State, target: (f64, f64)) -> f64 {
    let (n, e) = frame.to_local(st.position);
    libm::hypot(n - target.0, e - target.1)
}

/// First time after which the signal stays within the band for the rest of
/// the run; None if it never does.
fn settle_time(samples: &[(f64, f64)], band: f64) -> Option<f64> {
    let mut settled_from = None;
    for &(t, err) in samples {
        if err.abs() <= band {
            settled_from.get_or_insert(t);
        } else {
            settled_from = None;
        }
    }
    settled_from
}

// -------------------------------------------------------------- allocation

fn thruster(
    id: u16,
    pos_x_m: f64,
    pos_y_m: f64,
    azimuth_rad: f64,
    fwd: f64,
    rev: f64,
) -> EffectorConfig {
    EffectorConfig {
        id: EffectorId(id),
        kind: EffectorKind::FixedThruster {
            pos_x_m: s(pos_x_m),
            pos_y_m: s(pos_y_m),
            azimuth_rad: s(azimuth_rad),
            max_thrust_fwd_n: s(fwd),
            max_thrust_rev_n: s(rev),
        },
    }
}

fn rudder(id: u16, pos_x_m: f64, k: f64, max_angle_rad: f64, min_speed: f64) -> EffectorConfig {
    EffectorConfig {
        id: EffectorId(id),
        kind: EffectorKind::Rudder {
            pos_x_m: s(pos_x_m),
            side_force_n_per_rad_mps2: s(k),
            max_angle_rad: s(max_angle_rad),
            min_effective_speed_mps: s(min_speed),
        },
    }
}

fn twin_thrusters() -> [EffectorConfig; 2] {
    [
        thruster(0, 0.0, 1.0, 0.0, 150.0, 150.0),
        thruster(1, 0.0, -1.0, 0.0, 150.0, 150.0),
    ]
}

fn esc_and_rudder() -> [EffectorConfig; 2] {
    [
        thruster(0, 1.0, 0.0, 0.0, 200.0, 120.0),
        rudder(1, -1.5, 400.0, 0.6, 0.5),
    ]
}

fn refusal(table: &[EffectorConfig]) -> ConfigError {
    Allocator::new(table).unwrap_err()
}

#[test]
fn too_many_effectors_rejected() {
    let one = thruster(0, 0.0, 0.0, 0.0, 100.0, 100.0);
    let nine = [one; MAX_EFFECTORS + 1];
    assert_eq!(refusal(&nine), ConfigError::TooManyEffectors);
}

#[test]
fn thruster_limits_must_be_positive() {
    let bad = thruster(0, 0.0, 0.0, 0.0, 0.0, 100.0);
    assert_eq!(refusal(&[bad]), ConfigError::NonPositiveLimit);
    let bad = thruster(0, 0.0, 0.0, 0.0, 100.0, -1.0);
    assert_eq!(refusal(&[bad]), ConfigError::NonPositiveLimit);
}

#[test]
fn rudder_fields_must_be_positive() {
    let bad = rudder(0, -1.0, 0.0, 0.5, 0.5);
    assert_eq!(refusal(&[bad]), ConfigError::NonPositiveLimit);
    let bad = rudder(0, -1.0, 400.0, 0.0, 0.5);
    assert_eq!(refusal(&[bad]), ConfigError::NonPositiveLimit);
    let bad = rudder(0, -1.0, 400.0, 0.5, 0.0);
    assert_eq!(refusal(&[bad]), ConfigError::NonPositiveLimit);
}

#[test]
fn non_finite_fields_rejected() {
    let bad = thruster(0, f64::NAN, 0.0, 0.0, 100.0, 100.0);
    assert_eq!(refusal(&[bad]), ConfigError::NonFinite);
    let bad = rudder(0, f64::INFINITY, 400.0, 0.5, 0.5);
    assert_eq!(refusal(&[bad]), ConfigError::NonFinite);
}

#[test]
fn the_first_unusable_entry_names_the_refusal() {
    let zero = thruster(0, 0.0, 0.0, 0.0, 0.0, 100.0);
    let nan = thruster(1, f64::NAN, 0.0, 0.0, 100.0, 100.0);
    let good = twin_thrusters()[0];
    assert_eq!(refusal(&[good, zero, nan]), ConfigError::NonPositiveLimit);
    assert_eq!(refusal(&[good, nan, zero]), ConfigError::NonFinite);
}

#[test]
fn twin_thruster_pure_surge_splits_evenly() {
    let a = Allocator::new(&twin_thrusters()).unwrap();
    let out = allocate(&a, tau(100.0, 0.0, 0.0), 0.0);
    assert!((f(out.values[0]) - 50.0).abs() < 1e-6);
    assert!((f(out.values[1]) - 50.0).abs() < 1e-6);
}

#[test]
fn twin_thruster_pure_yaw_splits_differentially() {
    let a = Allocator::new(&twin_thrusters()).unwrap();
    let out = allocate(&a, tau(0.0, 0.0, 40.0), 0.0);
    assert!((f(out.values[0]) + 20.0).abs() < 1e-6);
    assert!((f(out.values[1]) - 20.0).abs() < 1e-6);
}

#[test]
fn twin_thruster_feasible_combined_demand_round_trips() {
    let a = Allocator::new(&twin_thrusters()).unwrap();
    let out = allocate(&a, tau(60.0, 0.0, 30.0), 0.0);
    assert!((f(out.achieved.surge_n) - 60.0).abs() < 1e-6);
    assert!((f(out.achieved.sway_n) - 0.0).abs() < 1e-6);
    assert!((f(out.achieved.yaw_nm) - 30.0).abs() < 1e-6);
}

#[test]
fn axis_priority_keeps_yaw_when_surge_saturates() {
    let a = Allocator::new(&twin_thrusters()).unwrap();
    let out = allocate(&a, tau(270.0, 0.0, 40.0), 0.0);
    let (surge, yaw) = (f(out.achieved.surge_n), f(out.achieved.yaw_nm));
    assert!(
        surge < 270.0 - 1.0,
        "surge should saturate below demand: {surge}"
    );
    assert!(
        (yaw - 40.0).abs() / 40.0 < 0.01,
        "yaw should stay within 1% of demand: {yaw}"
    );
}

#[test]
fn rudder_closed_form_above_the_speed_floor() {
    let a = Allocator::new(&esc_and_rudder()).unwrap();
    let u = 2.0;
    let n_demand = 5.0;
    let out = allocate(&a, tau(0.0, 0.0, n_demand), u);
    let expected_delta = n_demand / (-1.5 * 400.0 * u * u);
    assert!((f(out.values[1]) - expected_delta).abs() < 1e-6);
}

#[test]
fn rudder_speed_floor_clamps_u_eff_no_blowup() {
    let a = Allocator::new(&esc_and_rudder()).unwrap();
    let out = allocate(&a, tau(0.0, 0.0, 5.0), 0.01);
    assert!(out.values[1].is_finite());
    assert!(f(out.values[1]).abs() <= 0.6 + 1e-9);
    assert_eq!(f(effective_speed(s(0.01), s(0.5))), 0.5);
    assert_eq!(f(effective_speed(s(-2.0), s(0.5))), 2.0);
}

#[test]
fn underactuated_sway_barely_moves_the_rudder() {
    let a = Allocator::new(&esc_and_rudder()).unwrap();
    let u = 2.0;
    let out = allocate(&a, tau(0.0, 50.0, 0.0), u);
    assert!(f(out.values[1]).abs() < 0.01);
    assert!(f(out.achieved.sway_n).abs() < 5.0);

    let out = allocate(&a, tau(80.0, 50.0, 20.0), u);
    assert!((f(out.achieved.surge_n) - 80.0).abs() / 80.0 < 1e-3);
    assert!((f(out.achieved.yaw_nm) - 20.0).abs() / 20.0 < 1e-3);
}

#[test]
fn asymmetric_reverse_limit_respected() {
    let a = Allocator::new(&[thruster(0, 0.0, 0.0, 0.0, 200.0, 80.0)]).unwrap();
    let out = allocate(&a, tau(-500.0, 0.0, 0.0), 0.0);
    assert!((f(out.values[0]) + 80.0).abs() < 1e-6);
    assert!((f(out.achieved.surge_n) + 80.0).abs() < 1e-6);
}

#[test]
fn the_worst_relative_violator_is_clamped_first() {
    let table = [
        thruster(0, 0.0, 0.0, 0.0, 100.0, 100.0),
        thruster(1, 0.0, 0.0, 0.0, 10.0, 10.0),
        thruster(2, 0.0, 0.0, 0.0, 100.0, 100.0),
    ];
    let a = Allocator::new(&table).unwrap();
    let Plan::Solve(mut spread) = a.allocate(tau(1.0, 0.0, 0.0), s(0.0)) else {
        panic!("expected a solve");
    };
    let mut solved = [s(0.0); MAX_EFFECTORS];
    let mut excess = [s(0.0); MAX_EFFECTORS];
    (solved[0], excess[0]) = (s(150.0), s(0.5));
    (solved[1], excess[1]) = (s(-20.0), s(1.0));
    (solved[2], excess[2]) = (s(200.0), s(1.0));
    assert_eq!(
        spread.solve(&solved, &excess),
        Verdict::Clamped {
            index: 1,
            bound: s(-10.0)
        }
    );
    assert!(spread.is_free(0) && !spread.is_free(1) && spread.is_free(2));
    assert!(!spread.is_free(3));
    assert_eq!(
        spread.solve(&solved, &excess),
        Verdict::Clamped {
            index: 2,
            bound: s(100.0)
        }
    );
    solved[0] = s(99.0);
    assert_eq!(spread.solve(&solved, &excess), Verdict::Accepted);
    assert!(spread.is_settled());
    let out = spread.finish(ForceDemand::zero());
    assert_eq!(out.values.as_slice(), &[s(99.0), s(-10.0), s(100.0)]);
}

#[test]
fn capability_twin_thrusters_no_sway_yes_yaw_at_rest() {
    let cap = capability(&twin_thrusters(), &reach(&twin_thrusters()));
    assert!(!cap.sway_authority);
    assert!(cap.yaw_authority_at_rest);
}

#[test]
fn capability_esc_and_rudder_grants_neither() {
    let cap = capability(&esc_and_rudder(), &reach(&esc_and_rudder()));
    assert!(!cap.sway_authority);
    assert!(!cap.yaw_authority_at_rest);
}

#[test]
fn capability_bow_thruster_grants_sway() {
    let bow = [thruster(0, 2.0, 0.0, std::f64::consts::FRAC_PI_2, 50.0, 50.0)];
    let cap = capability(&bow, &reach(&bow));
    assert!(cap.sway_authority);
}

#[test]
fn capability_empty_table_is_full() {
    assert_eq!(capability(&[], &[]), ActuationCapability::full());
}

#[test]
fn non_finite_tau_fails_safe_to_zero() {
    let a = Allocator::new(&twin_thrusters()).unwrap();
    let out = allocate(&a, tau(f64::NAN, 0.0, 0.0), 0.0);
    assert_eq!(out.values.as_slice(), &[s(0.0), s(0.0)]);
    assert_eq!(out.achieved, ForceDemand::zero());
}

#[test]
fn non_finite_surge_fails_safe_to_zero() {
    let a = Allocator::new(&esc_and_rudder()).unwrap();
    let out = allocate(&a, tau(10.0, 0.0, 5.0), f64::INFINITY);
    assert_eq!(out.values.as_slice(), &[s(0.0), s(0.0)]);
    assert_eq!(out.achieved, ForceDemand::zero());
}

#[test]
fn an_empty_table_has_nothing_to_solve() {
    let a = Allocator::new(&[]).unwrap();
    let out = allocate(&a, tau(10.0, 0.0, 5.0), 1.0);
    assert!(out.values.is_empty());
    assert_eq!(out.achieved, ForceDemand::zero());
}

// ---------------------------------------------------------------- guidance

#[test]
fn heading_error_wraps_the_short_way() {
    let mut g = Pilot::new(ActuationCapability::full());
    let sp = Setpoint::HeadingSpeed {
        heading_rad: s(170_f64.to_radians()),
        speed_mps: s(0.0),
    };
    let d = g.tick(&sp, &state(-170_f64.to_radians(), 0.0, 0.0));
    // Short way from -170 to +170 deg is -20 deg, a turn to port.
    let expected = 43.75 * (-20_f64).to_radians();
    assert!((f(d.yaw_nm) - expected).abs() < 1e-9);
}

#[test]
fn outputs_saturate() {
    let mut g = Pilot::new(ActuationCapability::full());
    let sp = Setpoint::HeadingSpeed {
        heading_rad: s(3.0),
        speed_mps: s(10.0),
    };
    let d = g.tick(&sp, &state(0.0, 0.0, -1.0));
    assert_eq!(f(d.surge_n), 200.0);
    assert_eq!(f(d.yaw_nm), 150.0);
    let sp = Setpoint::HeadingSpeed {
        heading_rad: s(-3.0),
        speed_mps: s(-10.0),
    };
    let d = g.tick(&sp, &state(0.0, 0.0, 1.0));
    assert_eq!(f(d.surge_n), -200.0);
    assert_eq!(f(d.yaw_nm), -150.0);
}

#[test]
fn saturation_leaves_small_demands_alone() {
    let small = tau(199.5, -200.0, 150.0);
    assert_eq!(saturate(small), small);
    assert_eq!(saturate(tau(0.0, 1e9, -150.5)), tau(0.0, 200.0, -150.0));
    assert!(saturate(tau(f64::NAN, 0.0, 0.0)).surge_n.is_nan());
}

#[test]
fn approach_slows_down_near_the_point() {
    for (raw, held) in [(-1.0, 0.0), (0.0, 0.0), (0.9, 0.9), (1.5, 1.5), (12.0, 1.5)] {
        assert_eq!(f(approach_speed(s(raw))), held);
    }
    assert!(approach_speed(s(f64::NAN)).is_nan());
}

#[test]
fn idle_is_zero() {
    let mut g = Pilot::new(ActuationCapability::full());
    let d = g.tick(&Setpoint::Idle, &state(1.0, 2.0, 0.5));
    assert_eq!(d, ForceDemand::zero());
}

#[test]
fn direct_effort_passes_through_saturated() {
    let mut g = Pilot::new(ActuationCapability::full());
    let sp = Setpoint::DirectEffort(tau(50.0, -10.0, 500.0));
    let d = g.tick(&sp, &state(0.0, 0.0, 0.0));
    assert_eq!(d, tau(50.0, -10.0, 150.0));
}

#[test]
fn empty_path_is_idle() {
    let mut g = Pilot::new(ActuationCapability::full());
    let sp = Setpoint::FollowPath {
        path: BoundedList::new(),
        speed_mps: s(1.0),
    };
    let d = g.tick(&sp, &state(0.0, 1.0, 0.0));
    assert_eq!(d, ForceDemand::zero());
}

#[test]
fn single_point_path_station_keeps() {
    let target = LocalFrame::new(origin()).to_geo(100.0, 0.0);
    let st = state(0.0, 0.0, 0.0);
    let mut a = Pilot::new(ActuationCapability::full());
    let d_path = a.tick(
        &Setpoint::FollowPath {
            path: BoundedList::from_slice(&[target]).unwrap(),
            speed_mps: s(1.0),
        },
        &st,
    );
    let mut b = Pilot::new(ActuationCapability::full());
    let d_keep = b.tick(&Setpoint::StationKeep { position: target }, &st);
    assert_eq!(d_path, d_keep);
    // Far zone: transiting toward the point, not idling.
    assert!(f(d_path.surge_n) > 0.0);
}

#[test]
fn setpoint_change_resets_waypoint_progress() {
    let frame = LocalFrame::new(origin());
    let near = frame.to_geo(2.0, 0.0);
    let far = frame.to_geo(100.0, 0.0);
    let far2 = frame.to_geo(100.0, 100.0);
    let st = state(0.0, 0.0, 0.0);
    let mut g = Pilot::new(ActuationCapability::full());
    g.tick(
        &Setpoint::FollowPath {
            path: BoundedList::from_slice(&[origin(), near, far]).unwrap(),
            speed_mps: s(1.0),
        },
        &st,
    );
    // The first endpoint sits inside the acceptance radius, so the first
    // tick advances to segment 1.
    assert_eq!(g.guidance.segment(), 1);
    g.tick(
        &Setpoint::FollowPath {
            path: BoundedList::from_slice(&[origin(), far, far2]).unwrap(),
            speed_mps: s(1.0),
        },
        &st,
    );
    assert_eq!(g.guidance.segment(), 0);
}

fn at(dist: f64, heading: f64) -> Geometry<'static> {
    Geometry {
        heading_rad: s(heading),
        hold_dist_m: s(dist),
        legs: &[],
    }
}

#[test]
fn hold_captures_its_heading_in_the_near_zone() {
    let mut g = Guidance::new(&config(), ActuationCapability::full());
    let target = origin();
    let sp = Setpoint::StationKeep { position: target };
    assert_eq!(g.tick(&sp, &at(5.1, 0.1)), Law::Approach { target });
    let held = Law::Hold {
        target,
        heading_rad: s(0.2),
    };
    assert_eq!(g.tick(&sp, &at(5.0, 0.2)), held);
    assert_eq!(g.tick(&sp, &at(1.0, 0.9)), held);
    // Leaving the zone gives it up; the next entry captures anew.
    assert_eq!(g.tick(&sp, &at(6.0, 0.9)), Law::Approach { target });
    assert_eq!(
        g.tick(&sp, &at(1.0, 0.7)),
        Law::Hold {
            target,
            heading_rad: s(0.7)
        }
    );
}

#[test]
fn a_hull_without_sway_drifts_between_its_radii() {
    let mut g = Guidance::new(
        &config(),
        ActuationCapability {
            sway_authority: false,
            yaw_authority_at_rest: true,
        },
    );
    let target = origin();
    let sp = Setpoint::StationKeep { position: target };
    let approach = Law::Approach { target };
    for (dist, law) in [
        (40.0, approach),
        (4.0, approach),
        (3.9, Law::Rest),
        (9.0, Law::Rest),
        (10.0, Law::Rest),
        (10.1, approach),
        (5.0, approach),
        (2.0, Law::Rest),
    ] {
        assert_eq!(g.tick(&sp, &at(dist, 0.0)), law, "at {dist} m");
    }
    // A new point starts over.
    let elsewhere = GeoPoint {
        lat_rad: s(1.0),
        lon_rad: s(0.2),
    };
    let moved = Setpoint::StationKeep {
        position: elsewhere,
    };
    assert_eq!(
        g.tick(&moved, &at(8.0, 0.0)),
        Law::Approach { target: elsewhere }
    );
}

#[test]
fn control_constants_spell_their_values() {
    assert_eq!(f64::from_bits(MAX_SURGE_N_BITS), 200.0);
    assert_eq!(f64::from_bits(MAX_SWAY_N_BITS), 200.0);
    assert_eq!(f64::from_bits(MAX_YAW_NM_BITS), 150.0);
    assert_eq!(f64::from_bits(ACCEPT_RADIUS_M_BITS), 5.0);
    assert_eq!(f64::from_bits(NEAR_ZONE_M_BITS), 5.0);
    assert_eq!(f64::from_bits(DRIFT_RADIUS_M_BITS), 4.0);
    assert_eq!(f64::from_bits(REAPPROACH_RADIUS_M_BITS), 10.0);
    assert_eq!(f64::from_bits(AXIS_EPS_BITS), 1e-9);
}

// ------------------------------------------------------------- closed loop

#[test]
fn heading_step_at_speed() {
    let mut bench = Bench::new();
    bench.hull.nu[0] = 1.0;
    let target = 90_f64.to_radians();
    let sp = Setpoint::HeadingSpeed {
        heading_rad: s(target),
        speed_mps: s(1.0),
    };
    let mut errors = Vec::new();
    let mut max_psi = f64::MIN;
    for i in 0..500 {
        let (st, _) = bench.tick(&sp);
        max_psi = max_psi.max(st.heading);
        errors.push((f64::from(i) * TICK_S, wrap_pi(target - st.heading)));
    }
    let band = 2_f64.to_radians();
    let settle = settle_time(&errors, band).expect("never settled");
    let overshoot = (max_psi - target).max(0.0) / target;
    assert!(settle <= 30.0, "settle {settle:.1} s");
    assert!(overshoot < 0.3, "overshoot {overshoot:.3}");
    // No sustained oscillation: the last 20 s stay within the band.
    for &(t, err) in &errors {
        if t >= 30.0 {
            assert!(
                err.abs() <= band,
                "err {:.2} deg at t {t:.1}",
                err.to_degrees()
            );
        }
    }
}

#[test]
fn speed_step() {
    let mut bench = Bench::new();
    let target = 1.5;
    let sp = Setpoint::HeadingSpeed {
        heading_rad: s(0.0),
        speed_mps: s(target),
    };
    let mut errors = Vec::new();
    for i in 0..600 {
        let (st, _) = bench.tick(&sp);
        errors.push((f64::from(i) * TICK_S, target - st.u));
    }
    let settle = settle_time(&errors, 0.1).expect("never settled");
    assert!(settle <= 30.0, "settle {settle:.1} s");
    for &(t, err) in &errors {
        if t >= 30.0 {
            assert!(err.abs() <= 0.1, "err {err:.3} m/s at t {t:.1}");
        }
    }
}

#[test]
fn station_keep_from_thirty_meters() {
    let mut bench = Bench::new();
    let target_local = (30.0, 0.0);
    let sp = Setpoint::StationKeep {
        position: bench.frame.to_geo(target_local.0, target_local.1),
    };
    let mut dists = Vec::new();
    for i in 0..3000 {
        let (st, _) = bench.tick(&sp);
        dists.push((
            f64::from(i) * TICK_S,
            distance(bench.frame, &st, target_local),
        ));
    }
    // Within 3 m and staying there.
    let capture = settle_time(&dists, 3.0).expect("never captured");
    assert!(capture <= 180.0, "capture {capture:.1} s");
    for &(t, d) in &dists {
        if t >= 180.0 {
            assert!(d <= 3.0, "dist {d:.2} m at t {t:.1}");
        }
    }
}

/// Distance from a point to the segment a-b.
fn dist_to_segment(p: (f64, f64), a: (f64, f64), b: (f64, f64)) -> f64 {
    let (dn, de) = (b.0 - a.0, b.1 - a.1);
    let len2 = dn * dn + de * de;
    let t = if len2 > 0.0 {
        (((p.0 - a.0) * dn + (p.1 - a.1) * de) / len2).clamp(0.0, 1.0)
    } else {
        0.0
    };
    libm::hypot(p.0 - (a.0 + t * dn), p.1 - (a.1 + t * de))
}

#[test]
fn a_path_asks_for_one_law_in_each_case() {
    let points: Vec<GeoPoint> = [0.0, 50.0, 90.0]
        .iter()
        .map(|n| LocalFrame::new(origin()).to_geo(*n, 0.0))
        .collect();
    let leg = |dist: f64, progress: f64| Leg {
        endpoint_dist_m: s(dist),
        progress: s(progress),
        length_sq: s(1600.0),
    };
    let law = |path: &[GeoPoint], legs: &[Leg]| {
        let setpoint = Setpoint::FollowPath {
            path: BoundedList::from_slice(path).unwrap(),
            speed_mps: s(1.0),
        };
        let geometry = Geometry {
            heading_rad: s(0.3),
            hold_dist_m: s(20.0),
            legs,
        };
        Guidance::new(&config(), ActuationCapability::full()).tick(&setpoint, &geometry)
    };
    let track = |k: usize| Law::Track {
        from: points[k],
        to: points[k + 1],
        speed_mps: s(1.0),
    };
    let ahead = leg(30.0, 0.0);
    let reached = leg(5.0, 0.0);
    let passed = leg(30.0, 1600.0);
    assert_eq!(law(&[], &[]), Law::Rest);
    assert_eq!(law(&points[1..2], &[]), Law::Approach { target: points[1] });
    assert_eq!(law(&points, &[ahead, reached]), track(0));
    assert_eq!(law(&points, &[reached, ahead]), track(1));
    assert_eq!(
        law(&points, &[reached, passed]),
        Law::Approach { target: points[2] }
    );
}

#[test]
fn follow_path_dogleg() {
    let mut bench = Bench::new();
    let wps = [(0.0, 0.0), (100.0, 0.0), (100.0, 100.0), (200.0, 100.0)];
    let geo: Vec<GeoPoint> = wps
        .iter()
        .map(|&(n, e)| bench.frame.to_geo(n, e))
        .collect();
    let sp = Setpoint::FollowPath {
        path: BoundedList::from_slice(&geo).unwrap(),
        speed_mps: s(1.5),
    };
    let total_s = 400.0;
    let mut first_reach = [None::<f64>; 4];
    let mut max_xte: f64 = 0.0;
    let mut end_ok = true;
    for i in 0..4000 {
        let t = f64::from(i) * TICK_S;
        let (st, _) = bench.tick(&sp);
        let p = bench.frame.to_local(st.position);
        for (k, &wp) in wps.iter().enumerate() {
            if libm::hypot(p.0 - wp.0, p.1 - wp.1) <= 5.0 && first_reach[k].is_none() {
                first_reach[k] = Some(t);
            }
        }
        let xte = wps
            .windows(2)
            .map(|w| dist_to_segment(p, w[0], w[1]))
            .fold(f64::MAX, f64::min);
        max_xte = max_xte.max(xte);
        if t >= total_s - 30.0 {
            end_ok &= libm::hypot(p.0 - wps[3].0, p.1 - wps[3].1) <= 5.0;
        }
    }
    assert!(max_xte < 5.0, "max cross-track {max_xte:.2} m");
    let mut prev = -1.0;
    for (k, r) in first_reach.iter().enumerate() {
        let t = r.unwrap_or_else(|| panic!("waypoint {k} never reached"));
        assert!(t > prev, "waypoint {k} reached out of order");
        prev = t;
    }
    assert!(end_ok, "did not hold within 5 m of the final waypoint");
}

#[test]
fn determinism() {
    let run = || {
        let mut bench = Bench::new();
        let wps = [(0.0, 0.0), (100.0, 0.0), (100.0, 100.0)];
        let geo: Vec<GeoPoint> = wps
            .iter()
            .map(|&(n, e)| bench.frame.to_geo(n, e))
            .collect();
        let sp = Setpoint::FollowPath {
            path: BoundedList::from_slice(&geo).unwrap(),
            speed_mps: s(1.5),
        };
        (0..1000).map(|_| bench.tick(&sp).1).collect::<Vec<_>>()
    };
    assert_eq!(run(), run());
}

const DRIFT_RADIUS_M: f64 = 4.0;
const REAPPROACH_RADIUS_M: f64 = 10.0;

#[test]
fn underactuated_station_keep_drifts_then_reapproaches_after_displacement() {
    let mut bench = UnderactuatedBench::new();
    let target_local = (40.0, 0.0);
    let sp = Setpoint::StationKeep {
        position: bench.frame.to_geo(target_local.0, target_local.1),
    };

    // Phase 1: transit from 40 m out, enter the drift radius, go quiet.
    let mut entered_drift = false;
    for i in 0..3000 {
        let (st, demand) = bench.tick(&sp);
        let dist = distance(bench.frame, &st, target_local);
        if dist < DRIFT_RADIUS_M {
            entered_drift = true;
        }
        if entered_drift {
            assert_eq!(
                demand,
                ForceDemand::zero(),
                "tick {i}: dist {dist:.2} m, demand {demand:?}"
            );
        }
        assert!(
            dist <= REAPPROACH_RADIUS_M || demand != ForceDemand::zero(),
            "tick {i}: idled outside the reapproach radius, dist {dist:.2} m"
        );
    }
    assert!(
        entered_drift,
        "never entered the drift radius from 40 m out"
    );

    // Phase 2: bump the vessel 15 m off the drift point, and confirm it
    // reapproaches and goes quiet again.
    bench.hull.n += 15.0;
    let mut redisplaced_drift = false;
    for i in 0..3000 {
        let (st, demand) = bench.tick(&sp);
        let dist = distance(bench.frame, &st, target_local);
        if dist < DRIFT_RADIUS_M {
            redisplaced_drift = true;
        }
        if redisplaced_drift {
            assert_eq!(
                demand,
                ForceDemand::zero(),
                "post-displacement tick {i}: dist {dist:.2} m, demand {demand:?}"
            );
        }
        assert!(
            dist <= REAPPROACH_RADIUS_M || demand != ForceDemand::zero(),
            "post-displacement tick {i}: idled outside the reapproach radius, dist {dist:.2} m"
        );
    }
    assert!(
        redisplaced_drift,
        "never re-entered the drift radius after displacement"
    );
}

#[test]
fn underactuated_claimant_lost_latches_and_holds() {
    let mut bench = UnderactuatedBench::new();
    let transit_sp = Setpoint::HeadingSpeed {
        heading_rad: s(0.0),
        speed_mps: s(1.2),
    };
    for _ in 0..150 {
        bench.tick(&transit_sp);
    }
    let latch = bench.hull.truth();
    let latch_local = bench.frame.to_local(latch.position);
    let hold_sp = Setpoint::StationKeep {
        position: latch.position,
    };

    let mut settled = false;
    let mut max_excursion_after_settle = 0.0_f64;
    for _ in 0..3000 {
        let (st, _) = bench.tick(&hold_sp);
        let dist = distance(bench.frame, &st, latch_local);
        if dist < DRIFT_RADIUS_M {
            settled = true;
        }
        if settled {
            max_excursion_after_settle = max_excursion_after_settle.max(dist);
        }
    }
    assert!(
        settled,
        "never came to rest inside the drift radius after claimant loss"
    );
    assert!(
        max_excursion_after_settle <= 9.0,
        "excursion {max_excursion_after_settle:.2} m past the latch point"
    );
}
