use std::f64::consts::{FRAC_PI_2, PI, TAU};

use coxswain::contract::{
    ActuatorCommand, BoundedList, ConnGrantDefault, Duration, EstimatorConfig, EstimatorHealth,
    ForceDemand, Fossen3DofParams, GeoPoint, GeofenceAction, GeofenceConfig, GnssFixMode,
    HealthLevel, License, Measurement, MeasurementKind, ModelParams, SensorConfig, SensorId,
    SensorRole, SupervisorConfig, Timestamp, VesselConfig,
};
use coxswain::estimator::intake::INFINITY_BITS;
use coxswain::estimator::screen::{FRAC_PI_2_BITS, LEAST_SCALE_BITS, PI_BITS, TAU_BITS};
use coxswain::estimator::{
    below_speed_floor, cog_min_speed, symmetry_scale, Ekf, Estimator, Figures, Moment,
    ProcessModel, Rejection, Step, Update,
};
use coxswain::scalar::Scalar;

const GNSS: SensorId = SensorId(1);
const COMPASS: SensorId = SensorId(2);
const GYRO: SensorId = SensorId(3);
const ENRICHMENT_COMPASS: SensorId = SensorId(4);

fn s(x: f64) -> Scalar {
    Scalar::from_bits(x.to_bits())
}

fn f(x: Scalar) -> f64 {
    f64::from_bits(x.to_bits())
}

fn sensor(id: SensorId, role: SensorRole, license: License) -> SensorConfig {
    SensorConfig {
        id,
        role,
        license,
        max_age: Duration::from_secs(2),
        lever_arm_m: [s(0.0); 2],
    }
}

fn config() -> VesselConfig {
    VesselConfig {
        sensors: BoundedList::from_slice(&[
            sensor(GNSS, SensorRole::Gnss, License::InnerLoop),
            sensor(COMPASS, SensorRole::Heading, License::InnerLoop),
            sensor(GYRO, SensorRole::Imu, License::InnerLoop),
            sensor(ENRICHMENT_COMPASS, SensorRole::Heading, License::Enrichment),
        ])
        .unwrap(),
        estimator: EstimatorConfig {
            model: ModelParams::Fossen3Dof(Fossen3DofParams {
                mass_kg: s(210.0),
                izz_kg_m2: s(95.0),
                x_udot: s(-18.0),
                y_vdot: s(-140.0),
                n_rdot: s(-80.0),
                x_u: s(-35.0),
                y_v: s(-220.0),
                n_r: s(-110.0),
            }),
            gnss: BoundedList::from_slice(&[GNSS]).unwrap(),
            imu: BoundedList::from_slice(&[GYRO]).unwrap(),
            heading: BoundedList::from_slice(&[COMPASS, ENRICHMENT_COMPASS]).unwrap(),
        },
        supervisor: SupervisorConfig {
            claimant_heartbeat: Duration::from_secs(1),
            conn_grant_default: ConnGrantDefault::Nobody,
            position_degraded_after: Duration::from_secs(3),
            low_voltage_v: s(12.4),
            critical_voltage_v: s(11.8),
            power_stale_after: Duration::from_secs(3),
            geofence: GeofenceConfig {
                enabled: false,
                action: GeofenceAction::Hold,
                ring: BoundedList::new(),
            },
            claimant_priorities: BoundedList::new(),
        },
        effectors: BoundedList::new(),
    }
}

fn ts(secs: f64) -> Timestamp {
    Timestamp::from_nanos((secs * 1e9) as u64)
}

fn gnss_at(t: f64) -> Measurement {
    Measurement {
        sensor: GNSS,
        t: ts(t),
        kind: MeasurementKind::GnssPosition {
            position: GeoPoint {
                lat_rad: s(1.0066),
                lon_rad: s(0.2068),
            },
            std_m: s(2.0),
        },
    }
}

fn heading_at(t: f64, sensor: SensorId) -> Measurement {
    Measurement {
        sensor,
        t: ts(t),
        kind: MeasurementKind::Heading {
            heading_rad: s(0.7),
            std_rad: s(0.02),
        },
    }
}

fn yaw_rate_at(t: f64, sensor: SensorId) -> Measurement {
    Measurement {
        sensor,
        t: ts(t),
        kind: MeasurementKind::YawRate {
            yaw_rate_radps: s(0.05),
            std_radps: s(0.01),
        },
    }
}

fn sog_at(t: f64, sensor: SensorId) -> Measurement {
    Measurement {
        sensor,
        t: ts(t),
        kind: MeasurementKind::SpeedOverGround {
            sog_mps: s(2.5),
            std_mps: s(0.2),
        },
    }
}

fn cog_at(t: f64, sensor: SensorId) -> Measurement {
    Measurement {
        sensor,
        t: ts(t),
        kind: MeasurementKind::CourseOverGround {
            cog_rad: s(0.75),
            std_rad: s(0.05),
        },
    }
}

fn gnss_cov_at(t: f64, fix: GnssFixMode) -> Measurement {
    Measurement {
        sensor: GNSS,
        t: ts(t),
        kind: MeasurementKind::GnssPositionCov {
            position: GeoPoint {
                lat_rad: s(1.0066),
                lon_rad: s(0.2068),
            },
            cov_ne_m2: [[s(0.01), s(0.0)], [s(0.0), s(0.01)]],
            fix,
        },
    }
}

/// A filter of diagonal covariance, standing still.
fn quiet_filter() -> Ekf {
    let mut p = [[s(0.0); 6]; 6];
    for (i, row) in p.iter_mut().enumerate() {
        row[i] = s(1.0);
    }
    Ekf {
        x: [s(0.0); 6],
        p,
    }
}

/// The numeric side: a body velocity and a filter, both settable.
struct Host {
    est: Estimator,
    ekf: Ekf,
    velocity: (f64, f64),
    yaw_rate: f64,
    sensors: Vec<SensorConfig>,
}

impl Host {
    fn new(config: &VesselConfig) -> Host {
        let accepted = match &config.estimator.model {
            ModelParams::ConstantVelocity => true,
            ModelParams::Fossen3Dof(p) => {
                f(p.mass_kg) - f(p.x_udot) > 0.0
                    && f(p.mass_kg) - f(p.y_vdot) > 0.0
                    && f(p.izz_kg_m2) - f(p.n_rdot) > 0.0
            }
        };
        Host {
            est: Estimator::new(config, accepted),
            ekf: quiet_filter(),
            velocity: (0.0, 0.0),
            yaw_rate: 0.0,
            sensors: config.sensors.to_vec(),
        }
    }

    fn figures(&self, m: &Measurement) -> Figures {
        let c = match m.kind {
            MeasurementKind::GnssPositionCov { cov_ne_m2, .. } => cov_ne_m2,
            _ => [[s(0.0); 2]; 2],
        };
        let (nn, ne, en, ee) = (f(c[0][0]), f(c[0][1]), f(c[1][0]), f(c[1][1]));
        let arm = self
            .sensors
            .iter()
            .find(|c| c.id == m.sensor)
            .map_or((0.0, 0.0), |c| (f(c.lever_arm_m[0]), f(c.lever_arm_m[1])));
        let ua = self.velocity.0 - self.yaw_rate * arm.1;
        let va = self.velocity.1 + self.yaw_rate * arm.0;
        Figures {
            antenna_speed_mps: s(libm::hypot(ua, va)),
            off_diagonal_gap: s((ne - en).abs()),
            off_diagonal_tolerance: s(1e-6 * f(symmetry_scale(&c))),
            determinant: s(nn * ee - ne * en),
            isotropic_std_m: s(libm::sqrt((nn + ee) / 2.0)),
        }
    }

    fn handle(&mut self, m: &Measurement) -> Result<Step, Rejection> {
        let figures = self.figures(m);
        self.est.handle(m, &figures)
    }

    fn state(&self, now: Timestamp) -> Option<Moment> {
        self.est.state(now)
    }

    fn health(&self, now: Timestamp) -> EstimatorHealth {
        let p = &self.ekf.p;
        self.est.health(
            now,
            &self.ekf,
            s(libm::sqrt(f(p[0][0]) + f(p[1][1]))),
            s(libm::sqrt(f(p[2][2]))),
        )
    }
}

fn initialized() -> Host {
    let mut est = Host::new(&config());
    assert_eq!(est.handle(&gnss_at(1.0)), Ok(Step::Hold));
    assert_eq!(
        est.handle(&heading_at(1.2, COMPASS)),
        Ok(Step::Start {
            pos_std_m: s(2.0),
            heading_rad: s(0.7),
            heading_std_rad: s(0.02),
        })
    );
    est
}

#[test]
fn uninitialized_reports_fault_and_no_state() {
    let mut est = Host::new(&config());
    assert!(est.state(ts(0.0)).is_none());
    assert_eq!(est.health(ts(0.0)).level, HealthLevel::Fault);
    assert_eq!(f(est.health(ts(0.0)).position_std_m), f64::INFINITY);
    // One of the two init roles is not enough.
    est.handle(&gnss_at(1.0)).unwrap();
    assert!(est.state(ts(1.0)).is_none());
    assert_eq!(est.health(ts(1.0)).level, HealthLevel::Fault);
}

#[test]
fn licensing_rejects_enrichment_and_unknown() {
    let mut est = initialized();
    let before = est.state(ts(2.0)).unwrap();

    assert_eq!(
        est.handle(&heading_at(1.5, ENRICHMENT_COMPASS)),
        Err(Rejection::NotLicensed)
    );
    // Absent from every fusion list.
    assert_eq!(
        est.handle(&heading_at(1.5, SensorId(9))),
        Err(Rejection::UnknownSensor)
    );
    // Wrong list for the measurement kind: the compass may not deliver
    // position fixes.
    let mut fix = gnss_at(1.5);
    fix.sensor = COMPASS;
    assert_eq!(est.handle(&fix), Err(Rejection::UnknownSensor));

    assert_eq!(est.state(ts(2.0)).unwrap(), before);
}

#[test]
fn listed_sensor_without_an_entry_is_unknown() {
    let mut cfg = config();
    cfg.estimator.gnss.push(SensorId(8)).unwrap();
    let mut est = Host::new(&cfg);
    let mut fix = gnss_at(1.0);
    fix.sensor = SensorId(8);
    assert_eq!(est.handle(&fix), Err(Rejection::UnknownSensor));
}

#[test]
fn bad_model_params_fall_back_to_constant_velocity() {
    let mut cfg = config();
    if let ModelParams::Fossen3Dof(ref mut p) = cfg.estimator.model {
        p.mass_kg = s(-300.0); // non-positive inertia
    }
    let mut est = Host::new(&cfg);
    assert_eq!(est.est.process_model(), ProcessModel::ConstantVelocity);
    est.handle(&gnss_at(1.0)).unwrap();
    est.handle(&heading_at(1.2, COMPASS)).unwrap();
    assert!(est.state(ts(2.0)).is_some());

    let good = Host::new(&config());
    assert!(matches!(
        good.est.process_model(),
        ProcessModel::Hydrodynamic(_)
    ));
}

#[test]
fn nan_state_reports_fault_health() {
    let mut est = initialized();
    est.ekf.x[2] = s(f64::NAN);
    assert_eq!(est.health(ts(1.4)).level, HealthLevel::Fault);
}

#[test]
fn non_finite_heading_is_rejected_and_leaves_filter_unchanged() {
    let baseline = initialized();

    let mut with_nan = initialized();
    let mut bad = heading_at(1.3, COMPASS);
    if let MeasurementKind::Heading { heading_rad, .. } = &mut bad.kind {
        *heading_rad = s(f64::NAN);
    }
    assert_eq!(with_nan.handle(&bad), Err(Rejection::NonFinite));

    assert_eq!(with_nan.state(ts(2.0)), baseline.state(ts(2.0)));
    assert_eq!(with_nan.health(ts(2.0)), baseline.health(ts(2.0)));
}

#[test]
fn infinite_gnss_latitude_is_rejected() {
    let mut est = initialized();
    let mut bad = gnss_at(1.3);
    if let MeasurementKind::GnssPosition { position, .. } = &mut bad.kind {
        position.lat_rad = s(f64::INFINITY);
    }
    assert_eq!(est.handle(&bad), Err(Rejection::NonFinite));
}

#[test]
fn non_finite_declared_std_is_rejected() {
    let mut est = initialized();
    let mut bad = heading_at(1.3, COMPASS);
    if let MeasurementKind::Heading { std_rad, .. } = &mut bad.kind {
        *std_rad = s(f64::NAN);
    }
    assert_eq!(est.handle(&bad), Err(Rejection::NonFinite));
}

#[test]
fn out_of_range_gnss_latitude_is_rejected() {
    let mut est = initialized();
    let mut bad = gnss_at(1.3);
    if let MeasurementKind::GnssPosition { position, .. } = &mut bad.kind {
        position.lat_rad = s(FRAC_PI_2 + 0.01);
    }
    assert_eq!(est.handle(&bad), Err(Rejection::OutOfRange));
}

#[test]
fn out_of_range_gnss_longitude_is_rejected() {
    let mut est = initialized();
    let mut bad = gnss_at(1.3);
    if let MeasurementKind::GnssPosition { position, .. } = &mut bad.kind {
        position.lon_rad = s(PI + 0.01);
    }
    assert_eq!(est.handle(&bad), Err(Rejection::OutOfRange));
}

#[test]
fn gnss_latitude_at_the_bound_is_accepted() {
    let mut est = initialized();
    let mut boundary = gnss_at(1.3);
    if let MeasurementKind::GnssPosition { position, .. } = &mut boundary.kind {
        position.lat_rad = s(FRAC_PI_2);
    }
    assert!(matches!(est.handle(&boundary), Ok(Step::Fuse { .. })));
}

#[test]
fn zero_std_is_rejected_for_every_measurement_kind() {
    let mut est = initialized();

    let mut bad_gnss = gnss_at(1.3);
    if let MeasurementKind::GnssPosition { std_m, .. } = &mut bad_gnss.kind {
        *std_m = s(0.0);
    }
    assert_eq!(est.handle(&bad_gnss), Err(Rejection::InvalidStd));

    let mut bad_heading = heading_at(1.3, COMPASS);
    if let MeasurementKind::Heading { std_rad, .. } = &mut bad_heading.kind {
        *std_rad = s(0.0);
    }
    assert_eq!(est.handle(&bad_heading), Err(Rejection::InvalidStd));

    let mut bad_yaw = yaw_rate_at(1.3, GYRO);
    if let MeasurementKind::YawRate { std_radps, .. } = &mut bad_yaw.kind {
        *std_radps = s(0.0);
    }
    assert_eq!(est.handle(&bad_yaw), Err(Rejection::InvalidStd));
}

#[test]
fn negative_std_is_rejected() {
    let mut est = initialized();
    let mut bad = gnss_at(1.3);
    if let MeasurementKind::GnssPosition { std_m, .. } = &mut bad.kind {
        *std_m = s(-2.0);
    }
    assert_eq!(est.handle(&bad), Err(Rejection::InvalidStd));
}

#[test]
fn out_of_range_and_invalid_std_leave_filter_unchanged() {
    let baseline = initialized();

    let mut with_bad_range = initialized();
    let mut bad_range = gnss_at(1.3);
    if let MeasurementKind::GnssPosition { position, .. } = &mut bad_range.kind {
        position.lat_rad = s(FRAC_PI_2 + 0.01);
    }
    assert_eq!(
        with_bad_range.handle(&bad_range),
        Err(Rejection::OutOfRange)
    );
    assert_eq!(with_bad_range.state(ts(2.0)), baseline.state(ts(2.0)));
    assert_eq!(with_bad_range.health(ts(2.0)), baseline.health(ts(2.0)));

    let mut with_bad_std = initialized();
    let mut bad_std = heading_at(1.3, COMPASS);
    if let MeasurementKind::Heading { std_rad, .. } = &mut bad_std.kind {
        *std_rad = s(0.0);
    }
    assert_eq!(with_bad_std.handle(&bad_std), Err(Rejection::InvalidStd));
    assert_eq!(with_bad_std.state(ts(2.0)), baseline.state(ts(2.0)));
    assert_eq!(with_bad_std.health(ts(2.0)), baseline.health(ts(2.0)));
}

#[test]
fn out_of_order_is_rejected() {
    let mut est = initialized();
    assert_eq!(
        est.handle(&heading_at(1.1, COMPASS)),
        Err(Rejection::OutOfOrder)
    );
    // Equal timestamps are fine (dt = 0 predict).
    assert_eq!(
        est.handle(&heading_at(1.2, COMPASS)),
        Ok(Step::Fuse {
            span: Duration::zero(),
            update: Update::Heading {
                heading_rad: s(0.7),
                std_rad: s(0.02),
            },
        })
    );
}

#[test]
fn sog_and_cog_fuse_via_the_gnss_license() {
    let mut est = initialized();
    est.velocity = (2.0, 0.0);
    assert_eq!(
        est.handle(&sog_at(1.3, GNSS)),
        Ok(Step::Fuse {
            span: ts(1.3).saturating_duration_since(ts(1.2)),
            update: Update::SpeedOverGround {
                sog_mps: s(2.5),
                std_mps: s(0.2),
                lever_arm_m: [s(0.0); 2],
            },
        })
    );
    assert_eq!(
        est.handle(&cog_at(1.4, GNSS)),
        Ok(Step::Fuse {
            span: ts(1.4).saturating_duration_since(ts(1.3)),
            update: Update::CourseOverGround {
                cog_rad: s(0.75),
                std_rad: s(0.05),
                lever_arm_m: [s(0.0); 2],
            },
        })
    );
}

#[test]
fn sog_and_cog_refused_from_a_sensor_outside_the_gnss_list() {
    let mut est = initialized();
    est.velocity = (2.0, 0.0);
    assert_eq!(
        est.handle(&sog_at(1.3, COMPASS)),
        Err(Rejection::UnknownSensor)
    );
    assert_eq!(
        est.handle(&cog_at(1.3, COMPASS)),
        Err(Rejection::UnknownSensor)
    );
}

#[test]
fn low_speed_sog_and_cog_are_rejected_and_leave_filter_unchanged() {
    let baseline = initialized();

    let mut est = initialized();
    assert_eq!(est.handle(&sog_at(1.3, GNSS)), Err(Rejection::LowSpeed));
    assert_eq!(est.state(ts(2.0)), baseline.state(ts(2.0)));
    assert_eq!(est.health(ts(2.0)), baseline.health(ts(2.0)));

    let mut est = initialized();
    assert_eq!(est.handle(&cog_at(1.3, GNSS)), Err(Rejection::LowSpeed));
    assert_eq!(est.state(ts(2.0)), baseline.state(ts(2.0)));
    assert_eq!(est.health(ts(2.0)), baseline.health(ts(2.0)));
}

#[test]
fn sog_and_cog_updates_are_no_ops_below_speed_floor() {
    let mut est = initialized();
    est.velocity = (f(cog_min_speed()) * 0.5, 0.0);
    let before = (est.state(ts(2.0)), est.health(ts(2.0)));

    let mut sog = sog_at(1.3, GNSS);
    if let MeasurementKind::SpeedOverGround { sog_mps, .. } = &mut sog.kind {
        *sog_mps = s(1.0);
    }
    assert_eq!(est.handle(&sog), Err(Rejection::LowSpeed));
    assert_eq!((est.state(ts(2.0)), est.health(ts(2.0))), before);

    let mut cog = cog_at(1.3, GNSS);
    if let MeasurementKind::CourseOverGround { cog_rad, .. } = &mut cog.kind {
        *cog_rad = s(0.5);
    }
    assert_eq!(est.handle(&cog), Err(Rejection::LowSpeed));
    assert_eq!((est.state(ts(2.0)), est.health(ts(2.0))), before);
}

/// A started estimator whose receiver sits at `arm`.
fn with_antenna_at(arm: [f64; 2]) -> Host {
    let mut cfg = config();
    let mut gnss = sensor(GNSS, SensorRole::Gnss, License::InnerLoop);
    gnss.lever_arm_m = [s(arm[0]), s(arm[1])];
    cfg.sensors = BoundedList::from_slice(&[gnss, cfg.sensors[1]]).unwrap();
    let mut est = Host::new(&cfg);
    est.handle(&gnss_at(1.0)).unwrap();
    est.handle(&heading_at(1.2, COMPASS)).unwrap();
    est
}

#[test]
fn sog_and_cog_speed_floor_judges_antenna_speed_not_reference_point_speed() {
    // The reference point stands still; the antenna moves at 0.3 * 3.0 = 0.9,
    // above the floor.
    let mut est = with_antenna_at([3.0, 0.0]);
    est.yaw_rate = 0.3;
    assert!(matches!(
        est.handle(&sog_at(1.3, GNSS)),
        Ok(Step::Fuse { .. })
    ));
    assert!(matches!(
        est.handle(&cog_at(1.3, GNSS)),
        Ok(Step::Fuse { .. })
    ));

    // The reference point moves at 0.6; omega x r cancels it at the antenna.
    let mut est = with_antenna_at([0.0, 3.0]);
    est.velocity = (0.6, 0.0);
    est.yaw_rate = 0.2;
    assert_eq!(est.handle(&sog_at(1.3, GNSS)), Err(Rejection::LowSpeed));
    assert_eq!(est.handle(&cog_at(1.3, GNSS)), Err(Rejection::LowSpeed));
}

#[test]
fn speed_floor_is_half_a_meter_per_second() {
    assert_eq!(f(cog_min_speed()), 0.5);
    assert!(below_speed_floor(s(0.499_999)));
    assert!(!below_speed_floor(s(0.5)));
    assert!(!below_speed_floor(s(f64::NAN)));
}

#[test]
fn negative_sog_is_out_of_range() {
    let mut est = initialized();
    est.velocity = (2.0, 0.0);
    let mut bad = sog_at(1.3, GNSS);
    if let MeasurementKind::SpeedOverGround { sog_mps, .. } = &mut bad.kind {
        *sog_mps = s(-0.1);
    }
    assert_eq!(est.handle(&bad), Err(Rejection::OutOfRange));
}

#[test]
fn cog_past_one_turn_is_out_of_range() {
    let mut est = initialized();
    est.velocity = (2.0, 0.0);
    let mut bad = cog_at(1.3, GNSS);
    if let MeasurementKind::CourseOverGround { cog_rad, .. } = &mut bad.kind {
        *cog_rad = s(2.0 * PI + 0.01);
    }
    assert_eq!(est.handle(&bad), Err(Rejection::OutOfRange));
}

#[test]
fn gnss_position_cov_fuses_and_tracks_fix_mode() {
    let mut est = initialized();
    assert_eq!(est.health(ts(1.3)).fix, None);

    assert!(matches!(
        est.handle(&gnss_cov_at(1.3, GnssFixMode::RtkFixed)),
        Ok(Step::Fuse {
            update: Update::PositionCov { .. },
            ..
        })
    ));
    assert_eq!(est.health(ts(1.3)).fix, Some(GnssFixMode::RtkFixed));

    assert!(matches!(
        est.handle(&gnss_at(1.4)),
        Ok(Step::Fuse {
            update: Update::Position { .. },
            ..
        })
    ));
    assert_eq!(est.health(ts(1.4)).fix, None);
}

#[test]
fn gnss_position_cov_rejects_bad_covariance() {
    let mut est = initialized();

    let mut asymmetric = gnss_cov_at(1.3, GnssFixMode::Autonomous);
    if let MeasurementKind::GnssPositionCov { cov_ne_m2, .. } = &mut asymmetric.kind {
        cov_ne_m2[0][1] = s(0.5);
        cov_ne_m2[1][0] = s(-0.5);
    }
    assert_eq!(est.handle(&asymmetric), Err(Rejection::InvalidStd));

    let mut non_pd = gnss_cov_at(1.3, GnssFixMode::Autonomous);
    if let MeasurementKind::GnssPositionCov { cov_ne_m2, .. } = &mut non_pd.kind {
        *cov_ne_m2 = [[s(1.0), s(0.0)], [s(0.0), s(-1.0)]];
    }
    assert_eq!(est.handle(&non_pd), Err(Rejection::InvalidStd));
}

#[test]
fn gnss_position_cov_seeds_initialization() {
    let mut est = Host::new(&config());
    assert!(est.state(ts(1.0)).is_none());
    est.handle(&gnss_cov_at(1.0, GnssFixMode::RtkFloat))
        .unwrap();
    let started = est.handle(&heading_at(1.2, COMPASS)).unwrap();
    assert!(matches!(started, Step::Start { pos_std_m, .. } if f(pos_std_m) == 0.1));
    assert!(est.state(ts(1.2)).is_some());
    assert_eq!(est.health(ts(1.2)).fix, Some(GnssFixMode::RtkFloat));
}

#[test]
fn is_finite_flags_nan_state_and_covariance() {
    let mut ekf = quiet_filter();
    assert!(ekf.is_finite());

    ekf.x[5] = s(f64::NAN);
    assert!(!ekf.is_finite());

    let mut ekf2 = quiet_filter();
    ekf2.p[4][4] = s(f64::INFINITY);
    assert!(!ekf2.is_finite());
}

#[test]
fn vessel_state_reads_the_filter() {
    let mut ekf = quiet_filter();
    for (i, x) in ekf.x.iter_mut().enumerate() {
        *x = s(i as f64 + 0.5);
    }
    let position = GeoPoint {
        lat_rad: s(1.0),
        lon_rad: s(0.25),
    };
    let state = ekf.vessel_state(ts(3.0), position);
    assert_eq!(state.t, ts(3.0));
    assert_eq!(state.pose.position, position);
    assert_eq!(f(state.pose.heading_rad), 2.5);
    assert_eq!(f(state.velocity.surge_mps), 3.5);
    assert_eq!(f(state.velocity.sway_mps), 4.5);
    assert_eq!(f(state.velocity.yaw_rate_radps), 5.5);
    assert_eq!(state.covariance, ekf.p);
}

#[test]
fn a_role_goes_stale_past_its_smallest_licensed_age() {
    let mut cfg = config();
    let mut quick = sensor(SensorId(7), SensorRole::Heading, License::InnerLoop);
    quick.max_age = Duration::from_millis(500);
    cfg.sensors.push(quick).unwrap();
    cfg.estimator.heading.push(SensorId(7)).unwrap();
    let mut est = Host::new(&cfg);
    est.handle(&gnss_at(1.0)).unwrap();
    est.handle(&heading_at(1.2, COMPASS)).unwrap();
    est.handle(&yaw_rate_at(1.2, GYRO)).unwrap();

    let fresh = est.health(ts(1.7));
    assert_eq!(fresh.level, HealthLevel::Nominal);
    // The unlicensed compass has no say; the quick one does.
    let late = est.health(ts(1.8));
    assert!(late.heading_stale && !late.gnss_stale && !late.yaw_rate_stale);
    assert_eq!(late.level, HealthLevel::Degraded);
    // A query behind the last measurement is not stale.
    assert!(!est.health(ts(0.5)).heading_stale);
}

#[test]
fn a_role_without_a_licensed_sensor_cannot_go_stale() {
    let mut cfg = config();
    cfg.estimator.imu = BoundedList::new();
    let est = Host::new(&cfg);
    let health = est.health(ts(100.0));
    assert!(!health.yaw_rate_stale);
    assert!(health.gnss_stale && health.heading_stale);
}

#[test]
fn a_query_cannot_rewind_the_filter() {
    let est = initialized();
    assert_eq!(
        est.state(ts(0.5)),
        Some(Moment {
            t: ts(1.2),
            span: Duration::zero(),
        })
    );
    assert_eq!(
        est.state(ts(2.2)),
        Some(Moment {
            t: ts(2.2),
            span: ts(2.2).saturating_duration_since(ts(1.2)),
        })
    );
}

#[test]
fn the_first_fix_and_heading_are_kept() {
    let mut est = Host::new(&config());
    est.handle(&heading_at(1.0, COMPASS)).unwrap();
    let mut other = heading_at(1.1, COMPASS);
    if let MeasurementKind::Heading { heading_rad, .. } = &mut other.kind {
        *heading_rad = s(2.0);
    }
    assert_eq!(est.handle(&other), Ok(Step::Hold));
    assert_eq!(est.handle(&yaw_rate_at(1.2, GYRO)), Ok(Step::Hold));
    // Before the filter runs there is no speed to judge against.
    assert_eq!(est.handle(&sog_at(1.2, GNSS)), Ok(Step::Hold));
    assert_eq!(est.est.frame_origin(), None);
    assert_eq!(
        est.handle(&gnss_at(1.3)),
        Ok(Step::Start {
            pos_std_m: s(2.0),
            heading_rad: s(0.7),
            heading_std_rad: s(0.02),
        })
    );
    let anchored = est.est.frame_origin();
    assert_eq!(f(anchored.unwrap().lat_rad), 1.0066);
    let mut far = gnss_at(1.4);
    if let MeasurementKind::GnssPosition { position, .. } = &mut far.kind {
        position.lat_rad = s(0.5);
    }
    est.handle(&far).unwrap();
    assert_eq!(est.est.frame_origin(), anchored);
}

#[test]
fn the_lever_arm_of_the_sensor_reaches_the_update() {
    let mut cfg = config();
    let mut gnss = sensor(GNSS, SensorRole::Gnss, License::InnerLoop);
    gnss.lever_arm_m = [s(1.5), s(-0.5)];
    cfg.sensors = BoundedList::from_slice(&[gnss, cfg.sensors[1]]).unwrap();
    let mut est = Host::new(&cfg);
    est.handle(&gnss_at(1.0)).unwrap();
    est.handle(&heading_at(1.2, COMPASS)).unwrap();
    let step = est.handle(&gnss_at(1.5)).unwrap();
    assert!(matches!(
        step,
        Step::Fuse {
            update: Update::Position { lever_arm_m, .. },
            ..
        } if lever_arm_m == [s(1.5), s(-0.5)]
    ));
}

#[test]
fn commands_set_the_demand() {
    let mut est = initialized();
    assert_eq!(est.est.demand(), ForceDemand::zero());
    let demand = ForceDemand {
        surge_n: s(20.0),
        sway_n: s(0.0),
        yaw_nm: s(-3.0),
    };
    est.est.command(&ActuatorCommand {
        t: ts(0.0),
        demand,
    });
    assert_eq!(est.est.demand(), demand);
}

#[test]
fn symmetry_is_judged_on_the_larger_off_diagonal() {
    let scale = |ne: f64, en: f64| f(symmetry_scale(&[[s(9.0), s(ne)], [s(en), s(9.0)]]));
    assert_eq!(scale(0.2, -0.3), 1.0);
    assert_eq!(scale(2.0, -3.0), 3.0);
    assert_eq!(scale(-4.0, 3.0), 4.0);
}

#[test]
fn bounds_spell_their_values() {
    assert_eq!(f64::from_bits(LEAST_SCALE_BITS), 1.0);
    assert_eq!(f64::from_bits(FRAC_PI_2_BITS), FRAC_PI_2);
    assert_eq!(f64::from_bits(PI_BITS), PI);
    assert_eq!(f64::from_bits(TAU_BITS), TAU);
    assert_eq!(f64::from_bits(INFINITY_BITS), f64::INFINITY);
}
