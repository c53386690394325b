use coxswain::contract::{BoundedList, ForceDemand};
use coxswain::crsf::{channel_to_us, Frame, LinkStatisticsFrame, RcChannelsFrame};
use coxswain::drivers::rc::{
    limit_effort, Config, Event, RcAdapter, Stick, MAX_EVENTS_PER_FRAME,
};
use coxswain::scalar::Scalar;

const RAW_LOW: u16 = 172;
const RAW_CENTER: u16 = 992;
const RAW_HIGH: u16 = 1811;

fn s(x: f64) -> Scalar {
    Scalar::from_bits(x.to_bits())
}

fn f(x: Scalar) -> f64 {
    f64::from_bits(x.to_bits())
}

fn config() -> Config {
    Config {
        kill_channel: 4,
        takeover_channel: 5,
        surge_channel: 2,
        yaw_channel: 3,
        switch_low_us: 1300,
        switch_high_us: 1700,
        stick_deadband_us: 12,
        max_surge_n: s(100.0),
        max_yaw_nm: s(50.0),
    }
}

fn frame(cfg: &Config, kill: u16, takeover: u16, surge: u16, yaw: u16) -> Frame {
    let mut channels = [RAW_CENTER; 16];
    channels[cfg.kill_channel] = kill;
    channels[cfg.takeover_channel] = takeover;
    channels[cfg.surge_channel] = surge;
    channels[cfg.yaw_channel] = yaw;
    Frame::RcChannels(RcChannelsFrame { channels })
}

fn product(stick: Stick, max: Scalar) -> Scalar {
    match stick {
        Stick::Centered => Scalar::zero(),
        Stick::Ahead { beyond, span } | Stick::Astern { beyond, span } => {
            s(f64::from(beyond) / f64::from(span) * f(max))
        }
    }
}

/// Reads the sticks, multiplies them out and hands the frame on.
fn process(
    adapter: &mut RcAdapter,
    cfg: &Config,
    frame: Frame,
) -> BoundedList<Event, MAX_EVENTS_PER_FRAME> {
    let (surge, yaw) = match adapter.sticks(&frame) {
        Some(sticks) => (
            product(sticks.surge, cfg.max_surge_n),
            product(sticks.yaw, cfg.max_yaw_nm),
        ),
        None => (Scalar::zero(), Scalar::zero()),
    };
    adapter.process(frame, surge, yaw)
}

fn effort(surge_n: f64, yaw_nm: f64) -> Event {
    Event::Effort(ForceDemand {
        surge_n: s(surge_n),
        sway_n: s(0.0),
        yaw_nm: s(yaw_nm),
    })
}

#[test]
fn rc_channel_to_us_reference_points() {
    assert_eq!(channel_to_us(RAW_LOW), 988);
    assert_eq!(channel_to_us(RAW_CENTER), 1500);
    assert_eq!(channel_to_us(RAW_HIGH), 2012);
}

#[test]
fn kill_engages_once_then_releases() {
    let cfg = config();
    let mut adapter = RcAdapter::new(cfg);

    let engaged = process(
        &mut adapter,
        &cfg,
        frame(&cfg, RAW_HIGH, RAW_LOW, RAW_CENTER, RAW_CENTER),
    );
    assert_eq!(engaged.as_slice(), &[Event::KillEngaged]);

    // Identical frame again: already engaged, no new event.
    let repeat = process(
        &mut adapter,
        &cfg,
        frame(&cfg, RAW_HIGH, RAW_LOW, RAW_CENTER, RAW_CENTER),
    );
    assert!(repeat.is_empty());

    let released = process(
        &mut adapter,
        &cfg,
        frame(&cfg, RAW_LOW, RAW_LOW, RAW_CENTER, RAW_CENTER),
    );
    assert_eq!(released.as_slice(), &[Event::KillReleased]);
}

#[test]
fn switch_hysteresis_holds_previous_reading_both_directions() {
    let cfg = config();
    let mut adapter = RcAdapter::new(cfg);

    // Dead zone before any engagement: previous is the false default.
    let mid = process(
        &mut adapter,
        &cfg,
        frame(&cfg, RAW_CENTER, RAW_LOW, RAW_CENTER, RAW_CENTER),
    );
    assert!(mid.is_empty());

    // Engage, then read the dead zone again: previous is now true.
    let engaged = process(
        &mut adapter,
        &cfg,
        frame(&cfg, RAW_HIGH, RAW_LOW, RAW_CENTER, RAW_CENTER),
    );
    assert_eq!(engaged.as_slice(), &[Event::KillEngaged]);
    let mid_again = process(
        &mut adapter,
        &cfg,
        frame(&cfg, RAW_CENTER, RAW_LOW, RAW_CENTER, RAW_CENTER),
    );
    assert!(mid_again.is_empty());
}

#[test]
fn takeover_engages_then_emits_effort_every_frame() {
    let cfg = config();
    let mut adapter = RcAdapter::new(cfg);

    let engaged = process(
        &mut adapter,
        &cfg,
        frame(&cfg, RAW_LOW, RAW_HIGH, RAW_CENTER, RAW_CENTER),
    );
    assert_eq!(
        engaged.as_slice(),
        &[Event::TakeoverEngaged, effort(0.0, 0.0)]
    );

    let still_on = process(
        &mut adapter,
        &cfg,
        frame(&cfg, RAW_LOW, RAW_HIGH, RAW_CENTER, RAW_CENTER),
    );
    assert_eq!(still_on.as_slice(), &[effort(0.0, 0.0)]);
}

#[test]
fn full_deflection_gives_configured_maxima() {
    let cfg = config();
    let mut adapter = RcAdapter::new(cfg);
    process(
        &mut adapter,
        &cfg,
        frame(&cfg, RAW_LOW, RAW_HIGH, RAW_CENTER, RAW_CENTER),
    );

    let high = process(
        &mut adapter,
        &cfg,
        frame(&cfg, RAW_LOW, RAW_HIGH, RAW_HIGH, RAW_HIGH),
    );
    assert_eq!(high.as_slice(), &[effort(100.0, 50.0)]);

    let low = process(
        &mut adapter,
        &cfg,
        frame(&cfg, RAW_LOW, RAW_HIGH, RAW_LOW, RAW_LOW),
    );
    assert_eq!(low.as_slice(), &[effort(-100.0, -50.0)]);
}

#[test]
fn deflection_past_deadband_edge_maps_linearly() {
    // raw 1200 -> 1630us; offset 130, beyond the deadband 118 of a span of
    // 500: fraction 0.236.
    let cfg = config();
    assert_eq!(channel_to_us(1200), 1630);
    let mut adapter = RcAdapter::new(cfg);
    process(
        &mut adapter,
        &cfg,
        frame(&cfg, RAW_LOW, RAW_HIGH, RAW_CENTER, RAW_CENTER),
    );

    let deflected = frame(&cfg, RAW_LOW, RAW_HIGH, 1200, 1200);
    assert_eq!(
        adapter.sticks(&deflected).unwrap().surge,
        Stick::Ahead {
            beyond: 118,
            span: 500
        }
    );
    let mid_deflection = process(&mut adapter, &cfg, deflected);
    let [Event::Effort(demand)] = mid_deflection.as_slice() else {
        panic!("expected exactly one Effort event, got {mid_deflection:?}");
    };
    assert!((f(demand.surge_n) - 23.6).abs() < 1e-9);
    assert_eq!(f(demand.sway_n), 0.0);
    assert!((f(demand.yaw_nm) - 11.8).abs() < 1e-9);
}

#[test]
fn kill_while_takeover_active_stops_effort_and_preserves_takeover() {
    let cfg = config();
    let mut adapter = RcAdapter::new(cfg);

    let engaged = process(
        &mut adapter,
        &cfg,
        frame(&cfg, RAW_LOW, RAW_HIGH, RAW_CENTER, RAW_CENTER),
    );
    assert_eq!(
        engaged.as_slice(),
        &[Event::TakeoverEngaged, effort(0.0, 0.0)]
    );

    // Kill engages mid-takeover: kill edge only, no Effort.
    let killed = process(
        &mut adapter,
        &cfg,
        frame(&cfg, RAW_HIGH, RAW_HIGH, RAW_CENTER, RAW_CENTER),
    );
    assert_eq!(killed.as_slice(), &[Event::KillEngaged]);

    // Kill still engaged, nothing changes: no events at all.
    let still_killed = process(
        &mut adapter,
        &cfg,
        frame(&cfg, RAW_HIGH, RAW_HIGH, RAW_CENTER, RAW_CENTER),
    );
    assert!(still_killed.is_empty());

    // Kill releases: Effort resumes, no new TakeoverEngaged edge.
    let released = process(
        &mut adapter,
        &cfg,
        frame(&cfg, RAW_LOW, RAW_HIGH, RAW_CENTER, RAW_CENTER),
    );
    assert_eq!(
        released.as_slice(),
        &[Event::KillReleased, effort(0.0, 0.0)]
    );
}

#[test]
fn link_statistics_frame_produces_no_events() {
    let cfg = config();
    let mut adapter = RcAdapter::new(cfg);
    let link = Frame::LinkStatistics(LinkStatisticsFrame {
        uplink_rssi_ant1: 0,
        uplink_rssi_ant2: 0,
        uplink_link_quality: 100,
        uplink_snr: 0,
        active_antenna: 0,
        rf_mode: 0,
        uplink_tx_power: 0,
        downlink_rssi: 0,
        downlink_link_quality: 0,
        downlink_snr: 0,
    });
    assert!(adapter.sticks(&link).is_none());
    assert!(process(&mut adapter, &cfg, link).is_empty());
}

#[test]
fn both_switches_can_change_in_one_frame() {
    let cfg = config();
    let mut adapter = RcAdapter::new(cfg);
    let on = frame(&cfg, RAW_HIGH, RAW_HIGH, RAW_CENTER, RAW_CENTER);
    assert_eq!(
        process(&mut adapter, &cfg, on).as_slice(),
        &[Event::KillEngaged, Event::TakeoverEngaged]
    );
    let off = frame(&cfg, RAW_LOW, RAW_LOW, RAW_CENTER, RAW_CENTER);
    assert_eq!(
        process(&mut adapter, &cfg, off).as_slice(),
        &[Event::KillReleased, Event::TakeoverReleased]
    );
}

#[test]
fn effort_is_held_to_the_maximum() {
    let ahead = Stick::Ahead {
        beyond: 600,
        span: 500,
    };
    let astern = Stick::Astern {
        beyond: -600,
        span: 500,
    };
    assert_eq!(f(limit_effort(ahead, s(120.0), s(100.0))), 100.0);
    assert_eq!(f(limit_effort(ahead, s(80.0), s(100.0))), 80.0);
    assert_eq!(f(limit_effort(astern, s(-120.0), s(100.0))), -100.0);
    assert_eq!(f(limit_effort(Stick::Centered, s(5.0), s(100.0))), 0.0);
    // A code point past the nominal end is held the same way.
    let cfg = config();
    let mut adapter = RcAdapter::new(cfg);
    let past = frame(&cfg, RAW_LOW, RAW_HIGH, 2047, 0);
    assert_eq!(
        process(&mut adapter, &cfg, past).as_slice(),
        &[Event::TakeoverEngaged, effort(100.0, -50.0)]
    );
}

#[test]
fn a_deadband_without_travel_gives_the_maximum() {
    // The deadband reaches the nominal end at 512 and passes it at 513.
    for deadband in [512, 513, 530] {
        let cfg = Config {
            stick_deadband_us: deadband,
            ..config()
        };
        let mut adapter = RcAdapter::new(cfg);
        let past = frame(&cfg, RAW_LOW, RAW_HIGH, 2047, 0);
        assert_eq!(
            process(&mut adapter, &cfg, past).as_slice(),
            &[Event::TakeoverEngaged, effort(100.0, -50.0)]
        );
        let nominal = frame(&cfg, RAW_LOW, RAW_HIGH, RAW_HIGH, RAW_LOW);
        assert_eq!(
            process(&mut adapter, &cfg, nominal).as_slice(),
            &[effort(0.0, 0.0)]
        );
    }
}

#[test]
fn no_product_takes_an_effort_past_the_maximum_either_way() {
    let ahead = Stick::Ahead {
        beyond: 100,
        span: 500,
    };
    let astern = Stick::Astern {
        beyond: -100,
        span: 500,
    };
    let wild = [f64::NEG_INFINITY, -14600.0, -3.0, 0.0, 3.0, 14600.0, f64::INFINITY, f64::NAN];
    for max in [0.0, 100.0, -100.0_f64] {
        for product in wild {
            for stick in [ahead, astern, Stick::Centered] {
                let e = f(limit_effort(stick, s(product), s(max)));
                assert!(e.abs() <= max.abs(), "{stick:?} {product} {max}: {e}");
            }
        }
    }
    assert_eq!(f(limit_effort(ahead, s(-14600.0), s(100.0))), -100.0);
    assert_eq!(f(limit_effort(astern, s(14600.0), s(100.0))), 100.0);
}

#[test]
fn sticks_are_read_only_once_an_effort_is_due() {
    let cfg = config();
    let mut adapter = RcAdapter::new(cfg);
    let quiet = frame(&cfg, RAW_LOW, RAW_LOW, RAW_CENTER, RAW_CENTER);
    let taken = frame(&cfg, RAW_LOW, RAW_HIGH, RAW_CENTER, RAW_CENTER);
    let between = frame(&cfg, RAW_LOW, RAW_CENTER, RAW_CENTER, RAW_CENTER);
    let killed = frame(&cfg, RAW_HIGH, RAW_HIGH, RAW_CENTER, RAW_CENTER);
    assert!(!adapter.reads_sticks(&quiet));
    assert!(!adapter.reads_sticks(&between));
    assert!(adapter.reads_sticks(&taken));
    process(&mut adapter, &cfg, taken);
    assert!(adapter.reads_sticks(&between));
    assert!(!adapter.reads_sticks(&killed));

    // A stick channel that does not exist does no harm until then.
    let astray = Config {
        surge_channel: 16,
        ..cfg
    };
    let mut adapter = RcAdapter::new(astray);
    let events = adapter.process(killed, Scalar::zero(), Scalar::zero());
    assert_eq!(
        events.as_slice(),
        &[Event::KillEngaged, Event::TakeoverEngaged]
    );
}
