use coxswain::contract::{Measurement, MeasurementKind, SensorId, Timestamp};
use coxswain::drivers::gnss0183::{
    AcceptFilter, Config, FaaMode, GgaSentence, Gnss0183Driver, GnssError, HdtSentence,
    MeasurementBatch, RmcSentence, RmcStatus, Sentence, SentenceError, SentenceKind, VtgSentence,
    COG_MIN_SPEED_MPS_BITS, SOG_STD_MPS_BITS,
};
use coxswain::drivers::Driver;
use coxswain::scalar::Scalar;

const DEG_TO_RAD: f64 = std::f64::consts::PI / 180.0;
const KNOTS_TO_MPS: f64 = 1852.0 / 3600.0;
const DEFAULT_UERE_M: f64 = 5.0;
const SOG_STD_MPS: f64 = 0.2;
const COG_MIN_SPEED_MPS: f64 = 0.5;

fn s(x: f64) -> Scalar {
    Scalar::from_bits(x.to_bits())
}

fn f(x: Scalar) -> f64 {
    f64::from_bits(x.to_bits())
}

fn config() -> Config {
    Config {
        position_sensor: SensorId(1),
        heading_sensor: SensorId(2),
        uere_m: s(DEFAULT_UERE_M),
        fallback_std_m: s(25.0),
        heading_std_rad: s(0.01),
        filter: AcceptFilter::default(),
    }
}

fn number(field: &str) -> Option<f64> {
    if field.is_empty() {
        None
    } else {
        Some(field.parse().unwrap())
    }
}

/// `ddmm.mmm` plus hemisphere, in degrees.
fn angle(field: &str, hemisphere: &str) -> Option<f64> {
    let raw = number(field)?;
    let degrees = (raw / 100.0).floor();
    let value = degrees + (raw - degrees * 100.0) / 60.0;
    Some(if hemisphere == "S" || hemisphere == "W" {
        -value
    } else {
        value
    })
}

fn mode(field: &str) -> FaaMode {
    match field {
        "A" => FaaMode::Autonomous,
        "D" => FaaMode::Differential,
        "E" => FaaMode::Estimated,
        "F" => FaaMode::FloatRtk,
        "R" => FaaMode::FixedRtk,
        "M" => FaaMode::Manual,
        "S" => FaaMode::Simulator,
        _ => FaaMode::NotValid,
    }
}

/// Just enough of a tokenizer for the sentences below: checksum, fields,
/// units.
fn tokenize(line: &[u8], uere_m: f64) -> Result<Sentence, SentenceError> {
    let text = std::str::from_utf8(line).unwrap();
    let (body, sum) = text[1..].split_once('*').unwrap();
    let fold = body.bytes().fold(0u8, |a, b| a ^ b);
    if fold != u8::from_str_radix(sum, 16).unwrap() {
        return Err(SentenceError::ChecksumMismatch);
    }
    let fields: Vec<&str> = body.split(',').collect();
    let talker = [body.as_bytes()[0], body.as_bytes()[1]];
    match &fields[0][2..] {
        "GGA" => Ok(Sentence::Gga(GgaSentence {
            talker,
            fix_quality: fields[6].parse().unwrap(),
            lat_rad: angle(fields[2], fields[3]).map(|d| s(d * DEG_TO_RAD)),
            lon_rad: angle(fields[4], fields[5]).map(|d| s(d * DEG_TO_RAD)),
            scaled_hdop_m: number(fields[8]).map(|h| s(h * uere_m)),
        })),
        "RMC" => {
            let sog_mps = number(fields[7]).map(|k| k * KNOTS_TO_MPS);
            Ok(Sentence::Rmc(RmcSentence {
                talker,
                status: if fields[2] == "A" {
                    RmcStatus::Valid
                } else {
                    RmcStatus::Warning
                },
                mode: fields.get(12).map(|m| mode(m)),
                sog_mps: sog_mps.map(s),
                cog_rad: number(fields[8]).map(|d| s(d * DEG_TO_RAD)),
                cog_std_rad: s(SOG_STD_MPS / sog_mps.unwrap_or(0.0).max(COG_MIN_SPEED_MPS)),
            }))
        }
        "HDT" => Ok(Sentence::Hdt(HdtSentence {
            talker,
            heading_rad: s(number(fields[1]).unwrap() * DEG_TO_RAD),
        })),
        "VTG" => Ok(Sentence::Vtg(VtgSentence { talker })),
        _ => Err(SentenceError::UnsupportedSentence),
    }
}

/// Every byte but the terminator is mid-sentence and yields `None`; returns
/// what the terminator produced.
fn feed(
    driver: &Gnss0183Driver,
    line: &[u8],
    acquired_at: Timestamp,
) -> Option<Result<MeasurementBatch, GnssError>> {
    for _ in line {
        assert_eq!(driver.push(None, acquired_at), None);
    }
    let framed = tokenize(line, f(driver.config.uere_m));
    driver.push(Some(framed), acquired_at)
}

const GGA_QUALITY_1: &[u8] = b"$GPGGA,123519,4807.038,N,01131.000,E,1,08,0.9,545.4,M,46.9,M,,*47";
const GGA_QUALITY_0_NO_FIX: &[u8] = b"$GPGGA,123519,,,,,0,00,,,M,,M,,*6B";
const GGA_QUALITY_6_ESTIMATED: &[u8] =
    b"$GPGGA,123519,4807.038,N,01131.000,E,6,08,0.9,545.4,M,46.9,M,,*40";
const GGA_QUALITY_4_RTK_FIXED: &[u8] =
    b"$GPGGA,123519,4807.038,N,01131.000,E,4,08,0.9,545.4,M,46.9,M,,*42";
const GGA_QUALITY_1_NO_HDOP: &[u8] =
    b"$GPGGA,123519,4807.038,N,01131.000,E,1,08,,545.4,M,46.9,M,,*60";
const GGA_GN_TALKER: &[u8] = b"$GNGGA,123519,4807.038,N,01131.000,E,1,08,0.9,545.4,M,46.9,M,,*59";
const HDT_TRUE_HEADING: &[u8] = b"$HEHDT,123.456,T*28";
const RMC_REFERENCE_FIX: &[u8] =
    b"$GPRMC,123519,A,4807.038,N,01131.000,E,022.4,084.4,230394,003.1,W*6A";
const RMC_LOW_SPEED: &[u8] =
    b"$GPRMC,123519,A,4807.038,N,01131.000,E,000.5,084.4,230394,003.1,W*6B";
const RMC_STATUS_WARNING: &[u8] =
    b"$GPRMC,123519,V,4807.038,N,01131.000,E,022.4,084.4,230394,003.1,W*7D";
const RMC_MODE_ESTIMATED: &[u8] =
    b"$GPRMC,123519,A,4807.038,N,01131.000,E,022.4,084.4,230394,003.1,W,E*03";
const RMC_MODE_FIXED_RTK: &[u8] =
    b"$GPRMC,123519,A,4807.038,N,01131.000,E,022.4,084.4,230394,003.1,W,R*14";
const RMC_NO_COG: &[u8] = b"$GPRMC,123519,A,4807.038,N,01131.000,E,022.4,,230394,003.1,W*4C";
const VTG_COURSE_AND_SPEED: &[u8] = b"$GPVTG,054.7,T,034.4,M,005.5,N,010.2,K*48";

#[test]
fn gga_quality_1_yields_position_scaled_by_hdop() {
    let driver = Gnss0183Driver::new(config());
    let t = Timestamp::from_nanos(1_000);
    let m = feed(&driver, GGA_QUALITY_1, t).unwrap().unwrap().first;
    assert_eq!(m.sensor, SensorId(1));
    assert_eq!(m.t, t);
    let MeasurementKind::GnssPosition { position, std_m } = m.kind else {
        panic!("expected GnssPosition, got {:?}", m.kind);
    };
    let expected_lat = (48.0 + 7.038 / 60.0) * DEG_TO_RAD;
    let expected_lon = (11.0 + 31.0 / 60.0) * DEG_TO_RAD;
    assert!((f(position.lat_rad) - expected_lat).abs() < 1e-9);
    assert!((f(position.lon_rad) - expected_lon).abs() < 1e-9);
    assert!((f(std_m) - 0.9 * DEFAULT_UERE_M).abs() < 1e-9);
}

#[test]
fn hdt_yields_heading_with_configured_std() {
    let driver = Gnss0183Driver::new(config());
    let t = Timestamp::from_nanos(2_000);
    let m = feed(&driver, HDT_TRUE_HEADING, t).unwrap().unwrap().first;
    assert_eq!(m.sensor, SensorId(2));
    assert_eq!(m.t, t);
    let MeasurementKind::Heading {
        heading_rad,
        std_rad,
    } = m.kind
    else {
        panic!("expected Heading, got {:?}", m.kind);
    };
    assert!((f(heading_rad) - 123.456_f64.to_radians()).abs() < 1e-9);
    assert_eq!(f(std_rad), 0.01);
}

#[test]
fn fix_quality_invalid_emits_nothing() {
    let driver = Gnss0183Driver::new(config());
    assert_eq!(
        feed(&driver, GGA_QUALITY_0_NO_FIX, Timestamp::from_nanos(0)),
        None
    );
}

#[test]
fn fix_quality_estimated_emits_nothing() {
    let driver = Gnss0183Driver::new(config());
    assert_eq!(
        feed(&driver, GGA_QUALITY_6_ESTIMATED, Timestamp::from_nanos(0)),
        None
    );
}

#[test]
fn fix_quality_rtk_fixed_emits() {
    let driver = Gnss0183Driver::new(config());
    let m = feed(&driver, GGA_QUALITY_4_RTK_FIXED, Timestamp::from_nanos(0))
        .unwrap()
        .unwrap()
        .first;
    assert!(matches!(m.kind, MeasurementKind::GnssPosition { .. }));
}

#[test]
fn missing_hdop_falls_back_to_configured_std() {
    let driver = Gnss0183Driver::new(config());
    let m = feed(&driver, GGA_QUALITY_1_NO_HDOP, Timestamp::from_nanos(0))
        .unwrap()
        .unwrap()
        .first;
    let MeasurementKind::GnssPosition { std_m, .. } = m.kind else {
        panic!("expected GnssPosition, got {:?}", m.kind);
    };
    assert_eq!(f(std_m), 25.0);
}

#[test]
fn talker_filter_drops_unlisted_talker_quietly() {
    let mut cfg = config();
    cfg.filter.talkers.push(*b"GP").unwrap();
    let driver = Gnss0183Driver::new(cfg);
    // GN is a real, legitimate talker but not in the accept list: dropped
    // quietly, not an error.
    assert_eq!(
        feed(&driver, GGA_GN_TALKER, Timestamp::from_nanos(0)),
        None
    );
    assert!(feed(&driver, GGA_QUALITY_1, Timestamp::from_nanos(0)).is_some());
}

#[test]
fn sentence_filter_drops_unlisted_sentence_quietly() {
    let mut cfg = config();
    cfg.filter.sentences.push(SentenceKind::Hdt).unwrap();
    let driver = Gnss0183Driver::new(cfg);
    // GGA is well-formed and would normally emit; the filter only accepts
    // HDT.
    assert_eq!(
        feed(&driver, GGA_QUALITY_1, Timestamp::from_nanos(0)),
        None
    );
}

#[test]
fn rmc_at_cruise_speed_yields_sog_and_cog() {
    let driver = Gnss0183Driver::new(config());
    let t = Timestamp::from_nanos(3_000);
    let batch = feed(&driver, RMC_REFERENCE_FIX, t).unwrap().unwrap();

    let MeasurementKind::SpeedOverGround { sog_mps, std_mps } = batch.first.kind else {
        panic!("expected SpeedOverGround, got {:?}", batch.first.kind);
    };
    assert_eq!(batch.first.sensor, SensorId(1));
    assert_eq!(batch.first.t, t);
    assert!((f(sog_mps) - 22.4 * KNOTS_TO_MPS).abs() < 1e-9);
    assert_eq!(f(std_mps), SOG_STD_MPS);

    let cog = batch.second.expect("expected a COG measurement too");
    let MeasurementKind::CourseOverGround { cog_rad, std_rad } = cog.kind else {
        panic!("expected CourseOverGround, got {:?}", cog.kind);
    };
    assert_eq!(cog.sensor, SensorId(1));
    assert_eq!(cog.t, t);
    assert!((f(cog_rad) - 84.4_f64.to_radians()).abs() < 1e-9);
    assert!((f(std_rad) - SOG_STD_MPS / f(sog_mps)).abs() < 1e-9);

    let both: Vec<Measurement> = batch.iter();
    assert_eq!(both, vec![batch.first, cog]);
}

#[test]
fn rmc_below_speed_floor_emits_sog_only() {
    let driver = Gnss0183Driver::new(config());
    let batch = feed(&driver, RMC_LOW_SPEED, Timestamp::from_nanos(0))
        .unwrap()
        .unwrap();
    assert!(matches!(
        batch.first.kind,
        MeasurementKind::SpeedOverGround { .. }
    ));
    assert!(batch.second.is_none());
    assert_eq!(batch.iter(), vec![batch.first]);
}

#[test]
fn rmc_status_warning_emits_nothing() {
    let driver = Gnss0183Driver::new(config());
    assert_eq!(
        feed(&driver, RMC_STATUS_WARNING, Timestamp::from_nanos(0)),
        None
    );
}

#[test]
fn rmc_mode_estimated_emits_nothing() {
    let driver = Gnss0183Driver::new(config());
    assert_eq!(
        feed(&driver, RMC_MODE_ESTIMATED, Timestamp::from_nanos(0)),
        None
    );
}

#[test]
fn rmc_mode_fixed_rtk_emits() {
    let driver = Gnss0183Driver::new(config());
    let batch = feed(&driver, RMC_MODE_FIXED_RTK, Timestamp::from_nanos(0))
        .unwrap()
        .unwrap();
    assert!(matches!(
        batch.first.kind,
        MeasurementKind::SpeedOverGround { .. }
    ));
}

#[test]
fn rmc_no_cog_field_emits_sog_only() {
    let driver = Gnss0183Driver::new(config());
    let batch = feed(&driver, RMC_NO_COG, Timestamp::from_nanos(0))
        .unwrap()
        .unwrap();
    assert!(matches!(
        batch.first.kind,
        MeasurementKind::SpeedOverGround { .. }
    ));
    assert!(batch.second.is_none());
}

#[test]
fn vtg_parses_but_emits_nothing() {
    let driver = Gnss0183Driver::new(config());
    assert_eq!(
        feed(&driver, VTG_COURSE_AND_SPEED, Timestamp::from_nanos(0)),
        None
    );
}

#[test]
fn bad_checksum_is_a_countable_error_and_stream_recovers() {
    let driver = Gnss0183Driver::new(config());
    let bad = b"$GPGGA,123519,4807.038,N,01131.000,E,1,08,0.9,545.4,M,46.9,M,,*00";
    let err = feed(&driver, bad, Timestamp::from_nanos(0)).unwrap();
    assert_eq!(
        err,
        Err(GnssError::Parse(SentenceError::ChecksumMismatch))
    );

    let m = feed(&driver, GGA_QUALITY_1, Timestamp::from_nanos(0))
        .unwrap()
        .unwrap()
        .first;
    assert!(matches!(m.kind, MeasurementKind::GnssPosition { .. }));
}

#[test]
fn self_test_rejects_nonpositive_std_config() {
    let mut cfg = config();
    cfg.fallback_std_m = s(0.0);
    let mut driver = Gnss0183Driver::new(cfg);
    assert_eq!(driver.init(), Ok(()));
    assert_eq!(driver.self_test(), Err(GnssError::InvalidConfig));
}

#[test]
fn self_test_accepts_sane_config() {
    let mut driver = Gnss0183Driver::new(config());
    assert_eq!(driver.self_test(), Ok(()));
}

#[test]
fn read_with_timestamp_is_not_the_byte_fed_surface() {
    let mut driver = Gnss0183Driver::new(config());
    assert_eq!(
        driver.read_with_timestamp(Timestamp::from_nanos(0)),
        Err(GnssError::NoByteSource)
    );
}

#[test]
fn every_fix_quality_and_mode_is_gated() {
    let driver = Gnss0183Driver::new(config());
    for fix_quality in 0..=255u8 {
        let gga = Sentence::Gga(GgaSentence {
            talker: *b"GP",
            fix_quality,
            lat_rad: Some(s(0.1)),
            lon_rad: Some(s(0.2)),
            scaled_hdop_m: None,
        });
        let trusted = [1, 2, 4, 5].contains(&fix_quality);
        assert_eq!(
            driver
                .to_measurement(&gga, Timestamp::from_nanos(0))
                .is_some(),
            trusted
        );
    }
    for (letter, trusted) in [
        ("A", true),
        ("D", true),
        ("F", true),
        ("R", true),
        ("E", false),
        ("M", false),
        ("S", false),
        ("N", false),
    ] {
        let rmc = Sentence::Rmc(RmcSentence {
            talker: *b"GP",
            status: RmcStatus::Valid,
            mode: Some(mode(letter)),
            sog_mps: Some(s(3.0)),
            cog_rad: None,
            cog_std_rad: s(1.0),
        });
        assert_eq!(
            driver
                .to_measurement(&rmc, Timestamp::from_nanos(0))
                .is_some(),
            trusted
        );
    }
}

#[test]
fn constants_spell_their_values() {
    assert_eq!(f64::from_bits(SOG_STD_MPS_BITS), SOG_STD_MPS);
    assert_eq!(f64::from_bits(COG_MIN_SPEED_MPS_BITS), COG_MIN_SPEED_MPS);
}
