use coxswain::contract::{PowerStatus, Timestamp};
use coxswain::drivers::power_report::{PowerError, PowerReportReader};
use coxswain::scalar::Scalar;

/// One byte in, a report out: what the field's text parses to as a number is
/// handed back to the field.
fn push(
    reader: &mut PowerReportReader,
    byte: u8,
    acquired_at: Timestamp,
) -> Option<Result<PowerStatus, PowerError>> {
    match reader.push(byte, acquired_at)? {
        Err(e) => Some(Err(e)),
        Ok(field) => {
            let parsed = std::str::from_utf8(&field.text)
                .ok()
                .and_then(|text| text.parse::<f64>().ok())
                .map(|v| Scalar::from_bits(v.to_bits()));
            Some(field.report(parsed))
        }
    }
}

fn feed(
    reader: &mut PowerReportReader,
    line: &[u8],
    acquired_at: Timestamp,
) -> Option<Result<PowerStatus, PowerError>> {
    for &b in line {
        assert_eq!(push(reader, b, acquired_at), None);
    }
    push(reader, b'\r', acquired_at)
}

fn feed_silently(reader: &mut PowerReportReader, prefix: &[u8], acquired_at: Timestamp) {
    for &b in prefix {
        assert_eq!(push(reader, b, acquired_at), None);
    }
}

fn volts(status: PowerStatus) -> f64 {
    f64::from_bits(status.voltage_v.to_bits())
}

#[test]
fn golden_cxpwr_line_parses_to_exact_voltage() {
    // XOR of "CXPWR,12.6" is 0x79.
    const LINE: &[u8] = b"$CXPWR,12.6*79";
    let t = Timestamp::from_nanos(1_000);
    let mut reader = PowerReportReader::new();
    let status = feed(&mut reader, LINE, t).unwrap().unwrap();

    assert_eq!(volts(status), 12.6);
    assert_eq!(status.t, t);
}

#[test]
fn fragmented_delivery_parses_identically_to_the_golden_line() {
    let t = Timestamp::from_nanos(1_000);
    let mut reader = PowerReportReader::new();
    feed_silently(&mut reader, b"$CXPWR,abandoned-mid-line", t);
    let status = feed(&mut reader, b"$CXPWR,12.6*79", t).unwrap().unwrap();

    assert_eq!(volts(status), 12.6);
}

#[test]
fn bad_checksum_is_rejected() {
    let t = Timestamp::from_nanos(1_000);
    let mut reader = PowerReportReader::new();
    let result = feed(&mut reader, b"$CXPWR,12.6*00", t);

    assert_eq!(result, Some(Err(PowerError::BadChecksum)));
}

#[test]
fn actuator_serial_negative_voltage_is_rejected() {
    let t = Timestamp::from_nanos(1_000);
    let mut reader = PowerReportReader::new();
    let result = feed(&mut reader, b"$CXPWR,-1.0*60", t);

    assert_eq!(result, Some(Err(PowerError::InvalidVoltage)));
}

#[test]
fn garbage_numeric_field_is_rejected() {
    let t = Timestamp::from_nanos(1_000);
    let mut reader = PowerReportReader::new();
    let result = feed(&mut reader, b"$CXPWR,abc*02", t);

    assert_eq!(result, Some(Err(PowerError::InvalidVoltage)));
}

#[test]
fn non_finite_voltage_is_rejected() {
    let t = Timestamp::from_nanos(1_000);
    let mut reader = PowerReportReader::new();
    let result = feed(&mut reader, b"$CXPWR,nan*03", t);

    assert_eq!(result, Some(Err(PowerError::InvalidVoltage)));
}

#[test]
fn interleaved_cxout_echo_is_skipped_without_error() {
    let t = Timestamp::from_nanos(1_000);
    let mut reader = PowerReportReader::new();
    feed_silently(&mut reader, b"$CXOUT,1500,1500*55\r\n", t);
    let status = feed(&mut reader, b"$CXPWR,12.6*79", t).unwrap().unwrap();

    assert_eq!(volts(status), 12.6);
}

#[test]
fn lower_case_checksum_and_line_feed_are_read_too() {
    // XOR of "CXPWR,12.5" is 0x7A.
    let t = Timestamp::from_nanos(5);
    let mut reader = PowerReportReader::default();
    feed_silently(&mut reader, b"$CXPWR,12.5*7a", t);
    let status = push(&mut reader, b'\n', t).unwrap().unwrap();
    assert_eq!(volts(status), 12.5);
    // A stray terminator between lines is nothing.
    assert_eq!(push(&mut reader, b'\r', t), None);
}

#[test]
fn missing_or_malformed_checksum_is_rejected() {
    let t = Timestamp::from_nanos(1);
    let lines: [&[u8]; 3] = [b"$CXPWR,12.6", b"$CXPWR,", b"$CXPWR,12.6*7G"];
    for line in lines {
        let mut reader = PowerReportReader::new();
        assert_eq!(
            feed(&mut reader, line, t),
            Some(Err(PowerError::BadChecksum))
        );
    }
}

#[test]
fn a_line_that_outgrows_the_buffer_is_dropped_quietly() {
    let t = Timestamp::from_nanos(1);
    let mut reader = PowerReportReader::new();
    let mut long = b"$CXPWR,".to_vec();
    long.extend_from_slice(&[b'1'; 80]);
    assert_eq!(feed(&mut reader, &long, t), None);
    let status = feed(&mut reader, b"$CXPWR,12.6*79", t).unwrap().unwrap();
    assert_eq!(volts(status), 12.6);
}
