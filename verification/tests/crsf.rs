use coxswain::crsf::{
    channel_to_us, crc8_dvb_s2, parse_frame, Frame, FrameReader, ParseError, ParseOutcome,
};

const ADDR_FLIGHT_CONTROLLER: u8 = 0xC8;
const TYPE_RC_CHANNELS_PACKED: u8 = 0x16;
const TYPE_LINK_STATISTICS: u8 = 0x14;

/// CRC8/DVB-S2, bit by bit, poly 0xD5, independent of the library's own.
fn reference_crc(bytes: &[u8]) -> u8 {
    let mut crc = 0u8;
    for &b in bytes {
        crc ^= b;
        for _ in 0..8 {
            crc = if crc & 0x80 != 0 {
                (crc << 1) ^ 0xD5
            } else {
                crc << 1
            };
        }
    }
    crc
}

/// Packs 16 channels x 11 bits, LSB-first, into the 22-byte payload.
fn pack_channels(channels: &[u16; 16]) -> [u8; 22] {
    let mut payload = [0u8; 22];
    let mut accumulator: u32 = 0;
    let mut bits_held: u32 = 0;
    let mut byte_index = 0usize;
    for &ch in channels {
        accumulator |= (ch as u32 & 0x7FF) << bits_held;
        bits_held += 11;
        while bits_held >= 8 {
            payload[byte_index] = (accumulator & 0xFF) as u8;
            accumulator >>= 8;
            bits_held -= 8;
            byte_index += 1;
        }
    }
    payload
}

fn build_frame(address: u8, frame_type: u8, payload: &[u8]) -> Vec<u8> {
    let mut type_and_payload = Vec::with_capacity(1 + payload.len());
    type_and_payload.push(frame_type);
    type_and_payload.extend_from_slice(payload);
    let crc = reference_crc(&type_and_payload);

    let mut frame = Vec::with_capacity(2 + type_and_payload.len() + 1);
    frame.push(address);
    frame.push((type_and_payload.len() + 1) as u8);
    frame.extend_from_slice(&type_and_payload);
    frame.push(crc);
    frame
}

fn rc_channels_frame(channels: &[u16; 16]) -> Vec<u8> {
    build_frame(
        ADDR_FLIGHT_CONTROLLER,
        TYPE_RC_CHANNELS_PACKED,
        &pack_channels(channels),
    )
}

fn link_statistics_frame(payload: &[u8; 10]) -> Vec<u8> {
    build_frame(ADDR_FLIGHT_CONTROLLER, TYPE_LINK_STATISTICS, payload)
}

#[test]
fn matches_the_published_check_value() {
    assert_eq!(crc8_dvb_s2(b"123456789"), 0xBC);
}

#[test]
fn appended_crc_leaves_zero() {
    let mut message = b"123456789".to_vec();
    message.push(crc8_dvb_s2(&message));
    assert_eq!(crc8_dvb_s2(&message), 0);
    message[3] ^= 0x10;
    assert_ne!(crc8_dvb_s2(&message), 0);
    assert_eq!(crc8_dvb_s2(&[]), 0);
}

const ITERATIONS: u64 = 5_000;

struct Rng(u64);

impl Rng {
    fn new(seed: u64) -> Self {
        Self(seed.max(1))
    }

    fn next_u64(&mut self) -> u64 {
        let mut x = self.0;
        x ^= x >> 12;
        x ^= x << 25;
        x ^= x >> 27;
        self.0 = x;
        x.wrapping_mul(0x2545_F491_4F6C_DD1D)
    }

    fn below(&mut self, bound: usize) -> usize {
        (self.next_u64() % bound as u64) as usize
    }

    fn byte(&mut self) -> u8 {
        (self.next_u64() & 0xFF) as u8
    }
}

fn golden_frames() -> Vec<Vec<u8>> {
    vec![
        rc_channels_frame(&[992u16; 16]),
        link_statistics_frame(&[80, 90, 99, 0xEC, 1, 2, 20, 70, 95, 0xFB]),
    ]
}

fn one_shot_never_panics(bytes: &[u8]) {
    let _ = parse_frame(bytes);
}

fn incremental_never_panics(bytes: &[u8]) {
    let mut reader = FrameReader::new();
    for &b in bytes {
        let _ = reader.push(b);
    }
}

#[test]
fn fuzz_random_byte_soup() {
    let mut rng = Rng::new(1);
    for _ in 0..ITERATIONS {
        let len = rng.below(120);
        let bytes: Vec<u8> = (0..len).map(|_| rng.byte()).collect();
        one_shot_never_panics(&bytes);
        incremental_never_panics(&bytes);
    }
}

#[test]
fn fuzz_mutated_golden_frames() {
    let golden = golden_frames();
    let mut rng = Rng::new(2);
    for _ in 0..ITERATIONS {
        let base = &golden[rng.below(golden.len())];
        let mutated = mutate(base, &mut rng);
        one_shot_never_panics(&mutated);
        incremental_never_panics(&mutated);
    }
}

fn mutate(base: &[u8], rng: &mut Rng) -> Vec<u8> {
    let mut out = base.to_vec();
    match rng.below(4) {
        0 => {
            if !out.is_empty() {
                let i = rng.below(out.len());
                out[i] ^= 1 << rng.below(8);
            }
        }
        1 => {
            let cut = rng.below(out.len() + 1);
            out.truncate(cut);
        }
        2 => {
            if out.len() > 1 {
                let split = rng.below(out.len());
                out.rotate_left(split);
            }
        }
        _ => {
            let i = rng.below(out.len() + 1);
            out.insert(i, rng.byte());
        }
    }
    out
}

#[test]
fn rc_channels_packed_round_trip() {
    let mut channels = [992u16; 16];
    channels[0] = 172;
    channels[1] = 1811;
    channels[15] = 1000;

    let frame_bytes = rc_channels_frame(&channels);
    let outcome = parse_frame(&frame_bytes).unwrap();
    let ParseOutcome::Frame(Frame::RcChannels(rc)) = outcome else {
        panic!("expected RcChannels, got {outcome:?}")
    };
    assert_eq!(rc.channels, channels);
}

#[test]
fn every_code_point_survives_packing() {
    let mut rng = Rng::new(3);
    for _ in 0..200 {
        let mut channels = [0u16; 16];
        for c in channels.iter_mut() {
            *c = rng.below(2048) as u16;
        }
        let outcome = parse_frame(&rc_channels_frame(&channels)).unwrap();
        let ParseOutcome::Frame(Frame::RcChannels(rc)) = outcome else {
            panic!("expected RcChannels, got {outcome:?}")
        };
        assert_eq!(rc.channels, channels);
    }
}

#[test]
fn link_statistics_with_negative_snr() {
    let payload: [u8; 10] = [80, 90, 99, 0xEC, 1, 2, 20, 70, 95, 0xFB];
    let frame_bytes = link_statistics_frame(&payload);
    let outcome = parse_frame(&frame_bytes).unwrap();
    let ParseOutcome::Frame(Frame::LinkStatistics(ls)) = outcome else {
        panic!("expected LinkStatistics, got {outcome:?}")
    };
    assert_eq!(ls.uplink_rssi_ant1, 80);
    assert_eq!(ls.uplink_rssi_ant2, 90);
    assert_eq!(ls.uplink_link_quality, 99);
    assert_eq!(ls.uplink_snr, -20);
    assert_eq!(ls.active_antenna, 1);
    assert_eq!(ls.rf_mode, 2);
    assert_eq!(ls.uplink_tx_power, 20);
    assert_eq!(ls.downlink_rssi, 70);
    assert_eq!(ls.downlink_link_quality, 95);
    assert_eq!(ls.downlink_snr, -5);
}

#[test]
fn unknown_frame_type_with_valid_crc_is_ok_not_err() {
    let frame = build_frame(0xC8, 0x08, &[1, 2, 3]);
    let outcome = parse_frame(&frame).unwrap();
    assert_eq!(outcome, ParseOutcome::Unknown { frame_type: 0x08 });
}

#[test]
fn golden_channel_to_us_reference_points() {
    assert_eq!(channel_to_us(172), 988);
    assert_eq!(channel_to_us(992), 1500);
    assert_eq!(channel_to_us(1811), 2012);
}

fn feed(reader: &mut FrameReader, bytes: &[u8]) -> Vec<Result<ParseOutcome, ParseError>> {
    let mut out = Vec::new();
    for &b in bytes {
        if let Some(r) = reader.push(b) {
            out.push(r);
        }
    }
    out
}

#[test]
fn byte_at_a_time_matches_one_shot() {
    let frame_bytes = rc_channels_frame(&[992u16; 16]);
    let one_shot = parse_frame(&frame_bytes).unwrap();

    let mut reader = FrameReader::new();
    let results = feed(&mut reader, &frame_bytes);

    assert_eq!(results.len(), 1);
    assert_eq!(results[0].as_ref().unwrap(), &one_shot);
}

#[test]
fn two_frames_back_to_back() {
    let rc = rc_channels_frame(&[992u16; 16]);
    let ls = link_statistics_frame(&[1, 2, 3, 4, 5, 6, 7, 8, 9, 10]);
    let expected_rc = parse_frame(&rc).unwrap();
    let expected_ls = parse_frame(&ls).unwrap();

    let mut stream = Vec::new();
    stream.extend_from_slice(&rc);
    stream.extend_from_slice(&ls);

    let mut reader = FrameReader::new();
    let results = feed(&mut reader, &stream);

    assert_eq!(results.len(), 2);
    assert_eq!(results[0].as_ref().unwrap(), &expected_rc);
    assert_eq!(results[1].as_ref().unwrap(), &expected_ls);
}

#[test]
fn unknown_type_frame_is_skipped_then_next_frame_still_parses() {
    let unknown = build_frame(0xC8, 0x08, &[1, 2, 3]);
    let rc = rc_channels_frame(&[992u16; 16]);
    let expected_rc = parse_frame(&rc).unwrap();

    let mut stream = Vec::new();
    stream.extend_from_slice(&unknown);
    stream.extend_from_slice(&rc);

    let mut reader = FrameReader::new();
    let results = feed(&mut reader, &stream);

    assert_eq!(results.len(), 2);
    assert_eq!(results[0], Ok(ParseOutcome::Unknown { frame_type: 0x08 }));
    assert_eq!(results[1].as_ref().unwrap(), &expected_rc);
}

#[test]
fn mid_frame_pickup_resyncs_onto_the_next_valid_frame() {
    let rc = rc_channels_frame(&[992u16; 16]);
    let expected = parse_frame(&rc).unwrap();

    let mut stream = vec![0x99, 0x99, 0x99, 0x99, 0x99];
    stream.extend_from_slice(&rc);

    let mut reader = FrameReader::default();
    let results = feed(&mut reader, &stream);

    let last = results.last().expect("at least one result");
    assert_eq!(last.as_ref().unwrap(), &expected);
    assert!(results[..results.len() - 1].iter().all(|r| r.is_err()));
    assert_eq!(results.len(), 6);
}

#[test]
fn rejection_costs_exactly_the_front_byte() {
    // A plausible header whose crc is wrong, with a good frame right behind
    // its first byte.
    let good = build_frame(0xEA, 0x08, &[]);
    let mut stream = vec![0xC8];
    stream.extend_from_slice(&good);
    let mut reader = FrameReader::new();
    let results = feed(&mut reader, &stream);
    assert_eq!(results[0], Err(ParseError::LengthOutOfRange));
    assert_eq!(results[1], Ok(ParseOutcome::Unknown { frame_type: 0x08 }));
    assert_eq!(results.len(), 2);
}

fn good_rc_channels() -> Vec<u8> {
    rc_channels_frame(&[992u16; 16])
}

#[test]
fn bad_crc_is_mismatch() {
    let mut frame = good_rc_channels();
    let last = frame.len() - 1;
    frame[last] ^= 0xFF;
    assert_eq!(parse_frame(&frame), Err(ParseError::CrcMismatch));
}

#[test]
fn bad_address_is_rejected() {
    let mut frame = good_rc_channels();
    frame[0] = 0x00;
    assert_eq!(parse_frame(&frame), Err(ParseError::BadAddress));
}

#[test]
fn zero_length_field_is_out_of_range() {
    let frame = vec![0xC8, 0x00];
    assert_eq!(parse_frame(&frame), Err(ParseError::LengthOutOfRange));
}

#[test]
fn length_field_over_max_is_out_of_range() {
    let frame = vec![0xC8, 0x3F];
    assert_eq!(parse_frame(&frame), Err(ParseError::LengthOutOfRange));
}

#[test]
fn truncated_frame_is_rejected() {
    let frame = good_rc_channels();
    let short = &frame[..frame.len() - 3];
    assert_eq!(parse_frame(short), Err(ParseError::Truncated));
}

#[test]
fn empty_slice_is_truncated() {
    assert_eq!(parse_frame(&[]), Err(ParseError::Truncated));
}

#[test]
fn wrong_payload_length_for_known_type_is_rejected() {
    let frame = build_frame(0xC8, 0x16, &[0u8; 10]);
    assert_eq!(parse_frame(&frame), Err(ParseError::PayloadLength));
}

#[test]
fn every_single_byte_alteration_behind_the_header_is_caught() {
    let frame = good_rc_channels();
    for at in 2..frame.len() {
        for flip in 1..=255u8 {
            let mut altered = frame.clone();
            altered[at] ^= flip;
            assert_eq!(parse_frame(&altered), Err(ParseError::CrcMismatch));
        }
    }
}

#[test]
fn every_byte_leaves_the_reader_by_rejection_or_in_a_frame() {
    // Header-like noise that makes the reader wait, then a run of frames:
    // rejected bytes and accepted frames add up to what was fed.
    let rc = rc_channels_frame(&[992u16; 16]);
    let mut stream = vec![0xC8, 0x05, 0x16, 0x00];
    for _ in 0..6 {
        stream.extend_from_slice(&rc);
    }
    let mut reader = FrameReader::new();
    let results = feed(&mut reader, &stream);
    let rejected = results.iter().filter(|r| r.is_err()).count();
    let accepted = results.iter().filter(|r| r.is_ok()).count();
    assert!(accepted >= 1);
    assert!(rejected + accepted * rc.len() <= stream.len());
    assert!(stream.len() - (rejected + accepted * rc.len()) < 64);
}
