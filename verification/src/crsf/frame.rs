//! Typed frame structs and the one-shot parser (`[address][len][type]
//! [payload...][crc]` slice in, `ParseOutcome` or `ParseError` out).

use vstd::arithmetic::power2::pow2;
use vstd::prelude::*;

use super::crc::crc8_dvb_s2;
use super::error::ParseError;

verus! {

/// Longest CRSF frame on the wire: address byte + len byte + up to 62 bytes
/// of type/payload/crc.
pub const MAX_FRAME_LEN: usize = 64;

/// `len` field lower bound: a frame with an empty payload still carries a
/// type byte and a crc byte.
pub const MIN_LEN_FIELD: usize = 2;

/// `len` field upper bound: 2 (address + len byte) + this must not exceed
/// `MAX_FRAME_LEN`.
pub const MAX_LEN_FIELD: usize = 62;

pub const TYPE_RC_CHANNELS_PACKED: u8 = 0x16;

pub const TYPE_LINK_STATISTICS: u8 = 0x14;

pub const RC_CHANNELS_PAYLOAD_LEN: usize = 22;

pub const LINK_STATISTICS_PAYLOAD_LEN: usize = 10;

/// A receiver talking to the autopilot only ever addresses the flight
/// controller, or echoes the radio transmitter's own address.
pub const ADDR_FLIGHT_CONTROLLER: u8 = 0xC8;

pub const ADDR_RADIO_TRANSMITTER: u8 = 0xEA;

/// 16 RC channels, 11-bit code points (172..=1811 nominal; values up to the
/// 11-bit ceiling of 2047 are passed through uninterpreted, clamping being a
/// policy choice for the claimant adapter).
#[derive(Copy, Clone, Debug, PartialEq, Eq)]
pub struct RcChannelsFrame {
    pub channels: [u16; 16],
}

/// Link quality/margin telemetry. Uplink is transmitter-to-receiver, downlink
/// receiver-to-transmitter; the wire interleaves both in one frame.
#[derive(Copy, Clone, Debug, PartialEq, Eq, Structural)]
pub struct LinkStatisticsFrame {
    pub uplink_rssi_ant1: u8,
    pub uplink_rssi_ant2: u8,
    pub uplink_link_quality: u8,
    pub uplink_snr: i8,
    pub active_antenna: u8,
    pub rf_mode: u8,
    pub uplink_tx_power: u8,
    pub downlink_rssi: u8,
    pub downlink_link_quality: u8,
    pub downlink_snr: i8,
}

#[derive(Copy, Clone, Debug, PartialEq, Eq)]
pub enum Frame {
    RcChannels(RcChannelsFrame),
    LinkStatistics(LinkStatisticsFrame),
}

/// What a well-formed frame holds. A frame with a valid address and CRC of a
/// type that is not decoded here is routine traffic on a live link, so it is
/// an outcome and not an error.
#[derive(Copy, Clone, Debug, PartialEq, Eq)]
pub enum ParseOutcome {
    Frame(Frame),
    Unknown { frame_type: u8 },
}

pub open spec fn known_address(address: u8) -> bool {
    address == ADDR_FLIGHT_CONTROLLER || address == ADDR_RADIO_TRANSMITTER
}

pub open spec fn length_in_range(len_field: int) -> bool {
    MIN_LEN_FIELD <= len_field <= MAX_LEN_FIELD
}

/// The bytes between the type byte and the crc byte of a complete frame.
pub open spec fn payload_of(bytes: Seq<u8>) -> Seq<u8> {
    bytes.subrange(3, bytes.len() - 1)
}

/// The payload length a decoded frame type must have.
pub open spec fn payload_fits(frame_type: u8, payload_len: int) -> bool {
    &&& frame_type == TYPE_RC_CHANNELS_PACKED ==> payload_len == RC_CHANNELS_PAYLOAD_LEN
    &&& frame_type == TYPE_LINK_STATISTICS ==> payload_len == LINK_STATISTICS_PAYLOAD_LEN
}

/// Whether a slice is accepted as one complete frame, and else why not. The
/// checks apply in this order: the slice holds a header, the length field is
/// in range, the slice has the declared length, the address is known, the crc
/// over type and payload matches, the payload has the length of its type.
pub open spec fn verdict(bytes: Seq<u8>) -> Result<(), ParseError> {
    if bytes.len() < 2 {
        Err(ParseError::Truncated)
    } else if !length_in_range(bytes[1] as int) {
        Err(ParseError::LengthOutOfRange)
    } else if bytes.len() != 2 + bytes[1] {
        Err(ParseError::Truncated)
    } else if !known_address(bytes[0]) {
        Err(ParseError::BadAddress)
    } else if super::crc::crc(bytes.subrange(2, bytes.len() - 1)) != bytes.last() {
        Err(ParseError::CrcMismatch)
    } else if !payload_fits(bytes[2], payload_of(bytes).len() as int) {
        Err(ParseError::PayloadLength)
    } else {
        Ok(())
    }
}

/// The bytes read as one little-endian number.
pub open spec fn little_endian(bytes: Seq<u8>) -> nat
    decreases bytes.len(),
{
    if bytes.len() == 0 {
        0
    } else {
        little_endian(bytes.drop_last()) + bytes.last() as nat * pow2(
            8 * (bytes.len() - 1) as nat,
        )
    }
}

/// Channel `i` of a packed payload: bits `11 * i .. 11 * i + 11` of the
/// payload read as one little-endian number.
pub open spec fn packed_channel(payload: Seq<u8>, i: int) -> int {
    (little_endian(payload) as int / pow2(11 * i as nat) as int) % 2048
}

/// A byte read as a two's-complement number.
pub open spec fn signed(b: u8) -> int {
    if b < 128 {
        b as int
    } else {
        b - 256
    }
}

pub open spec fn holds_channels(payload: Seq<u8>, f: RcChannelsFrame) -> bool {
    forall|i: int| 0 <= i < 16 ==> #[trigger] f.channels@[i] == packed_channel(payload, i)
}

pub open spec fn holds_link_statistics(p: Seq<u8>, f: LinkStatisticsFrame) -> bool {
    &&& f.uplink_rssi_ant1 == p[0]
    &&& f.uplink_rssi_ant2 == p[1]
    &&& f.uplink_link_quality == p[2]
    &&& f.uplink_snr == signed(p[3])
    &&& f.active_antenna == p[4]
    &&& f.rf_mode == p[5]
    &&& f.uplink_tx_power == p[6]
    &&& f.downlink_rssi == p[7]
    &&& f.downlink_link_quality == p[8]
    &&& f.downlink_snr == signed(p[9])
}

/// Whether an outcome is what an accepted frame's type and payload mean.
pub open spec fn means(frame_type: u8, payload: Seq<u8>, outcome: ParseOutcome) -> bool {
    if frame_type == TYPE_RC_CHANNELS_PACKED {
        outcome matches ParseOutcome::Frame(Frame::RcChannels(f)) && holds_channels(payload, f)
    } else if frame_type == TYPE_LINK_STATISTICS {
        outcome matches ParseOutcome::Frame(Frame::LinkStatistics(f)) && holds_link_statistics(
            payload,
            f,
        )
    } else {
        outcome == ParseOutcome::Unknown { frame_type }
    }
}

/// Whether `r` is the result of parsing `bytes` as one complete frame.
pub open spec fn parses_to(bytes: Seq<u8>, r: Result<ParseOutcome, ParseError>) -> bool {
    match r {
        Ok(outcome) => verdict(bytes) is Ok && means(bytes[2], payload_of(bytes), outcome),
        Err(e) => verdict(bytes) == Err::<(), ParseError>(e),
    }
}

fn is_known_address(address: u8) -> (b: bool)
    ensures
        b == known_address(address),
{
    address == ADDR_FLIGHT_CONTROLLER || address == ADDR_RADIO_TRANSMITTER
}

pub fn len_field_in_range(len_field: usize) -> (b: bool)
    ensures
        b == length_in_range(len_field as int),
{
    MIN_LEN_FIELD <= len_field && len_field <= MAX_LEN_FIELD
}

/// One-shot parse of a complete frame slice: `bytes[0]` is the address byte,
/// `bytes[1]` the length field, and `bytes` ends with the crc byte the length
/// field declares, with no leading or trailing bytes.
pub fn parse_frame(bytes: &[u8]) -> (r: Result<ParseOutcome, ParseError>)
    ensures
        parses_to(bytes@, r),
{
    if bytes.len() < 2 {
        return Err(ParseError::Truncated);
    }
    let address: u8 = bytes[0];
    let len_field: usize = bytes[1] as usize;
    if !len_field_in_range(len_field) {
        return Err(ParseError::LengthOutOfRange);
    }
    let total: usize = 2 + len_field;
    if bytes.len() != total {
        return Err(ParseError::Truncated);
    }
    validate(address, vstd::slice::slice_subrange(bytes, 2, total), Ghost(bytes@))
}

fn validate(
    address: u8,
    type_and_payload_and_crc: &[u8],
    Ghost(bytes): Ghost<Seq<u8>>,
) -> (r: Result<ParseOutcome, ParseError>)
    requires
        bytes.len() >= 4,
        length_in_range(bytes[1] as int),
        bytes.len() == 2 + bytes[1],
        address == bytes[0],
        type_and_payload_and_crc@ == bytes.skip(2),
    ensures
        parses_to(bytes, r),
{
    if !is_known_address(address) {
        return Err(ParseError::BadAddress);
    }
    let crc_index: usize = type_and_payload_and_crc.len() - 1;
    let type_and_payload = vstd::slice::slice_subrange(type_and_payload_and_crc, 0, crc_index);
    let received_crc: u8 = type_and_payload_and_crc[crc_index];
    proof {
        assert(type_and_payload@ == bytes.subrange(2, bytes.len() - 1));
    }
    if crc8_dvb_s2(type_and_payload) != received_crc {
        return Err(ParseError::CrcMismatch);
    }
    let frame_type: u8 = type_and_payload[0];
    let payload = vstd::slice::slice_subrange(type_and_payload, 1, crc_index);
    proof {
        assert(payload@ == payload_of(bytes));
    }
    if frame_type == TYPE_RC_CHANNELS_PACKED {
        match parse_rc_channels(payload) {
            Ok(f) => Ok(ParseOutcome::Frame(Frame::RcChannels(f))),
            Err(e) => Err(e),
        }
    } else if frame_type == TYPE_LINK_STATISTICS {
        match parse_link_statistics(payload) {
            Ok(f) => Ok(ParseOutcome::Frame(Frame::LinkStatistics(f))),
            Err(e) => Err(e),
        }
    } else {
        Ok(ParseOutcome::Unknown { frame_type })
    }
}

/// Taking more bytes into a little-endian number does not change the bits
/// that were already covered.
proof fn lemma_little_endian_prefix(bytes: Seq<u8>, k: int)
    requires
        0 <= k <= bytes.len(),
    ensures
        little_endian(bytes) as int % pow2(8 * k as nat) as int == little_endian(bytes.take(k)),
        little_endian(bytes) < pow2(8 * bytes.len()),
    decreases bytes.len(),
{
    vstd::arithmetic::power2::lemma2_to64();
    if bytes.len() == 0 {
        assert(bytes.take(k) == bytes);
        assert(pow2(0) == 1);
    } else {
        let n = (bytes.len() - 1) as nat;
        let head = bytes.drop_last();
        let p = pow2(8 * n) as int;
        let last = bytes.last() as int;
        vstd::arithmetic::power2::lemma_pow2_adds(8 * n, 8);
        assert(pow2(8 * n) * pow2(8) == pow2(8 * bytes.len()));
        lemma_little_endian_prefix(head, head.len() as int);
        assert(little_endian(bytes) < pow2(8 * bytes.len())) by {
            assert(last * p <= 255 * p) by (nonlinear_arith)
                requires
                    last <= 255,
                    p >= 0,
            ;
            assert(p * 256 == 255 * p + p);
        }
        if k == bytes.len() {
            assert(bytes.take(k) == bytes);
            vstd::arithmetic::div_mod::lemma_small_mod(
                little_endian(bytes),
                pow2(8 * k as nat),
            );
        } else {
            lemma_little_endian_prefix(head, k);
            assert(head.take(k) == bytes.take(k));
            let m = pow2(8 * k as nat) as int;
            let rest = pow2((8 * n - 8 * k) as nat) as int;
            vstd::arithmetic::power2::lemma_pow2_pos(8 * k as nat);
            vstd::arithmetic::power2::lemma_pow2_adds(8 * k as nat, (8 * n - 8 * k) as nat);
            assert(p == m * rest);
            assert(last * p == m * (last * rest)) by (nonlinear_arith)
                requires
                    p == m * rest,
            ;
            vstd::arithmetic::div_mod::lemma_mod_multiples_vanish(
                last * rest,
                little_endian(head) as int,
                m,
            );
        }
    }
}

/// Reading 11 bits above the first `s` needs only the bytes that cover them.
proof fn lemma_channel_from_prefix(payload: Seq<u8>, k: int, s: nat)
    requires
        0 <= k <= payload.len(),
        s + 11 <= 8 * k,
    ensures
        (little_endian(payload.take(k)) as int / pow2(s) as int) % 2048 == (little_endian(
            payload,
        ) as int / pow2(s) as int) % 2048,
{
    lemma_little_endian_prefix(payload, k);
    let x = little_endian(payload) as int;
    let m = pow2(8 * k as nat) as int;
    let p = pow2(s) as int;
    let q = pow2((8 * k - s) as nat) as int;
    let c = pow2((8 * k - s - 11) as nat) as int;
    vstd::arithmetic::power2::lemma2_to64();
    vstd::arithmetic::power2::lemma_pow2_pos(s);
    vstd::arithmetic::power2::lemma_pow2_pos((8 * k - s) as nat);
    vstd::arithmetic::power2::lemma_pow2_pos((8 * k - s - 11) as nat);
    vstd::arithmetic::power2::lemma_pow2_adds(s, (8 * k - s) as nat);
    vstd::arithmetic::power2::lemma_pow2_adds(11, (8 * k - s - 11) as nat);
    assert(m == p * q);
    assert(q == 2048 * c);
    let a = x / p;
    vstd::arithmetic::div_mod::lemma_mod_breakdown(x, p, q);
    // x % (p * q) == p * (a % q) + x % p
    let r = x % p;
    vstd::arithmetic::div_mod::lemma_mod_bound(x, p);
    vstd::arithmetic::div_mod::lemma_div_multiples_vanish_fancy(a % q, r, p);
    assert((x % m) / p == a % q);
    vstd::arithmetic::div_mod::lemma_mod_mod(a, 2048, c);
}

/// Unpacks 16 channels x 11 bits, LSB-first across the 22-byte payload, with
/// no byte alignment between channels.
fn parse_rc_channels(payload: &[u8]) -> (r: Result<RcChannelsFrame, ParseError>)
    ensures
        r is Ok <==> payload@.len() == RC_CHANNELS_PAYLOAD_LEN,
        r matches Ok(f) ==> holds_channels(payload@, f),
        r matches Err(e) ==> e == ParseError::PayloadLength,
{
    if payload.len() != RC_CHANNELS_PAYLOAD_LEN {
        return Err(ParseError::PayloadLength);
    }
    let mut channels = [0u16; 16];
    let mut accumulator: u32 = 0;
    let mut bits_held: u32 = 0;
    let mut byte_index: usize = 0;
    let mut i: usize = 0;
    proof {
        vstd::arithmetic::power2::lemma2_to64();
        assert(payload@.take(0) == Seq::<u8>::empty());
    }
    while i < 16
        invariant
            i <= 16,
            payload@.len() == 22,
            byte_index <= 22,
            bits_held < 11,
            8 * byte_index == 11 * i + bits_held,
            accumulator == little_endian(payload@.take(byte_index as int)) as int / pow2(
                11 * i as nat,
            ) as int,
            accumulator < pow2(bits_held as nat),
            forall|j: int|
                0 <= j < i ==> #[trigger] channels@[j] == packed_channel(payload@, j),
        decreases 16 - i,
    {
        while bits_held < 11
            invariant
                i < 16,
                payload@.len() == 22,
                byte_index <= 22,
                bits_held < 19,
                8 * byte_index == 11 * i + bits_held,
                accumulator == little_endian(payload@.take(byte_index as int)) as int / pow2(
                    11 * i as nat,
                ) as int,
                accumulator < pow2(bits_held as nat),
            decreases 19 - bits_held,
        {
            let b: u32 = payload[byte_index] as u32;
            proof {
                lemma_take_in(payload@, byte_index as int, i as int, bits_held, accumulator, b);
            }
            accumulator = accumulator | (b << bits_held);
            bits_held = bits_held + 8;
            byte_index = byte_index + 1;
        }
        proof {
            lemma_take_out(payload@, byte_index as int, i as int, bits_held, accumulator);
        }
        channels[i] = (accumulator & 0x7FF) as u16;
        accumulator = accumulator >> 11;
        bits_held = bits_held - 11;
        i = i + 1;
    }
    Ok(RcChannelsFrame { channels })
}

proof fn lemma_take_in(payload: Seq<u8>, k: int, i: int, held: u32, acc: u32, b: u32)
    requires
        0 <= k < payload.len(),
        0 <= i,
        held < 11,
        8 * k == 11 * i + held,
        acc == little_endian(payload.take(k)) as int / pow2(11 * i as nat) as int,
        acc < pow2(held as nat),
        b == payload[k],
    ensures
        acc | (b << held) == little_endian(payload.take(k + 1)) as int / pow2(
            11 * i as nat,
        ) as int,
        acc | (b << held) < pow2((held + 8) as nat),
{
    vstd::arithmetic::power2::lemma2_to64();
    let p = pow2(11 * i as nat) as int;
    let h = pow2(held as nat) as int;
    let head = payload.take(k);
    assert(payload.take(k + 1).drop_last() == head);
    assert(pow2(8 * k as nat) == p * h) by {
        vstd::arithmetic::power2::lemma_pow2_adds(11 * i as nat, held as nat);
    }
    vstd::arithmetic::power2::lemma_pow2_pos(11 * i as nat);
    let x = little_endian(head) as int;
    assert(little_endian(payload.take(k + 1)) == x + b * (p * h));
    assert((b * h) * p + x == x + b * (p * h)) by (nonlinear_arith);
    vstd::arithmetic::div_mod::lemma_hoist_over_denominator(x, b * h, p as nat);
    assert(((b * h) * p + x) / p == acc + b * h);
    vstd::bits::lemma_u32_shl_is_mul(1, held);
    assert(b << held == b * (1u32 << held)) by (bit_vector)
        requires
            b < 256,
            held < 11,
    ;
    assert(acc | (b << held) == acc + (b << held)) by (bit_vector)
        requires
            acc < (1u32 << held),
            b < 256,
            held < 11,
    ;
    vstd::arithmetic::power2::lemma_pow2_adds(held as nat, 8);
    assert(b * h <= 255 * h) by (nonlinear_arith)
        requires
            b <= 255,
            h >= 0,
    ;
    assert(acc + b * h < h * 256);
}

proof fn lemma_take_out(payload: Seq<u8>, k: int, i: int, held: u32, acc: u32)
    requires
        0 <= k <= payload.len(),
        0 <= i,
        11 <= held < 19,
        8 * k == 11 * i + held,
        acc == little_endian(payload.take(k)) as int / pow2(11 * i as nat) as int,
        acc < pow2(held as nat),
    ensures
        acc & 0x7FF == packed_channel(payload, i),
        acc & 0x7FF <= 2047,
        acc >> 11 == little_endian(payload.take(k)) as int / pow2(11 * (i + 1) as nat) as int,
        acc >> 11 < pow2((held - 11) as nat),
{
    vstd::arithmetic::power2::lemma2_to64();
    lemma_channel_from_prefix(payload, k, 11 * i as nat);
    assert(acc & 0x7FF == acc % 2048) by (bit_vector);
    assert(acc >> 11 == acc / 2048) by (bit_vector);
    let x = little_endian(payload.take(k)) as int;
    let p = pow2(11 * i as nat) as int;
    vstd::arithmetic::power2::lemma_pow2_pos(11 * i as nat);
    vstd::arithmetic::div_mod::lemma_div_denominator(x, p, 2048);
    vstd::arithmetic::power2::lemma_pow2_adds(11 * i as nat, 11);
    vstd::arithmetic::power2::lemma_pow2_adds(11, (held - 11) as nat);
    assert(p * 2048 == pow2(11 * (i + 1) as nat));
    let q = pow2((held - 11) as nat) as int;
    assert(acc / 2048 < q) by (nonlinear_arith)
        requires
            acc < 2048 * q,
    ;
}

fn parse_link_statistics(payload: &[u8]) -> (r: Result<LinkStatisticsFrame, ParseError>)
    ensures
        r is Ok <==> payload@.len() == LINK_STATISTICS_PAYLOAD_LEN,
        r matches Ok(f) ==> holds_link_statistics(payload@, f),
        r matches Err(e) ==> e == ParseError::PayloadLength,
{
    if payload.len() != LINK_STATISTICS_PAYLOAD_LEN {
        return Err(ParseError::PayloadLength);
    }
    Ok(
        LinkStatisticsFrame {
            uplink_rssi_ant1: payload[0],
            uplink_rssi_ant2: payload[1],
            uplink_link_quality: payload[2],
            uplink_snr: as_signed(payload[3]),
            active_antenna: payload[4],
            rf_mode: payload[5],
            uplink_tx_power: payload[6],
            downlink_rssi: payload[7],
            downlink_link_quality: payload[8],
            downlink_snr: as_signed(payload[9]),
        },
    )
}

fn as_signed(b: u8) -> (s: i8)
    ensures
        s == signed(b),
{
    if b < 128 {
        b as i8
    } else {
        (b as i16 - 256) as i8
    }
}

/// Maps an 11-bit RC_CHANNELS_PACKED code point onto the microsecond scale
/// hobby RC hardware uses for a stick position: `raw * 5/8 + 880`, linear
/// over the whole range, rounded half up.
pub fn channel_to_us(raw: u16) -> (us: u16)
    ensures
        us == (raw * 5 + 880 * 8 + 4) / 8,
{
    let scaled: u32 = raw as u32 * 5 + 880 * 8;
    ((scaled + 4) / 8) as u16
}

/// The microsecond scale rises with the code point, and each step of eight
/// code points is worth exactly five microseconds.
pub proof fn channel_scale_is_linear(raw: int, higher: int)
    requires
        0 <= raw <= higher,
    ensures
        (raw * 5 + 880 * 8 + 4) / 8 <= (higher * 5 + 880 * 8 + 4) / 8,
        ((raw + 8) * 5 + 880 * 8 + 4) / 8 == (raw * 5 + 880 * 8 + 4) / 8 + 5,
{
}

/// A slice has one parse result at most: equal verdicts and equal meanings.
pub proof fn parse_is_a_function(
    bytes: Seq<u8>,
    a: Result<ParseOutcome, ParseError>,
    b: Result<ParseOutcome, ParseError>,
)
    requires
        parses_to(bytes, a),
        parses_to(bytes, b),
    ensures
        a == b,
{
    if a is Ok && bytes[2] == TYPE_RC_CHANNELS_PACKED {
        let fa = a->Ok_0->Frame_0->RcChannels_0;
        let fb = b->Ok_0->Frame_0->RcChannels_0;
        assert(fa.channels@ == fb.channels@);
        assert(fa.channels == fb.channels);
    }
}

/// An accepted frame with one byte behind its header altered is rejected for
/// its crc, whichever byte it is.
pub proof fn one_altered_byte_is_caught(bytes: Seq<u8>, at: int, other: u8)
    requires
        verdict(bytes) is Ok,
        2 <= at < bytes.len(),
        other != bytes[at],
    ensures
        verdict(bytes.update(at, other)) == Err::<(), ParseError>(ParseError::CrcMismatch),
{
    let changed = bytes.update(at, other);
    let covered = bytes.subrange(2, bytes.len() - 1);
    if at == bytes.len() - 1 {
        assert(changed.subrange(2, changed.len() - 1) == covered);
    } else {
        assert(changed.subrange(2, changed.len() - 1) == covered.update(at - 2, other));
        super::crc::one_altered_byte_changes_the_crc(covered, at - 2, other);
    }
}

/// Every unpacked channel is an 11-bit code point.
pub proof fn packed_channels_are_eleven_bits(payload: Seq<u8>, i: int)
    ensures
        0 <= packed_channel(payload, i) <= 2047,
{
}

/// The packing of 16 code points, 11 bits each with channel 0 lowest, as one
/// number.
pub open spec fn packed_number(channels: Seq<u16>) -> nat
    decreases channels.len(),
{
    if channels.len() == 0 {
        0
    } else {
        packed_number(channels.drop_last()) + channels.last() as nat * pow2(
            11 * (channels.len() - 1) as nat,
        )
    }
}

proof fn lemma_packed_number(channels: Seq<u16>, i: int)
    requires
        0 <= i < channels.len(),
        forall|j: int| 0 <= j < channels.len() ==> #[trigger] channels[j] <= 2047,
    ensures
        packed_number(channels) < pow2(11 * channels.len()),
        (packed_number(channels) as int / pow2(11 * i as nat) as int) % 2048 == channels[i],
    decreases channels.len(),
{
    vstd::arithmetic::power2::lemma2_to64();
    let n = (channels.len() - 1) as nat;
    let head = channels.drop_last();
    let last = channels.last() as int;
    let top = pow2(11 * n) as int;
    let p = pow2(11 * i as nat) as int;
    let x = packed_number(head) as int;
    vstd::arithmetic::power2::lemma_pow2_pos(11 * n);
    vstd::arithmetic::power2::lemma_pow2_pos(11 * i as nat);
    if n == 0 {
        assert(x == 0);
        assert(top == 1);
    } else {
        lemma_packed_number(head, 0);
    }
    assert(x < top);
    vstd::arithmetic::power2::lemma_pow2_adds(11 * n, 11);
    assert(last * top <= 2047 * top) by (nonlinear_arith)
        requires
            last <= 2047,
            top > 0,
    ;
    if i == n {
        vstd::arithmetic::div_mod::lemma_hoist_over_denominator(x, last, p as nat);
        vstd::arithmetic::div_mod::lemma_basic_div(x, p);
        vstd::arithmetic::div_mod::lemma_small_mod(last as nat, 2048);
    } else {
        lemma_packed_number(head, i);
        let rest = pow2((11 * (n - i) - 11) as nat) as int;
        vstd::arithmetic::power2::lemma_pow2_adds(11, (11 * (n - i) - 11) as nat);
        vstd::arithmetic::power2::lemma_pow2_adds(11 * i as nat, (11 * (n - i)) as nat);
        assert(top == p * (2048 * rest));
        assert(last * top == (2048 * (last * rest)) * p) by (nonlinear_arith)
            requires
                top == p * (2048 * rest),
        ;
        vstd::arithmetic::div_mod::lemma_hoist_over_denominator(x, 2048 * (last * rest), p as nat);
        vstd::arithmetic::div_mod::lemma_mod_multiples_vanish(last * rest, x / p, 2048);
    }
}

/// Unpacking gives back what was packed: a payload that carries 16 code
/// points of at most 11 bits each decodes to exactly those code points.
pub proof fn unpacking_inverts_packing(payload: Seq<u8>, channels: Seq<u16>, f: RcChannelsFrame)
    requires
        channels.len() == 16,
        forall|j: int| 0 <= j < 16 ==> #[trigger] channels[j] <= 2047,
        little_endian(payload) == packed_number(channels),
        holds_channels(payload, f),
    ensures
        f.channels@ == channels,
{
    assert forall|i: int| 0 <= i < 16 implies f.channels@[i] == channels[i] by {
        lemma_packed_number(channels, i);
    }
}

/// A slice is a frame exactly when its second byte, from 2 to 62, counts the
/// bytes behind it, its first is 0xC8 or 0xEA, its last is the checksum of
/// everything between the length and it, and a channels frame, type 0x16, is
/// 26 bytes long and a statistics frame, type 0x14, 14. The first of these to
/// fail, in that order, names the reason.
pub proof fn frame_by_its_bytes(bytes: Seq<u8>)
    ensures
        ({
            let n = bytes.len() as int;
            let counted = 2 <= bytes[1] <= 62;
            let whole = n == 2 + bytes[1];
            let addressed = bytes[0] == 0xC8 || bytes[0] == 0xEA;
            let checked = super::crc::crc(bytes.subrange(2, n - 1)) == bytes[n - 1];
            let fitting = (bytes[2] == 0x16 ==> n == 26) && (bytes[2] == 0x14 ==> n == 14);
            let v = verdict(bytes);
            &&& n < 2 ==> v == Err::<(), ParseError>(ParseError::Truncated)
            &&& n >= 2 && !counted ==> v == Err::<(), ParseError>(ParseError::LengthOutOfRange)
            &&& n >= 2 && counted && !whole ==> v == Err::<(), ParseError>(ParseError::Truncated)
            &&& n >= 2 && counted && whole && !addressed ==> v == Err::<(), ParseError>(
                ParseError::BadAddress,
            )
            &&& n >= 2 && counted && whole && addressed && !checked ==> v == Err::<(), ParseError>(
                ParseError::CrcMismatch,
            )
            &&& n >= 2 && counted && whole && addressed && checked && !fitting ==> v == Err::<
                (),
                ParseError,
            >(ParseError::PayloadLength)
            &&& n >= 2 && counted && whole && addressed && checked && fitting ==> v is Ok
        }),
{
}

/// A frame of type 0x16 is the channels, one of type 0x14 the statistics, and
/// any other its own type, left undecoded.
pub proof fn outcome_by_type(bytes: Seq<u8>, r: Result<ParseOutcome, ParseError>)
    requires
        parses_to(bytes, r),
        r is Ok,
    ensures
        bytes[2] == 0x16 <==> r->Ok_0 matches ParseOutcome::Frame(Frame::RcChannels(_)),
        bytes[2] == 0x14 <==> r->Ok_0 matches ParseOutcome::Frame(Frame::LinkStatistics(_)),
        bytes[2] != 0x16 && bytes[2] != 0x14 ==> r->Ok_0 == (ParseOutcome::Unknown {
            frame_type: bytes[2],
        }),
{
}

/// The statistics are the ten payload bytes in order; the two signal-to-noise
/// ratios are two's-complement.
pub proof fn statistics_are_the_bytes_in_order(bytes: Seq<u8>, f: LinkStatisticsFrame)
    requires
        parses_to(
            bytes,
            Ok::<ParseOutcome, ParseError>(ParseOutcome::Frame(Frame::LinkStatistics(f))),
        ),
    ensures
        f.uplink_rssi_ant1 == bytes[3],
        f.uplink_rssi_ant2 == bytes[4],
        f.uplink_link_quality == bytes[5],
        bytes[6] < 128 ==> f.uplink_snr == bytes[6],
        bytes[6] >= 128 ==> f.uplink_snr == bytes[6] - 256,
        f.active_antenna == bytes[7],
        f.rf_mode == bytes[8],
        f.uplink_tx_power == bytes[9],
        f.downlink_rssi == bytes[10],
        f.downlink_link_quality == bytes[11],
        bytes[12] < 128 ==> f.downlink_snr == bytes[12],
        bytes[12] >= 128 ==> f.downlink_snr == bytes[12] - 256,
{
    let p = payload_of(bytes);
    assert(p[0] == bytes[3] && p[1] == bytes[4] && p[2] == bytes[5] && p[3] == bytes[6] && p[4]
        == bytes[7] && p[5] == bytes[8] && p[6] == bytes[9] && p[7] == bytes[10] && p[8]
        == bytes[11] && p[9] == bytes[12]);
}

/// A number that is a channel of 11 bits between what lies below and what lies
/// above it.
proof fn lemma_middle(x: int, low: int, channel: int, high: int, p: int)
    requires
        0 <= low < p,
        0 <= channel < 2048,
        0 <= high,
        x == low + p * (channel + 2048 * high),
    ensures
        (x / p) % 2048 == channel,
{
    let q = channel + 2048 * high;
    assert(p * q == q * p) by (nonlinear_arith);
    vstd::arithmetic::div_mod::lemma_fundamental_div_mod_converse(x, p, q, low);
    assert(x / p == channel + 2048 * high);
    vstd::arithmetic::div_mod::lemma_mod_multiples_vanish(high, channel, 2048);
    vstd::arithmetic::div_mod::lemma_small_mod(channel as nat, 2048);
}

/// The first eleven bytes as one number.
proof fn lemma_eleven_bytes(p: Seq<u8>)
    requires
        p.len() >= 11,
    ensures
        little_endian(p.take(11)) == p[0] + p[1] * 0x100 + p[2] * 0x1_0000 + p[3] * 0x100_0000
            + p[4] * 0x1_0000_0000 + p[5] * 0x100_0000_0000 + p[6] * 0x1_0000_0000_0000 + p[7]
            * 0x100_0000_0000_0000 + p[8] * 0x1_0000_0000_0000_0000int + p[9]
            * 0x100_0000_0000_0000_0000int + p[10] * 0x1_0000_0000_0000_0000_0000int,
{
    vstd::arithmetic::power2::lemma2_to64();
    vstd::arithmetic::power2::lemma2_to64_rest();
    vstd::arithmetic::power2::lemma_pow2_adds(64, 8);
    vstd::arithmetic::power2::lemma_pow2_adds(64, 16);
    assert(p.take(0) == Seq::<u8>::empty());
    assert(p.take(1).drop_last() == p.take(0));
    assert(p.take(2).drop_last() == p.take(1));
    assert(p.take(3).drop_last() == p.take(2));
    assert(p.take(4).drop_last() == p.take(3));
    assert(p.take(5).drop_last() == p.take(4));
    assert(p.take(6).drop_last() == p.take(5));
    assert(p.take(7).drop_last() == p.take(6));
    assert(p.take(8).drop_last() == p.take(7));
    assert(p.take(9).drop_last() == p.take(8));
    assert(p.take(10).drop_last() == p.take(9));
    assert(p.take(11).drop_last() == p.take(10));
    assert(little_endian(p.take(0)) == 0);
    assert(pow2(0) == 1);
    assert(p.take(1).last() == p[0]);
    assert(p[0] as nat * pow2(0) == p[0]);
    assert(little_endian(p.take(1)) == p[0]);
    assert(little_endian(p.take(2)) == little_endian(p.take(1)) + p[1] * 0x100);
    assert(little_endian(p.take(3)) == little_endian(p.take(2)) + p[2] * 0x1_0000);
    assert(little_endian(p.take(4)) == little_endian(p.take(3)) + p[3] * 0x100_0000);
    assert(little_endian(p.take(5)) == little_endian(p.take(4)) + p[4] * 0x1_0000_0000);
    assert(little_endian(p.take(6)) == little_endian(p.take(5)) + p[5] * 0x100_0000_0000);
    assert(little_endian(p.take(7)) == little_endian(p.take(6)) + p[6] * 0x1_0000_0000_0000);
    assert(little_endian(p.take(8)) == little_endian(p.take(7)) + p[7] * 0x100_0000_0000_0000);
    assert(little_endian(p.take(9)) == little_endian(p.take(8)) + p[8]
        * 0x1_0000_0000_0000_0000int);
    assert(little_endian(p.take(10)) == little_endian(p.take(9)) + p[9]
        * 0x100_0000_0000_0000_0000int);
    assert(little_endian(p.take(11)) == little_endian(p.take(10)) + p[10]
        * 0x1_0000_0000_0000_0000_0000int);
}

/// Each of the first eight channels by the bytes and parts of bytes it is made
/// of, the lowest bits first.
pub proof fn channels_by_their_bytes(p: Seq<u8>)
    requires
        p.len() >= 11,
    ensures
        packed_channel(p, 0) == p[0] + 0x100 * (p[1] % 8),
        packed_channel(p, 1) == p[1] / 8 + 0x20 * (p[2] % 64),
        packed_channel(p, 2) == p[2] / 64 + 4 * p[3] + 0x400 * (p[4] % 2),
        packed_channel(p, 3) == p[4] / 2 + 0x80 * (p[5] % 16),
        packed_channel(p, 4) == p[5] / 16 + 0x10 * (p[6] % 128),
        packed_channel(p, 5) == p[6] / 128 + 2 * p[7] + 0x200 * (p[8] % 4),
        packed_channel(p, 6) == p[8] / 4 + 0x40 * (p[9] % 32),
        packed_channel(p, 7) == p[9] / 32 + 8 * p[10],
{
    lemma_eleven_bytes(p);
    vstd::arithmetic::power2::lemma2_to64();
    vstd::arithmetic::power2::lemma2_to64_rest();
    vstd::arithmetic::power2::lemma_pow2_adds(64, 2);
    vstd::arithmetic::power2::lemma_pow2_adds(64, 13);
    let x = little_endian(p.take(11)) as int;
    lemma_channel_from_prefix(p, 11, 0);
    lemma_channel_from_prefix(p, 11, 11);
    lemma_channel_from_prefix(p, 11, 22);
    lemma_channel_from_prefix(p, 11, 33);
    lemma_channel_from_prefix(p, 11, 44);
    lemma_channel_from_prefix(p, 11, 55);
    lemma_channel_from_prefix(p, 11, 66);
    lemma_channel_from_prefix(p, 11, 77);
    let c0 = p[0] + 0x100 * (p[1] % 8);
    let c1 = p[1] / 8 + 0x20 * (p[2] % 64);
    let c2 = p[2] / 64 + 4 * p[3] + 0x400 * (p[4] % 2);
    let c3 = p[4] / 2 + 0x80 * (p[5] % 16);
    let c4 = p[5] / 16 + 0x10 * (p[6] % 128);
    let c5 = p[6] / 128 + 2 * p[7] + 0x200 * (p[8] % 4);
    let c6 = p[8] / 4 + 0x40 * (p[9] % 32);
    let c7 = p[9] / 32 + 8 * p[10];
    let h7 = 0int;
    let h6 = c7 + 0x800 * h7;
    let h5 = c6 + 0x800 * h6;
    let h4 = c5 + 0x800 * h5;
    let h3 = c4 + 0x800 * h4;
    let h2 = c3 + 0x800 * h3;
    let h1 = c2 + 0x800 * h2;
    let h0 = c1 + 0x800 * h1;
    assert(x == c0 + 0x800 * h0);
    let l1 = c0;
    let l2 = l1 + 0x800 * c1;
    let l3 = l2 + 0x40_0000 * c2;
    let l4 = l3 + 0x2_0000_0000 * c3;
    let l5 = l4 + 0x1000_0000_0000 * c4;
    let l6 = l5 + 0x80_0000_0000_0000 * c5;
    let l7 = l6 + 0x4_0000_0000_0000_0000int * c6;
    lemma_middle(x, 0, c0, h0, 1);
    lemma_middle(x, l1, c1, h1, 0x800);
    lemma_middle(x, l2, c2, h2, 0x40_0000);
    lemma_middle(x, l3, c3, h3, 0x2_0000_0000);
    lemma_middle(x, l4, c4, h4, 0x1000_0000_0000);
    lemma_middle(x, l5, c5, h5, 0x80_0000_0000_0000);
    lemma_middle(x, l6, c6, h6, 0x4_0000_0000_0000_0000int);
    lemma_middle(x, l7, c7, h7, 0x2000_0000_0000_0000_0000int);
}

proof fn lemma_little_endian_split(bytes: Seq<u8>, k: int)
    requires
        0 <= k <= bytes.len(),
    ensures
        little_endian(bytes) == little_endian(bytes.take(k)) + pow2(8 * k as nat) * little_endian(
            bytes.skip(k),
        ),
    decreases bytes.len() - k,
{
    vstd::arithmetic::power2::lemma2_to64();
    if k == bytes.len() {
        assert(bytes.take(k) == bytes);
        assert(bytes.skip(k) == Seq::<u8>::empty());
        assert(little_endian(Seq::<u8>::empty()) == 0);
    } else {
        let n = (bytes.len() - 1) as nat;
        let head = bytes.drop_last();
        lemma_little_endian_split(head, k);
        assert(head.take(k) == bytes.take(k));
        assert(bytes.skip(k).drop_last() == head.skip(k));
        let p = pow2(8 * k as nat) as int;
        let q = pow2((8 * n - 8 * k) as nat) as int;
        vstd::arithmetic::power2::lemma_pow2_adds(8 * k as nat, (8 * n - 8 * k) as nat);
        assert(8 * (bytes.skip(k).len() - 1) as nat == (8 * n - 8 * k) as nat);
        let b = bytes.last() as int;
        let y = little_endian(head.skip(k)) as int;
        assert(p * (y + b * q) == p * y + b * (p * q)) by (nonlinear_arith);
    }
}

/// The second eight channels are packed into the second eleven bytes as the
/// first eight are into the first.
pub proof fn second_half_repeats_the_first(p: Seq<u8>, i: int)
    requires
        p.len() == 22,
        0 <= i < 8,
    ensures
        packed_channel(p, i + 8) == packed_channel(p.skip(11), i),
{
    lemma_little_endian_split(p, 11);
    lemma_little_endian_prefix(p.take(11), 11);
    let low = little_endian(p.take(11)) as int;
    let high = little_endian(p.skip(11)) as int;
    let x = little_endian(p) as int;
    let a = pow2(88) as int;
    let b = pow2(11 * i as nat) as int;
    vstd::arithmetic::power2::lemma_pow2_pos(88);
    vstd::arithmetic::power2::lemma_pow2_pos(11 * i as nat);
    vstd::arithmetic::power2::lemma_pow2_adds(88, 11 * i as nat);
    assert(88 + 11 * i == 11 * (i + 8));
    assert(a * high == high * a) by (nonlinear_arith);
    vstd::arithmetic::div_mod::lemma_fundamental_div_mod_converse(x, a, high, low);
    vstd::arithmetic::div_mod::lemma_div_denominator(x, a, b);
    assert(x / (a * b) == high / b);
}

} // verus!
