//! Serial actuator backend: transmit-only per-channel-output-to-line encoder
//! behind the driver trait.
//!
//! ## Wire format
//!
//! One ASCII line per tick, positional integer microseconds, one field per
//! declared channel:
//!
//! ```text
//! $CXOUT,<us0>,<us1>,...*HH\r\n
//! ```
//!
//! NMEA-0183-style framing, `HH` the standard XOR checksum, upper-case hex,
//! over every byte between `$` and `*`. The far end copies each field straight
//! to its matching PWM channel. The line rate is the keepalive: a line goes
//! out on every tick, zero demand included, and the far end fails safe on
//! silence.

use vstd::prelude::*;

use super::output::{ActuatorSink, Emission, OutputFrame};
use super::pwm::{drive, settle, Drive, PwmChannel};
use super::wire::{xor_of, COMMA, CR, DOLLAR, LF, STAR};
use super::Driver;
use crate::contract::{BoundedList, Timestamp};
use crate::scalar::Scalar;

verus! {

/// Channels this module will ever render in one line.
pub const MAX_CHANNELS: usize = 8;

/// `"$CXOUT"` (6) + up to `MAX_CHANNELS` fields, each a leading comma plus up
/// to 5 digits + `"*HH"` (3) + `"\r\n"` (2).
pub const MAX_LINE_LEN: usize = 59;

/// Errors `Driver` methods can surface. Writing outputs itself cannot fail.
#[derive(Copy, Clone, Debug, PartialEq, Eq, Structural)]
pub enum Error {
    /// A read was asked of this transmit-only driver.
    TransmitOnly,
}

/// The address and fields of a line: what its checksum covers.
pub open spec fn cxout_body(us: Seq<u16>) -> Seq<u8>
    decreases us.len(),
{
    if us.len() == 0 {
        seq![0x43, 0x58, 0x4f, 0x55, 0x54]
    } else {
        cxout_body(us.drop_last()).push(COMMA) + super::wire::decimal(us.last() as nat)
    }
}

/// The whole line.
pub open spec fn cxout_line(us: Seq<u16>) -> Seq<u8> {
    let body = cxout_body(us);
    seq![DOLLAR] + body + seq![STAR] + super::wire::hex_byte(super::wire::xor_fold(body)) + seq![
        CR,
        LF,
    ]
}

/// The physical output of an effector; an index out of range reads as zero
/// demand.
pub open spec fn value_at(values: Seq<Scalar>, index: usize) -> Scalar {
    if index < values.len() {
        values[index as int]
    } else {
        Scalar { bits: 0 }
    }
}

/// The pulse width a channel renders. A channel that stands partway and for
/// which no interpolation is given renders the center.
pub open spec fn rendered_us(
    ch: PwmChannel,
    values: Seq<Scalar>,
    raw_us: Seq<Scalar>,
    i: int,
) -> int {
    let d = super::pwm::drive_of(ch, value_at(values, ch.effector_index));
    if i < raw_us.len() {
        super::pwm::pulse(ch, d, raw_us[i])
    } else {
        super::pwm::pulse(
            ch,
            if d is Partway {
                Drive::Center
            } else {
                d
            },
            Scalar { bits: 0 },
        )
    }
}

/// The pulse widths of all channels, in channel order.
pub open spec fn rendered(
    channels: Seq<PwmChannel>,
    values: Seq<Scalar>,
    raw_us: Seq<Scalar>,
) -> Seq<u16> {
    Seq::new(channels.len(), |i: int| rendered_us(channels[i], values, raw_us, i) as u16)
}

/// Filler for fixed-capacity storage; the value carries no meaning.
impl Default for Drive {
    fn default() -> (d: Drive)
        ensures
            d == Drive::Center,
    {
        Drive::Center
    }
}

/// Transmit-only serial actuator backend. Holds its per-channel PWM
/// calibration: the serial far end is dumb, so microsecond rendering happens
/// here.
#[derive(Clone, Copy, Debug)]
pub struct ActuatorSerialDriver {
    channels: BoundedList<PwmChannel, 8>,
}

impl View for ActuatorSerialDriver {
    type V = Seq<PwmChannel>;

    /// The channels, in wire order.
    closed spec fn view(&self) -> Seq<PwmChannel> {
        self.channels@
    }
}

pub open spec fn all_calibrated(channels: Seq<PwmChannel>) -> bool {
    forall|i: int| 0 <= i < channels.len() ==> (#[trigger] channels[i]).calibrated()
}

fn pick(values: &[Scalar], index: usize) -> (v: Scalar)
    ensures
        v == value_at(values@, index),
{
    if index < values.len() {
        values[index]
    } else {
        Scalar::zero()
    }
}

/// Appends a number's decimal digits.
fn write_uint(line: &mut BoundedList<u8, 59>, n: u16)
    requires
        old(line)@.len() + super::wire::decimal(n as nat).len() <= 59,
    ensures
        final(line)@ == old(line)@ + super::wire::decimal(n as nat),
    decreases n,
{
    if n >= 10 {
        write_uint(line, n / 10);
    }
    let _ = line.push(0x30 + (n % 10) as u8);
    proof {
        assert(line@ == old(line)@ + super::wire::decimal(n as nat));
    }
}

/// Appends a byte as two upper-case hex digits.
fn write_hex_byte(line: &mut BoundedList<u8, 59>, byte: u8)
    requires
        old(line)@.len() + 2 <= 59,
    ensures
        final(line)@ == old(line)@ + super::wire::hex_byte(byte),
        super::wire::hex_value(final(line)@[old(line)@.len() as int]) == Some(byte as int / 16),
        super::wire::hex_value(final(line)@[old(line)@.len() as int + 1]) == Some(byte as int % 16),
{
    let hi: u8 = byte / 16;
    let lo: u8 = byte % 16;
    let first: u8 = if hi < 10 {
        0x30 + hi
    } else {
        0x41 + (hi - 10)
    };
    let second: u8 = if lo < 10 {
        0x30 + lo
    } else {
        0x41 + (lo - 10)
    };
    let _ = line.push(first);
    let _ = line.push(second);
    proof {
        assert(line@ == old(line)@ + super::wire::hex_byte(byte));
    }
}

/// A body grows by at most six bytes a field.
pub proof fn body_fits(us: Seq<u16>)
    ensures
        5 <= cxout_body(us).len() <= 5 + 6 * us.len(),
    decreases us.len(),
{
    if us.len() > 0 {
        body_fits(us.drop_last());
        super::wire::decimal_round_trips(us.last() as nat);
    }
}

/// Renders `us` as one `$CXOUT,<us0>,<us1>,...*HH\r\n` line, one field per
/// channel. Channels beyond `MAX_CHANNELS` are dropped.
pub fn render_line(us: &[u16]) -> (line: BoundedList<u8, 59>)
    ensures
        line@ == cxout_line(
            us@.take(
                if us@.len() < MAX_CHANNELS {
                    us@.len() as int
                } else {
                    MAX_CHANNELS as int
                },
            ),
        ),
{
    let n: usize = if us.len() < MAX_CHANNELS {
        us.len()
    } else {
        MAX_CHANNELS
    };
    let mut line: BoundedList<u8, 59> = BoundedList::new();
    let _ = line.push(DOLLAR);
    let _ = line.push(0x43);
    let _ = line.push(0x58);
    let _ = line.push(0x4f);
    let _ = line.push(0x55);
    let _ = line.push(0x54);
    proof {
        assert(us@.take(0) == Seq::<u16>::empty());
        assert(line@ == seq![DOLLAR] + cxout_body(us@.take(0)));
    }
    let mut i: usize = 0;
    while i < n
        invariant
            i <= n <= us@.len(),
            n <= 8,
            line@ == seq![DOLLAR] + cxout_body(us@.take(i as int)),
        decreases n - i,
    {
        let v: u16 = us[i];
        proof {
            body_fits(us@.take(i as int));
            super::wire::decimal_round_trips(v as nat);
            assert(us@.take(i + 1).drop_last() == us@.take(i as int));
        }
        let _ = line.push(COMMA);
        write_uint(&mut line, v);
        proof {
            assert(line@ == seq![DOLLAR] + cxout_body(us@.take(i + 1)));
        }
        i = i + 1;
    }
    let ghost body = cxout_body(us@.take(n as int));
    proof {
        body_fits(us@.take(n as int));
    }
    let all = line.as_slice();
    let checksum: u8 = xor_of(vstd::slice::slice_subrange(all, 1, all.len()));
    proof {
        assert(all@.subrange(1, all@.len() as int) == body);
    }
    let _ = line.push(STAR);
    write_hex_byte(&mut line, checksum);
    let _ = line.push(CR);
    let _ = line.push(LF);
    proof {
        assert(line@ == cxout_line(us@.take(n as int)));
    }
    line
}

impl ActuatorSerialDriver {
    pub fn new(channels: BoundedList<PwmChannel, 8>) -> (d: ActuatorSerialDriver)
        ensures
            d@ == channels@,
    {
        ActuatorSerialDriver { channels }
    }

    /// Where each channel's output stands on its calibration, for the host to
    /// interpolate those that stand partway.
    pub fn drives(&self, values: &[Scalar]) -> (drives: BoundedList<Drive, 8>)
        ensures
            drives@.len() == self@.len(),
            forall|i: int|
                0 <= i < self@.len() ==> #[trigger] drives@[i] == super::pwm::drive_of(
                    self@[i],
                    value_at(values@, self@[i].effector_index),
                ),
    {
        let channels = self.channels.as_slice();
        let mut drives: BoundedList<Drive, 8> = BoundedList::new();
        let mut i: usize = 0;
        while i < channels.len()
            invariant
                channels@ == self@,
                channels@.len() <= 8,
                i <= channels@.len(),
                drives@.len() == i,
                forall|k: int|
                    0 <= k < i ==> #[trigger] drives@[k] == super::pwm::drive_of(
                        self@[k],
                        value_at(values@, self@[k].effector_index),
                    ),
            decreases channels.len() - i,
        {
            let ch: PwmChannel = channels[i];
            let _ = drives.push(drive(&ch, pick(values, ch.effector_index)));
            i = i + 1;
        }
        drives
    }

    /// Renders each declared channel's physical output to microseconds through
    /// its calibration, then emits one `$CXOUT` line. `values` is the
    /// allocator's per-effector output; `raw_us` the host's interpolation, per
    /// channel, of those that stand partway.
    pub fn write_outputs<S: ActuatorSink>(
        &self,
        values: &[Scalar],
        raw_us: &[Scalar],
        sink: &mut S,
    )
        requires
            all_calibrated(self@),
        ensures
            final(sink).written() == old(sink).written().push(
                Emission::Serial(cxout_line(rendered(self@, values@, raw_us@))),
            ),
    {
        let channels = self.channels.as_slice();
        let mut us: BoundedList<u16, 8> = BoundedList::new();
        let mut i: usize = 0;
        while i < channels.len()
            invariant
                channels@ == self@,
                all_calibrated(channels@),
                channels@.len() <= 8,
                i <= channels@.len(),
                us@ == rendered(self@, values@, raw_us@).take(i as int),
            decreases channels.len() - i,
        {
            let ch: PwmChannel = channels[i];
            let d = drive(&ch, pick(values, ch.effector_index));
            let pulse: u16 = if i < raw_us.len() {
                settle(&ch, d, raw_us[i])
            } else {
                match d {
                    Drive::Partway { .. } => settle(&ch, Drive::Center, Scalar::zero()),
                    _ => settle(&ch, d, Scalar::zero()),
                }
            };
            let _ = us.push(pulse);
            proof {
                assert(us@ == rendered(self@, values@, raw_us@).take(i + 1));
            }
            i = i + 1;
        }
        let line = render_line(us.as_slice());
        proof {
            assert(us@ == rendered(self@, values@, raw_us@));
            assert(us@.take(us@.len() as int) == us@);
        }
        sink.emit(OutputFrame::Serial(line.as_slice()));
    }
}

impl Driver for ActuatorSerialDriver {
    /// There is no report path, so no reading ever needs a shape.
    type Reading = ();

    type Error = Error;

    open spec fn stamp_of(reading: ()) -> Timestamp {
        arbitrary()
    }

    /// Nothing to bring up: this driver owns no UART.
    fn init(&mut self) -> (r: Result<(), Error>)
        ensures
            r is Ok,
            *final(self) == *old(self),
    {
        Ok(())
    }

    /// No hardware to probe and no state to check.
    fn self_test(&mut self) -> (r: Result<(), Error>)
        ensures
            r is Ok,
            *final(self) == *old(self),
    {
        Ok(())
    }

    /// This driver is transmit-only: a read errors rather than fabricating a
    /// reading.
    fn read_with_timestamp(&mut self, acquired_at: Timestamp) -> (r: Result<(), Error>)
        ensures
            r == Err::<(), Error>(Error::TransmitOnly),
            *final(self) == *old(self),
    {
        Err(Error::TransmitOnly)
    }
}

/// A line is `$CXOUT`, then per channel, in order, a comma and the channel's
/// decimal digits, then `*`, the upper-case hex of the XOR of everything
/// between `$` and `*`, high half first, and CR LF.
pub proof fn line_by_its_bytes(us: Seq<u16>)
    ensures
        ({
            let line = cxout_line(us);
            let n = line.len() as int;
            let covered = line.subrange(1, n - 5);
            let sum = super::wire::xor_fold(covered);
            &&& n >= 11
            &&& line[0] == 0x24
            &&& line[1] == 0x43 && line[2] == 0x58 && line[3] == 0x4f && line[4] == 0x55 && line[5]
                == 0x54
            &&& line[n - 5] == 0x2a
            &&& super::wire::hex_value(line[n - 4]) == Some(sum as int / 16)
            &&& super::wire::hex_value(line[n - 3]) == Some(sum as int % 16)
            &&& line[n - 2] == 0x0d && line[n - 1] == 0x0a
            &&& covered == cxout_body(us)
        }),
{
    let body = cxout_body(us);
    let line = cxout_line(us);
    let n = line.len() as int;
    body_fits(us);
    lemma_address(us);
    assert(line.subrange(1, n - 5) == body);
    assert(line[1] == body[0] && line[2] == body[1] && line[3] == body[2] && line[4] == body[3]
        && line[5] == body[4]);
    super::wire::hex_round_trips(super::wire::xor_fold(body));
}

proof fn lemma_address(us: Seq<u16>)
    ensures
        cxout_body(us).len() >= 5,
        cxout_body(us)[0] == 0x43 && cxout_body(us)[1] == 0x58 && cxout_body(us)[2] == 0x4f
            && cxout_body(us)[3] == 0x55 && cxout_body(us)[4] == 0x54,
    decreases us.len(),
{
    if us.len() > 0 {
        let head = cxout_body(us.drop_last());
        lemma_address(us.drop_last());
        assert(forall|i: int| 0 <= i < head.len() ==> #[trigger] cxout_body(us)[i] == head[i]);
    }
}

/// One more channel puts a comma and its decimal digits behind the fields of
/// the channels before it, which stay as they are; without channels there are
/// no fields.
pub proof fn fields_follow_in_channel_order(us: Seq<u16>, next: u16)
    ensures
        cxout_body(Seq::<u16>::empty()).len() == 5,
        cxout_body(us.push(next)) == cxout_body(us) + seq![0x2cu8] + super::wire::decimal(
            next as nat,
        ),
        super::wire::decimal_value(
            cxout_body(us.push(next)).skip(cxout_body(us).len() as int + 1),
        ) == next,
{
    assert(us.push(next).drop_last() == us);
    let digits = super::wire::decimal(next as nat);
    assert(cxout_body(us).push(COMMA) + digits == cxout_body(us) + seq![0x2cu8] + digits);
    assert((cxout_body(us) + seq![0x2cu8] + digits).skip(cxout_body(us).len() as int + 1)
        == digits);
    super::wire::decimal_round_trips(next as nat);
}

/// Each channel renders the output at its own effector index and no other, in
/// channel order: zero, or no such output, renders its center; the full output
/// of a side and anything beyond renders that side's endpoint; and what is
/// partway renders by its own interpolation.
pub proof fn each_channel_renders_its_own_effector(
    channels: Seq<PwmChannel>,
    values: Seq<Scalar>,
    raw_us: Seq<Scalar>,
    i: int,
)
    requires
        0 <= i < channels.len(),
        channels[i].us_min <= channels[i].us_center <= channels[i].us_max,
        channels[i].max_pos.finite() && channels[i].max_pos.units() > 0,
        channels[i].max_neg.finite() && channels[i].max_neg.units() > 0,
    ensures
        rendered(channels, values, raw_us).len() == channels.len(),
        ({
            let ch = channels[i];
            let us = rendered(channels, values, raw_us)[i];
            let index = ch.effector_index as int;
            let ahead_us = if ch.reversed {
                ch.us_min
            } else {
                ch.us_max
            };
            let astern_us = if ch.reversed {
                ch.us_max
            } else {
                ch.us_min
            };
            &&& index >= values.len() ==> us == ch.us_center
            &&& index < values.len() && !values[index].nan() ==> {
                let v = values[index].units();
                &&& v == 0 ==> us == ch.us_center
                &&& v >= ch.max_pos.units() ==> us == ahead_us
                &&& v <= -ch.max_neg.units() ==> us == astern_us
                &&& -ch.max_neg.units() < v < ch.max_pos.units() && v != 0 && i < raw_us.len()
                    && !raw_us[i].nan() && raw_us[i].units() <= super::pwm::whole_us(ch.us_min)
                    ==> us == ch.us_min
                &&& -ch.max_neg.units() < v < ch.max_pos.units() && v != 0 && i < raw_us.len()
                    && !raw_us[i].nan() && raw_us[i].units() >= super::pwm::whole_us(ch.us_max)
                    ==> us == ch.us_max
                &&& -ch.max_neg.units() < v < ch.max_pos.units() && v != 0 && i < raw_us.len()
                    && !raw_us[i].nan() && super::pwm::whole_us(ch.us_min) <= raw_us[i].units()
                    <= super::pwm::whole_us(ch.us_max) ==> {
                    let one = vstd::arithmetic::power2::pow2(1074) as int;
                    2 * (us * one - raw_us[i].units()) <= one && 2 * (raw_us[i].units() - us * one)
                        < one
                }
            }
        }),
{
    let ch = channels[i];
    let zero = Scalar { bits: 0 };
    super::pwm::output_stands_by_the_channel_fields(ch, zero);
    crate::scalar::pattern_classes(zero);
    let index = ch.effector_index as int;
    if index < values.len() && !values[index].nan() {
        let value = values[index];
        super::pwm::output_stands_by_the_channel_fields(ch, value);
        if i < raw_us.len() {
            if let Drive::Partway { endpoint_us, magnitude, full } = super::pwm::drive_of(
                ch,
                value,
            ) {
                if !raw_us[i].nan() {
                    super::pwm::pulse_is_the_nearest_microsecond(
                        ch,
                        endpoint_us,
                        magnitude,
                        full,
                        raw_us[i],
                    );
                }
            }
        }
    }
}

} // verus!
