//! Power reports: the reverse direction of the actuator link.
//!
//! The actuator MCU reports bus voltage back on the same wire, one line per
//! report, same framing as `$CXOUT`:
//!
//! ```text
//! $CXPWR,<voltage_v>*HH\r\n
//! ```
//!
//! The link is ours end to end and its only other traffic is an echo of the
//! lines we sent, so a line whose address is not `CXPWR` is skipped without an
//! error.

use vstd::prelude::*;

use super::wire::{hex_val, xor_of, COMMA, CR, DOLLAR, LF, STAR};
use crate::contract::{BoundedList, PowerStatus, Timestamp};
use crate::scalar::Scalar;

verus! {

/// Errors for a line whose address matched `CXPWR`.
#[derive(Copy, Clone, Debug, PartialEq, Eq, Structural)]
pub enum PowerError {
    /// `*hh` missing, malformed, or not matching the payload's XOR fold.
    BadChecksum,
    /// The voltage field did not parse as a number, or parsed to something
    /// unusable as a bus voltage: NaN, an infinity, or negative.
    InvalidVoltage,
}

/// Longest line this reader keeps before giving up on it as unrecognized:
/// generous versus any real report, and comfortably past the longest `$CXOUT`
/// line so that a full echo is skipped by its address.
pub const MAX_POWER_LINE_LEN: usize = 64;

/// The voltage field of a report whose framing and checksum are good, for the
/// host to read as a number.
#[derive(Copy, Clone, Debug)]
pub struct PowerField {
    pub t: Timestamp,
    pub text: BoundedList<u8, 64>,
}

/// `$CXPWR,`
pub open spec fn power_prefix() -> Seq<u8> {
    seq![DOLLAR, 0x43, 0x58, 0x50, 0x57, 0x52, COMMA]
}

/// A line without its terminator that reports `field`.
pub open spec fn power_line(field: Seq<u8>) -> Seq<u8> {
    let body = power_prefix().skip(1) + field;
    seq![DOLLAR] + body + seq![STAR] + super::wire::hex_byte(super::wire::xor_fold(body))
}

/// What an accumulated line is.
pub ghost enum PowerLine {
    /// Not a power report.
    NotOurs,
    /// A power report whose checksum is missing, malformed or wrong.
    Corrupt,
    /// A power report with this voltage field.
    Field(Seq<u8>),
}

/// A line is ours when it starts with `$CXPWR,`. Its last three bytes must
/// then be `*` and two hex digits that spell the XOR of everything between
/// `$` and that `*`; the field is what stands between.
pub open spec fn power_line_of(line: Seq<u8>) -> PowerLine {
    if line.len() < 7 || line.take(7) != power_prefix() {
        PowerLine::NotOurs
    } else {
        let n = line.len() as int;
        if n < 10 || line[n - 3] != STAR || super::wire::hex_value(line[n - 2]) is None
            || super::wire::hex_value(line[n - 1]) is None || super::wire::xor_fold(
            line.subrange(1, n - 3),
        ) != super::wire::hex_value(line[n - 2])->0 * 16 + super::wire::hex_value(line[n - 1])->0 {
            PowerLine::Corrupt
        } else {
            PowerLine::Field(line.subrange(7, n - 3))
        }
    }
}

/// What one more byte makes of the line being accumulated; `None` stands for
/// waiting for the next `$`.
pub open spec fn line_after(line: Option<Seq<u8>>, byte: u8) -> Option<Seq<u8>> {
    if byte == DOLLAR {
        Some(seq![DOLLAR])
    } else if byte == CR || byte == LF {
        None
    } else {
        match line {
            None => None,
            Some(l) => if l.len() >= MAX_POWER_LINE_LEN {
                None
            } else {
                Some(l.push(byte))
            },
        }
    }
}

/// Whether a byte ends an accumulated line.
pub open spec fn line_ends(line: Option<Seq<u8>>, byte: u8) -> bool {
    line is Some && (byte == CR || byte == LF)
}

/// Whether `r` is what the reader hands out for a byte.
pub open spec fn hands_out(
    line: Option<Seq<u8>>,
    byte: u8,
    t: Timestamp,
    r: Option<Result<PowerField, PowerError>>,
) -> bool {
    if !line_ends(line, byte) {
        r is None
    } else {
        match power_line_of(line->0) {
            PowerLine::NotOurs => r is None,
            PowerLine::Corrupt => r == Some(Err::<PowerField, PowerError>(PowerError::BadChecksum)),
            PowerLine::Field(text) => r matches Some(Ok(f)) && f.t == t && f.text@ == text,
        }
    }
}

/// Push-based reader for `$CXPWR` reports. Byte-fed and pure: no UART, no
/// clock.
pub struct PowerReportReader {
    buf: BoundedList<u8, 64>,
    /// `true` once a `$` has been seen and not yet terminated.
    active: bool,
}

impl View for PowerReportReader {
    type V = Option<Seq<u8>>;

    /// The line being accumulated, from its `$`.
    closed spec fn view(&self) -> Option<Seq<u8>> {
        if self.active {
            Some(self.buf@)
        } else {
            None
        }
    }
}

impl PowerReportReader {
    pub fn new() -> (r: PowerReportReader)
        ensures
            r@ is None,
    {
        PowerReportReader { buf: BoundedList::new(), active: false }
    }

    /// Feed one byte, acquired at `acquired_at`. `Some` exactly when a line
    /// terminator ends a `$CXPWR` line. Any other line - an echoed `$CXOUT`,
    /// noise, a line that outgrows the buffer before a terminator - resolves
    /// to `None`. A fresh `$` always resyncs, even mid-line.
    pub fn push(&mut self, byte: u8, acquired_at: Timestamp) -> (r: Option<
        Result<PowerField, PowerError>,
    >)
        ensures
            final(self)@ == line_after(old(self)@, byte),
            hands_out(old(self)@, byte, acquired_at, r),
    {
        if byte == DOLLAR {
            let mut buf: BoundedList<u8, 64> = BoundedList::new();
            let _ = buf.push(DOLLAR);
            proof {
                assert(buf@ == seq![DOLLAR]);
            }
            self.buf = buf;
            self.active = true;
            return None;
        }
        if byte == CR || byte == LF {
            if !self.active {
                return None;  // stray terminator between lines
            }
            self.active = false;
            return parse_power_line(self.buf.as_slice(), acquired_at);
        }
        if !self.active {
            return None;  // noise before the next '$'
        }
        if self.buf.push(byte).is_err() {
            // Nothing this reader cares about is ever this long; resync
            // quietly.
            self.active = false;
        }
        None
    }
}

impl Default for PowerReportReader {
    fn default() -> (r: PowerReportReader)
        ensures
            r@ is None,
    {
        Self::new()
    }
}

/// Parses one accumulated line without its terminator.
fn parse_power_line(line: &[u8], acquired_at: Timestamp) -> (r: Option<
    Result<PowerField, PowerError>,
>)
    requires
        line@.len() <= 64,
    ensures
        match power_line_of(line@) {
            PowerLine::NotOurs => r is None,
            PowerLine::Corrupt => r == Some(Err::<PowerField, PowerError>(PowerError::BadChecksum)),
            PowerLine::Field(text) => r matches Some(Ok(f)) && f.t == acquired_at && f.text@
                == text,
        },
{
    let n: usize = line.len();
    if n < 7 {
        return None;
    }
    let ours = line[0] == DOLLAR && line[1] == 0x43 && line[2] == 0x58 && line[3] == 0x50
        && line[4] == 0x57 && line[5] == 0x52 && line[6] == COMMA;
    proof {
        let head = line@.take(7);
        if ours {
            assert(head == power_prefix());
        } else {
            assert(head[0] == line@[0] && head[1] == line@[1] && head[2] == line@[2] && head[3]
                == line@[3] && head[4] == line@[4] && head[5] == line@[5] && head[6] == line@[6]);
        }
    }
    if !ours {
        return None;
    }
    if n < 10 || line[n - 3] != STAR {
        return Some(Err(PowerError::BadChecksum));
    }
    match (hex_val(line[n - 2]), hex_val(line[n - 1])) {
        (Some(hi), Some(lo)) => {
            let expected: u8 = hi * 16 + lo;
            if xor_of(vstd::slice::slice_subrange(line, 1, n - 3)) != expected {
                return Some(Err(PowerError::BadChecksum));
            }
            match BoundedList::from_slice(vstd::slice::slice_subrange(line, 7, n - 3)) {
                Ok(text) => Some(Ok(PowerField { t: acquired_at, text })),
                Err(_) => Some(Err(PowerError::BadChecksum)),
            }
        },
        _ => Some(Err(PowerError::BadChecksum)),
    }
}

/// A number that is usable as a bus voltage: finite and not negative.
pub open spec fn usable_voltage(v: Scalar) -> bool {
    v.finite() && v.units() >= 0
}

impl PowerField {
    /// The report of a field, given what the host read from its text: `None`
    /// when the text is not a number.
    pub fn report(&self, parsed: Option<Scalar>) -> (r: Result<PowerStatus, PowerError>)
        ensures
            match r {
                Ok(status) => status.t == self.t && parsed == Some(status.voltage_v)
                    && usable_voltage(status.voltage_v),
                Err(e) => e == PowerError::InvalidVoltage && (parsed is None || !usable_voltage(
                    parsed->0,
                )),
            },
            r is Ok <==> parsed is Some && parsed->0.finite() && parsed->0.units() >= 0,
    {
        match parsed {
            None => Err(PowerError::InvalidVoltage),
            Some(v) => if !v.is_finite() || v.lt(Scalar::zero()) {
                Err(PowerError::InvalidVoltage)
            } else {
                Ok(PowerStatus { t: self.t, voltage_v: v })
            },
        }
    }
}

/// The line being accumulated after a stream of bytes.
pub open spec fn line_after_all(line: Option<Seq<u8>>, bytes: Seq<u8>) -> Option<Seq<u8>>
    decreases bytes.len(),
{
    if bytes.len() == 0 {
        line
    } else {
        line_after(line_after_all(line, bytes.drop_last()), bytes.last())
    }
}

/// The lines that a stream of bytes ends, in order.
pub open spec fn lines_ended(line: Option<Seq<u8>>, bytes: Seq<u8>) -> Seq<Seq<u8>>
    decreases bytes.len(),
{
    if bytes.len() == 0 {
        Seq::empty()
    } else {
        let before = line_after_all(line, bytes.drop_last());
        let ended = lines_ended(line, bytes.drop_last());
        if line_ends(before, bytes.last()) {
            ended.push(before->0)
        } else {
            ended
        }
    }
}

/// A byte that neither starts nor ends a line.
pub open spec fn plain(b: u8) -> bool {
    b != DOLLAR && b != CR && b != LF
}

/// Whatever the reader has seen before, a `$` and plain bytes that fit
/// accumulate into exactly that line and end none.
pub proof fn fresh_line_accumulates(before: Option<Seq<u8>>, rest: Seq<u8>)
    requires
        rest.len() < MAX_POWER_LINE_LEN,
        forall|i: int| 0 <= i < rest.len() ==> plain(#[trigger] rest[i]),
    ensures
        line_after_all(before, seq![DOLLAR] + rest) == Some(seq![DOLLAR] + rest),
        lines_ended(before, seq![DOLLAR] + rest) == Seq::<Seq<u8>>::empty(),
    decreases rest.len(),
{
    let all = seq![DOLLAR] + rest;
    if rest.len() == 0 {
        assert(all.drop_last() == Seq::<u8>::empty());
        assert(all == seq![DOLLAR]);
        assert(line_after_all(before, Seq::<u8>::empty()) == before);
        assert(lines_ended(before, Seq::<u8>::empty()) == Seq::<Seq<u8>>::empty());
    } else {
        let head = rest.drop_last();
        assert(all.drop_last() == seq![DOLLAR] + head);
        assert(all.last() == rest[rest.len() - 1]);
        assert forall|i: int| 0 <= i < head.len() implies plain(#[trigger] head[i]) by {
            assert(head[i] == rest[i]);
        }
        fresh_line_accumulates(before, head);
        assert((seq![DOLLAR] + head).push(rest.last()) == all);
    }
}

/// A line that is written as a report reads back as that report.
pub proof fn report_round_trips(field: Seq<u8>)
    ensures
        power_line_of(power_line(field)) == PowerLine::Field(field),
{
    let line = power_line(field);
    let body = power_prefix().skip(1) + field;
    let n = line.len() as int;
    assert(line.take(7) == power_prefix());
    assert(line.subrange(1, n - 3) == body);
    assert(line.subrange(7, n - 3) == field);
    super::wire::hex_round_trips(super::wire::xor_fold(body));
}

/// A report with a field of plain bytes that fits, fed with its terminator to
/// a reader in any state, is handed out exactly once with exactly that field,
/// whatever was abandoned before it.
pub proof fn report_is_read_back(before: Option<Seq<u8>>, field: Seq<u8>, terminator: u8)
    requires
        field.len() <= MAX_POWER_LINE_LEN - 10,
        forall|i: int| 0 <= i < field.len() ==> plain(#[trigger] field[i]),
        terminator == CR || terminator == LF,
    ensures
        lines_ended(before, power_line(field).push(terminator)) == seq![power_line(field)],
        power_line_of(power_line(field)) == PowerLine::Field(field),
        line_after_all(before, power_line(field).push(terminator)) is None,
{
    let line = power_line(field);
    let rest = line.skip(1);
    let body = power_prefix().skip(1) + field;
    let hex = super::wire::hex_byte(super::wire::xor_fold(body));
    assert(line == seq![DOLLAR] + rest);
    super::wire::hex_round_trips(super::wire::xor_fold(body));
    assert forall|i: int| 0 <= i < rest.len() implies plain(#[trigger] rest[i]) by {
        if i < 6 {
            assert(rest[i] == power_prefix()[i + 1]);
        } else if i < 6 + field.len() {
            assert(rest[i] == field[i - 6]);
        } else if i == 6 + field.len() {
            assert(rest[i] == STAR);
        } else {
            assert(rest[i] == hex[i - 7 - field.len()]);
        }
    }
    fresh_line_accumulates(before, rest);
    report_round_trips(field);
    let all = line.push(terminator);
    assert(all.drop_last() == line);
    assert(Seq::<Seq<u8>>::empty().push(line) == seq![line]);
}

/// The body of a command line holds only upper-case letters, digits and
/// commas.
proof fn lemma_echo_is_plain(us: Seq<u16>)
    ensures
        forall|i: int|
            0 <= i < super::actuator_serial::cxout_body(us).len() ==> plain(
                #[trigger] super::actuator_serial::cxout_body(us)[i],
            ),
        super::actuator_serial::cxout_body(us).len() >= 5,
        super::actuator_serial::cxout_body(us)[2] == 0x4f,
    decreases us.len(),
{
    let body = super::actuator_serial::cxout_body(us);
    if us.len() > 0 {
        lemma_echo_is_plain(us.drop_last());
        super::wire::decimal_round_trips(us.last() as nat);
        let head = super::actuator_serial::cxout_body(us.drop_last());
        let digits = super::wire::decimal(us.last() as nat);
        assert forall|i: int| 0 <= i < body.len() implies plain(#[trigger] body[i]) by {
            if i < head.len() {
                assert(body[i] == head[i]);
            } else if i == head.len() {
                assert(body[i] == COMMA);
            } else {
                assert(body[i] == digits[i - head.len() - 1]);
            }
        }
        assert(body[2] == head[2]);
    }
}

/// An echo of any command line the backend can send is skipped without an
/// error by a reader in any state, and leaves it waiting for the next line.
pub proof fn echo_is_skipped(before: Option<Seq<u8>>, us: Seq<u16>)
    requires
        us.len() <= super::actuator_serial::MAX_CHANNELS,
    ensures
        line_after_all(before, super::actuator_serial::cxout_line(us)) is None,
        lines_ended(before, super::actuator_serial::cxout_line(us)).len() == 1,
        power_line_of(lines_ended(before, super::actuator_serial::cxout_line(us))[0])
            == PowerLine::NotOurs,
        super::actuator_serial::cxout_line(us).len() <= super::actuator_serial::MAX_LINE_LEN,
{
    let body = super::actuator_serial::cxout_body(us);
    let hex = super::wire::hex_byte(super::wire::xor_fold(body));
    let rest = body + seq![STAR] + hex;
    let line = seq![DOLLAR] + rest;
    let all = super::actuator_serial::cxout_line(us);
    super::actuator_serial::body_fits(us);
    lemma_echo_is_plain(us);
    super::wire::hex_round_trips(super::wire::xor_fold(body));
    assert forall|i: int| 0 <= i < rest.len() implies plain(#[trigger] rest[i]) by {
        if i < body.len() {
            assert(rest[i] == body[i]);
        } else if i == body.len() {
            assert(rest[i] == STAR);
        } else {
            assert(rest[i] == hex[i - body.len() - 1]);
        }
    }
    fresh_line_accumulates(before, rest);
    let with_cr = line.push(CR);
    assert(with_cr.drop_last() == line);
    assert(all.drop_last() == with_cr);
    assert(all.last() == LF);
    assert(lines_ended(before, with_cr) == seq![line]);
    assert(line_after_all(before, with_cr) is None);
    assert(lines_ended(before, all) == seq![line]);
    assert(line[3] == body[2]);
    assert(line.len() >= 7 ==> line.take(7)[3] == 0x4f);
}

/// A line is a power report exactly when it starts with the bytes `$CXPWR,`.
/// It is then sound exactly when it ends in `*` and two hex digits, of either
/// case, that spell, high half first, the XOR of everything between `$` and
/// that `*`; its field is every byte between the comma and the `*`.
pub proof fn report_by_its_bytes(line: Seq<u8>)
    ensures
        ({
            let n = line.len() as int;
            let ours = n >= 7 && line[0] == 0x24 && line[1] == 0x43 && line[2] == 0x58 && line[3]
                == 0x50 && line[4] == 0x57 && line[5] == 0x52 && line[6] == 0x2c;
            &&& power_line_of(line) is NotOurs <==> !ours
            &&& power_line_of(line) is Field <==> ours && n >= 10 && line[n - 3] == 0x2a
                && super::wire::hex_value(line[n - 2]) is Some && super::wire::hex_value(
                line[n - 1],
            ) is Some && super::wire::xor_fold(line.subrange(1, n - 3)) == 16
                * super::wire::hex_value(line[n - 2])->0 + super::wire::hex_value(line[n - 1])->0
            &&& power_line_of(line) matches PowerLine::Field(field) ==> field.len() == n - 10
                && forall|i: int| 0 <= i < n - 10 ==> #[trigger] field[i] == line[7 + i]
        }),
{
    if line.len() >= 7 {
        let head = line.take(7);
        assert(head[0] == line[0] && head[1] == line[1] && head[2] == line[2] && head[3] == line[3]
            && head[4] == line[4] && head[5] == line[5] && head[6] == line[6]);
        if line[0] == 0x24 && line[1] == 0x43 && line[2] == 0x58 && line[3] == 0x50 && line[4]
            == 0x57 && line[5] == 0x52 && line[6] == 0x2c {
            assert(head == power_prefix());
        }
    }
}

/// A `$` starts a line whatever came before; CR and LF end one; any other byte
/// joins the line being accumulated, up to 64 bytes, beyond which the line is
/// given up; without a line it is skipped.
pub proof fn line_grows_by_bytes(line: Option<Seq<u8>>, byte: u8)
    ensures
        byte == 0x24 ==> line_after(line, byte) == Some(seq![0x24u8]) && !line_ends(line, byte),
        byte == 0x0d || byte == 0x0a ==> line_after(line, byte) is None && (line_ends(line, byte)
            <==> line is Some),
        byte != 0x24 && byte != 0x0d && byte != 0x0a ==> {
            &&& !line_ends(line, byte)
            &&& line is None ==> line_after(line, byte) is None
            &&& line is Some && line->0.len() < 64 ==> line_after(line, byte) == Some(
                line->0.push(byte),
            )
            &&& line is Some && line->0.len() >= 64 ==> line_after(line, byte) is None
        },
{
}

/// Something is handed out exactly when a terminator ends a power report: the
/// field with the time of that terminator, or a checksum error.
pub proof fn report_is_handed_out_at_its_terminator(
    line: Seq<u8>,
    byte: u8,
    t: Timestamp,
    r: Option<Result<PowerField, PowerError>>,
    stray: Option<Result<PowerField, PowerError>>,
)
    requires
        hands_out(Some(line), byte, t, r),
        hands_out(None, byte, t, stray),
    ensures
        stray is None,
        r is Some <==> (byte == 0x0d || byte == 0x0a) && !(power_line_of(line) is NotOurs),
        r matches Some(Ok(f)) ==> f.t == t && power_line_of(line) == PowerLine::Field(f.text@),
        r matches Some(Err(e)) ==> e == PowerError::BadChecksum && power_line_of(line) is Corrupt,
{
}

} // verus!
