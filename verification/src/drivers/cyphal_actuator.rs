//! Cyphal actuator backend: commands each effector in physical units over
//! Cyphal/CAN and consumes the nodes' feedback and power reports for the
//! command-then-report comparison.
//!
//! A Cyphal actuator node owns its local servo calibration, so this backend
//! sends the per-effector value straight through, one single-frame message per
//! effector per tick. Each effector has a command subject its setpoint is
//! published on and a feedback subject its node reports its achieved value on;
//! a power-monitoring node publishes bus voltage on a power subject. Every
//! payload is a little-endian binary32.
//!
//! Byte- and frame-level only: the host reads and writes `(can_id, data)`
//! pairs and does the arithmetic of the comparison.

use vstd::prelude::*;

use super::output::{ActuatorSink, Emission, OutputFrame};
use crate::contract::{BoundedList, PowerStatus, Timestamp};
use crate::cyphal::{decode_single_frame, encode_single_frame, DecodeError, MessageId, NodeId};
use crate::cyphal::{Priority, SubjectId};
use crate::narrow::Narrow;
use crate::scalar::Scalar;

verus! {

/// One effector's Cyphal wiring: which allocator output value its setpoint
/// reads, the subject it is commanded on, the subject its node reports
/// achieved on, and the divergence tolerance in its physical units.
#[derive(Copy, Clone, Debug, PartialEq)]
pub struct CyphalEffector {
    pub effector_index: usize,
    pub command_subject: SubjectId,
    pub feedback_subject: SubjectId,
    pub report_tolerance: Scalar,
}

/// Filler for fixed-capacity storage; the values carry no meaning.
impl Default for CyphalEffector {
    fn default() -> (e: CyphalEffector)
        ensures
            e.effector_index == 0,
            e.command_subject@ == 0,
            e.feedback_subject@ == 0,
            e.report_tolerance.bits == 0,
    {
        CyphalEffector {
            effector_index: 0,
            command_subject: SubjectId::default(),
            feedback_subject: SubjectId::default(),
            report_tolerance: Scalar::zero(),
        }
    }
}

/// Errors decoding a received Cyphal frame into a report.
#[derive(Copy, Clone, Debug, PartialEq, Eq, Structural)]
pub enum ReportError {
    /// The frame's transport framing did not decode.
    Transport(DecodeError),
    /// A message on one of our subjects carried fewer than the 4 bytes a
    /// binary32 payload needs.
    ShortPayload,
    /// The payload was NaN or infinite.
    NonFinite,
    /// A power report's voltage was negative, which is not a usable bus
    /// voltage.
    NegativeVoltage,
}

/// What a received frame holds, before the achieved value is held against the
/// commanded one.
#[derive(Copy, Clone, Debug, PartialEq)]
pub enum Heard {
    Feedback { effector_index: usize, commanded: Narrow, achieved: Narrow, tolerance: Scalar },
    Power(PowerStatus),
}

/// A decoded report from an actuator or power node.
#[derive(Copy, Clone, Debug, PartialEq)]
pub enum CyphalReport {
    /// A node's achieved value against what it was last commanded. `diverged`
    /// is set when they differ by more than the configured tolerance.
    Feedback { effector_index: usize, commanded: Narrow, achieved: Narrow, diverged: bool },
    /// A power-monitoring node's bus voltage.
    Power(PowerStatus),
}

/// What the backend remembers.
pub ghost struct Bus {
    pub conn_node_id: NodeId,
    pub priority: Priority,
    pub power_subject: Option<SubjectId>,
    pub effectors: Seq<CyphalEffector>,
    pub transfer_id: Seq<u8>,
    pub last_commanded: Seq<Narrow>,
}

/// The narrowed output of an effector; an index out of range reads as zero.
pub open spec fn narrow_at(values: Seq<Narrow>, index: usize) -> Narrow {
    if index < values.len() {
        values[index as int]
    } else {
        Narrow { bits: 0 }
    }
}

/// The message id an effector is commanded with.
pub open spec fn command_id(b: Bus, slot: int) -> MessageId {
    MessageId {
        priority: b.priority,
        subject_id: b.effectors[slot].command_subject,
        source_node_id: b.conn_node_id,
    }
}

/// The value an effector is commanded.
pub open spec fn command_value(b: Bus, values: Seq<Narrow>, slot: int) -> Narrow {
    narrow_at(values, b.effectors[slot].effector_index)
}

/// The frame an effector is commanded with: its value little-endian, then the
/// tail byte with the effector's own transfer-id.
pub open spec fn command_frame(b: Bus, values: Seq<Narrow>, slot: int) -> Emission {
    Emission::Can(
        crate::cyphal::id::can_id_of(command_id(b, slot)) as u32,
        crate::narrow::le_bytes(command_value(b, values, slot)).push(
            crate::cyphal::frame::tail_byte(
                crate::cyphal::frame::single_frame_tail(b.transfer_id[slot]),
            ) as u8,
        ),
    )
}

/// The frames of one tick, in slot order.
pub open spec fn command_frames(b: Bus, values: Seq<Narrow>) -> Seq<Emission> {
    Seq::new(b.effectors.len(), |slot: int| command_frame(b, values, slot))
}

/// The backend after a tick: every commanded value is remembered and every
/// commanded subject's transfer-id has moved on by one, modulo 32.
pub open spec fn after_tick(b: Bus, values: Seq<Narrow>) -> Bus {
    Bus {
        transfer_id: Seq::new(
            b.transfer_id.len(),
            |slot: int|
                if slot < b.effectors.len() {
                    ((b.transfer_id[slot] + 1) % 32) as u8
                } else {
                    b.transfer_id[slot]
                },
        ),
        last_commanded: Seq::new(
            b.last_commanded.len(),
            |slot: int|
                if slot < b.effectors.len() {
                    command_value(b, values, slot)
                } else {
                    b.last_commanded[slot]
                },
        ),
        ..b
    }
}

/// What is wrong with a payload, if anything.
pub open spec fn bad_payload(payload: Seq<u8>) -> Option<ReportError> {
    if payload.len() < 4 {
        Some(ReportError::ShortPayload)
    } else if !crate::narrow::from_le(payload).finite() {
        Some(ReportError::NonFinite)
    } else {
        None
    }
}

/// The subject a frame was published on.
pub open spec fn subject_of(can_id: u32) -> int {
    (can_id as int / 0x100) % 0x2000
}

/// Whether a slot listens on a subject, and none before it does.
pub open spec fn first_listener(b: Bus, subject: int, slot: int) -> bool {
    &&& 0 <= slot < b.effectors.len()
    &&& b.effectors[slot].feedback_subject@ == subject
    &&& forall|k: int| 0 <= k < slot ==> (#[trigger] b.effectors[k]).feedback_subject@ != subject
}

/// Whether `r` is what a received frame decodes to. The power subject is
/// looked at first, then the feedback subjects in slot order; a well-formed
/// message on any other subject is not ours to interpret.
pub open spec fn hears(
    b: Bus,
    can_id: u32,
    data: Seq<u8>,
    t: Timestamp,
    r: Result<Option<Heard>, ReportError>,
) -> bool {
    let subject = subject_of(can_id);
    let payload = data.drop_last();
    match crate::cyphal::frame::frame_rejection(can_id, data) {
        Some(e) => r == Err::<Option<Heard>, ReportError>(ReportError::Transport(e)),
        None => if b.power_subject is Some && b.power_subject->0@ == subject {
            match bad_payload(payload) {
                Some(e) => r == Err::<Option<Heard>, ReportError>(e),
                None => {
                    let v = crate::narrow::from_le(payload);
                    if v.units() < 0 {
                        r == Err::<Option<Heard>, ReportError>(ReportError::NegativeVoltage)
                    } else {
                        r matches Ok(Some(Heard::Power(status))) && status.t == t
                            && status.voltage_v.finite() && status.voltage_v.signed() == v.signed()
                            && status.voltage_v.units() == v.units()
                            * vstd::arithmetic::power2::pow2(925)
                    }
                },
            }
        } else if exists|slot: int| #[trigger] first_listener(b, subject, slot) {
            let slot = choose|slot: int| #[trigger] first_listener(b, subject, slot);
            match bad_payload(payload) {
                Some(e) => r == Err::<Option<Heard>, ReportError>(e),
                None => r == Ok::<Option<Heard>, ReportError>(
                    Some(
                        Heard::Feedback {
                            effector_index: b.effectors[slot].effector_index,
                            commanded: b.last_commanded[slot],
                            achieved: crate::narrow::from_le(payload),
                            tolerance: b.effectors[slot].report_tolerance,
                        },
                    ),
                ),
            }
        } else {
            r == Ok::<Option<Heard>, ReportError>(None)
        },
    }
}

/// The Cyphal actuator output backend and command-then-report reader.
#[derive(Clone, Copy, Debug)]
pub struct CyphalActuatorBackend {
    conn_node_id: NodeId,
    priority: Priority,
    // None for a bus with no power node.
    power_subject: Option<SubjectId>,
    effectors: BoundedList<CyphalEffector, 8>,
    transfer_id: [u8; 8],
    last_commanded: [Narrow; 8],
}

impl View for CyphalActuatorBackend {
    type V = Bus;

    closed spec fn view(&self) -> Bus {
        Bus {
            conn_node_id: self.conn_node_id,
            priority: self.priority,
            power_subject: self.power_subject,
            effectors: self.effectors@,
            transfer_id: self.transfer_id@,
            last_commanded: self.last_commanded@,
        }
    }
}

impl CyphalActuatorBackend {
    /// Every transfer-id fits its five bits.
    #[verifier::type_invariant]
    spec fn wf(self) -> bool {
        forall|k: int| 0 <= k < 8 ==> #[trigger] self.transfer_id@[k] <= 31
    }

    pub fn new(
        conn_node_id: NodeId,
        priority: Priority,
        power_subject: Option<SubjectId>,
        effectors: BoundedList<CyphalEffector, 8>,
    ) -> (b: CyphalActuatorBackend)
        ensures
            b@ == (Bus {
                conn_node_id,
                priority,
                power_subject,
                effectors: effectors@,
                transfer_id: Seq::new(8, |k: int| 0u8),
                last_commanded: Seq::new(8, |k: int| Narrow { bits: 0 }),
            }),
    {
        let b = CyphalActuatorBackend {
            conn_node_id,
            priority,
            power_subject,
            effectors,
            transfer_id: [0u8; 8],
            last_commanded: [Narrow { bits: 0 }; 8],
        };
        proof {
            assert(b.transfer_id@ == Seq::new(8, |k: int| 0u8));
            assert(b.last_commanded@ == Seq::new(8, |k: int| Narrow { bits: 0 }));
        }
        b
    }

    /// One single-frame message per effector, carrying its physical setpoint,
    /// on that effector's command subject with the conn node as source.
    /// `values` are the allocator's per-effector outputs in single precision.
    pub fn write_outputs<S: ActuatorSink>(&mut self, values: &[Narrow], sink: &mut S)
        ensures
            final(self)@ == after_tick(old(self)@, values@),
            final(sink).written() == old(sink).written() + command_frames(old(self)@, values@),
    {
        proof {
            use_type_invariant(&*self);
        }
        let effectors: BoundedList<CyphalEffector, 8> = self.effectors;
        let priority = self.priority;
        let node = self.conn_node_id;
        let table = effectors.as_slice();
        let mut transfer_id: [u8; 8] = self.transfer_id;
        let mut last_commanded: [Narrow; 8] = self.last_commanded;
        let ghost b = old(self)@;
        let ghost next = after_tick(b, values@);
        let mut slot: usize = 0;
        proof {
            assert(command_frames(b, values@).take(0) == Seq::<Emission>::empty());
        }
        while slot < table.len()
            invariant
                b == old(self)@,
                next == after_tick(b, values@),
                table@ == b.effectors,
                table@.len() <= 8,
                priority == b.priority,
                node == b.conn_node_id,
                b.transfer_id.len() == 8,
                b.last_commanded.len() == 8,
                slot <= table@.len(),
                forall|k: int| 0 <= k < 8 ==> #[trigger] b.transfer_id[k] <= 31,
                forall|k: int| 0 <= k < slot ==> #[trigger] transfer_id@[k] == next.transfer_id[k],
                forall|k: int| slot <= k < 8 ==> #[trigger] transfer_id@[k] == b.transfer_id[k],
                forall|k: int|
                    0 <= k < slot ==> #[trigger] last_commanded@[k] == next.last_commanded[k],
                forall|k: int|
                    slot <= k < 8 ==> #[trigger] last_commanded@[k] == b.last_commanded[k],
                sink.written() == old(sink).written() + command_frames(b, values@).take(
                    slot as int,
                ),
            decreases table.len() - slot,
        {
            let eff: CyphalEffector = table[slot];
            let value: Narrow = if eff.effector_index < values.len() {
                values[eff.effector_index]
            } else {
                Narrow { bits: 0 }
            };
            last_commanded[slot] = value;
            let id = MessageId {
                priority,
                subject_id: eff.command_subject,
                source_node_id: node,
            };
            let payload: [u8; 4] = to_le_bytes(value);
            let tid: u8 = transfer_id[slot];
            if let Some(frame) = encode_single_frame(id, tid, payload.as_slice()) {
                sink.emit(OutputFrame::Can { can_id: frame.can_id, data: frame.data() });
            }
            proof {
                let frames = command_frames(b, values@);
                assert(frames.take(slot + 1) == frames.take(slot as int).push(frames[slot as int]));
            }
            transfer_id[slot] = (tid + 1) % 32;
            slot = slot + 1;
        }
        proof {
            let frames = command_frames(b, values@);
            assert(frames.take(slot as int) == frames);
            assert(transfer_id@ == next.transfer_id);
            assert(last_commanded@ == next.last_commanded);
        }
        *self =
        CyphalActuatorBackend {
            conn_node_id: self.conn_node_id,
            priority: self.priority,
            power_subject: self.power_subject,
            effectors,
            transfer_id,
            last_commanded,
        };
    }

    /// Decode one received `(can_id, data)` frame. `Ok(None)` for a
    /// well-formed message on a subject that is not ours; `acquired_at` is the
    /// capture time.
    pub fn handle_frame(&self, can_id: u32, data: &[u8], acquired_at: Timestamp) -> (r: Result<
        Option<Heard>,
        ReportError,
    >)
        ensures
            hears(self@, can_id, data@, acquired_at, r),
    {
        let frame = match decode_single_frame(can_id, data) {
            Ok(frame) => frame,
            Err(e) => {
                return Err(ReportError::Transport(e));
            },
        };
        let subject: u16 = frame.id.subject_id.get();
        if let Some(power) = self.power_subject {
            if power.get() == subject {
                let voltage: Narrow = match read_f32(frame.payload) {
                    Ok(v) => v,
                    Err(e) => {
                        return Err(e);
                    },
                };
                if voltage.is_negative() {
                    return Err(ReportError::NegativeVoltage);
                }
                return Ok(
                    Some(
                        Heard::Power(PowerStatus { t: acquired_at, voltage_v: voltage.widen() }),
                    ),
                );
            }
        }
        let table = self.effectors.as_slice();
        let mut slot: usize = 0;
        while slot < table.len()
            invariant
                table@ == self@.effectors,
                table@.len() <= 8,
                slot <= table@.len(),
                subject == subject_of(can_id),
                frame.payload@ == data@.drop_last(),
                crate::cyphal::frame::frame_rejection(can_id, data@) is None,
                !(self@.power_subject is Some && self@.power_subject->0@ == subject),
                forall|k: int|
                    0 <= k < slot ==> (#[trigger] self@.effectors[k]).feedback_subject@ != subject,
            decreases table.len() - slot,
        {
            let eff: CyphalEffector = table[slot];
            if eff.feedback_subject.get() == subject {
                proof {
                    assert(first_listener(self@, subject as int, slot as int));
                    let chosen = choose|s: int| #[trigger]
                        first_listener(self@, subject as int, s);
                    assert(chosen == slot) by {
                        if chosen < slot {
                            assert(self@.effectors[chosen].feedback_subject@ != subject);
                        } else if chosen > slot {
                            assert(self@.effectors[slot as int].feedback_subject@ != subject);
                        }
                    }
                }
                return match read_f32(frame.payload) {
                    Ok(achieved) => Ok(
                        Some(
                            Heard::Feedback {
                                effector_index: eff.effector_index,
                                commanded: self.last_commanded[slot],
                                achieved,
                                tolerance: eff.report_tolerance,
                            },
                        ),
                    ),
                    Err(e) => Err(e),
                };
            }
            slot = slot + 1;
        }
        Ok(None)
    }
}

/// The four bytes of a value, least significant first.
fn to_le_bytes(x: Narrow) -> (b: [u8; 4])
    ensures
        b@ == crate::narrow::le_bytes(x),
{
    let n: u32 = x.bits;
    let b = [
        (n % 0x100) as u8,
        (n / 0x100 % 0x100) as u8,
        (n / 0x1_0000 % 0x100) as u8,
        (n / 0x100_0000) as u8,
    ];
    proof {
        assert(b@ == crate::narrow::le_bytes(x));
    }
    b
}

/// Read a little-endian value from the first 4 payload bytes, rejecting a
/// short payload and a non-finite value.
fn read_f32(payload: &[u8]) -> (r: Result<Narrow, ReportError>)
    ensures
        match r {
            Ok(v) => bad_payload(payload@) is None && v == crate::narrow::from_le(payload@),
            Err(e) => bad_payload(payload@) == Some(e),
        },
{
    if payload.len() < 4 {
        return Err(ReportError::ShortPayload);
    }
    let bits: u32 = payload[0] as u32 + payload[1] as u32 * 0x100 + payload[2] as u32 * 0x1_0000
        + payload[3] as u32 * 0x100_0000;
    let value = Narrow { bits };
    if value.is_finite() {
        Ok(value)
    } else {
        Err(ReportError::NonFinite)
    }
}

/// Whether a report tells of a divergence: the gap between achieved and
/// commanded exceeds the effector's own tolerance.
pub open spec fn judged(heard: Heard, gap: Scalar) -> CyphalReport {
    match heard {
        Heard::Power(status) => CyphalReport::Power(status),
        Heard::Feedback { effector_index, commanded, achieved, tolerance } =>
            CyphalReport::Feedback {
            effector_index,
            commanded,
            achieved,
            diverged: tolerance.less(gap),
        },
    }
}

impl Heard {
    /// The report of what was heard. `gap` is the host's |achieved -
    /// commanded|, not read for a power report.
    pub fn judge(self, gap: Scalar) -> (r: CyphalReport)
        ensures
            r == judged(self, gap),
    {
        match self {
            Heard::Power(status) => CyphalReport::Power(status),
            Heard::Feedback { effector_index, commanded, achieved, tolerance } =>
                CyphalReport::Feedback {
                effector_index,
                commanded,
                achieved,
                diverged: gap.gt(tolerance),
            },
        }
    }
}

/// A node that decodes a command frame finds the effector's command subject,
/// the conn node as source, the effector's transfer-id, and the commanded
/// value bit for bit.
pub proof fn command_reaches_its_node(b: Bus, values: Seq<Narrow>, slot: int, back: MessageId)
    requires
        0 <= slot < b.effectors.len() <= b.transfer_id.len(),
        b.transfer_id[slot] <= 31,
        0 <= b.effectors[slot].command_subject@ <= crate::cyphal::id::SUBJECT_ID_MAX,
        0 <= b.conn_node_id@ <= crate::cyphal::id::NODE_ID_MAX,
    ensures
        command_frame(b, values, slot) matches Emission::Can(can_id, data) && {
            &&& crate::cyphal::frame::frame_rejection(can_id, data) is None
            &&& crate::cyphal::id::has_fields(can_id, back) <==> back == command_id(b, slot)
            &&& data.last() % 0x20 == b.transfer_id[slot]
            &&& crate::narrow::from_le(data.drop_last()) == command_value(b, values, slot)
        },
{
    let id = command_id(b, slot);
    let v = command_value(b, values, slot);
    let can_id = crate::cyphal::id::can_id_of(id) as u32;
    crate::cyphal::frame::decode_inverts_encode(
        id,
        b.transfer_id[slot],
        crate::narrow::le_bytes(v),
        can_id,
        0,
        back,
    );
    crate::narrow::le_bytes_round_trip(v, crate::narrow::le_bytes(v));
}

/// What a feedback report is compared with is what the last tick commanded.
pub proof fn feedback_is_compared_with_the_last_command(b: Bus, values: Seq<Narrow>, slot: int)
    requires
        0 <= slot < b.effectors.len() <= b.last_commanded.len(),
    ensures
        after_tick(b, values).last_commanded[slot] == command_value(b, values, slot),
        after_tick(b, values).effectors == b.effectors,
{
}

/// The backend after a run of ticks, each with its own values.
pub open spec fn after_ticks(b: Bus, ticks: Seq<Seq<Narrow>>) -> Bus
    decreases ticks.len(),
{
    if ticks.len() == 0 {
        b
    } else {
        after_tick(after_ticks(b, ticks.drop_last()), ticks.last())
    }
}

/// Each commanded effector's transfer-id counts its ticks, modulo 32, whatever
/// was commanded; the wiring never changes.
pub proof fn transfer_id_counts_ticks(b: Bus, ticks: Seq<Seq<Narrow>>, slot: int)
    requires
        0 <= slot < b.effectors.len() <= b.transfer_id.len(),
        b.transfer_id[slot] <= 31,
    ensures
        after_ticks(b, ticks).transfer_id.len() == b.transfer_id.len(),
        after_ticks(b, ticks).transfer_id[slot] == (b.transfer_id[slot] + ticks.len()) % 32,
        after_ticks(b, ticks).effectors == b.effectors,
    decreases ticks.len(),
{
    if ticks.len() > 0 {
        transfer_id_counts_ticks(b, ticks.drop_last(), slot);
    }
}

/// Each slot is commanded, on its own command subject, the value at its own
/// effector index, byte for byte with the least significant first, and zero
/// where that index is out of range; the tail byte marks a whole transfer and
/// carries the slot's own transfer-id, and the frame names the conn node and
/// the bus priority. Nothing else is sent.
pub proof fn each_slot_is_commanded_its_own_value(b: Bus, values: Seq<Narrow>, slot: int)
    requires
        0 <= slot < b.effectors.len() <= b.transfer_id.len(),
        b.transfer_id[slot] <= 31,
        0 <= b.effectors[slot].command_subject@ <= crate::cyphal::id::SUBJECT_ID_MAX,
        0 <= b.conn_node_id@ <= crate::cyphal::id::NODE_ID_MAX,
    ensures
        command_frames(b, values).len() == b.effectors.len(),
        command_frames(b, values)[slot] matches Emission::Can(can_id, data) && {
            let index = b.effectors[slot].effector_index;
            let number = data[0] + 0x100 * data[1] + 0x1_0000 * data[2] + 0x100_0000 * data[3];
            &&& data.len() == 5
            &&& index < values.len() ==> number == values[index as int].bits
            &&& index >= values.len() ==> number == 0
            &&& data[4] == 224 + b.transfer_id[slot]
            &&& (can_id as int / 0x100) % 0x2000 == b.effectors[slot].command_subject@
            &&& can_id as int % 0x80 == b.conn_node_id@
            &&& can_id as int / 0x0400_0000 == b.priority.level()
        },
{
    let id = command_id(b, slot);
    let v = command_value(b, values, slot);
    crate::cyphal::id::levels_rank_by_urgency(b.priority);
    crate::cyphal::id::assembled_fields_stand_at_their_bits(id, crate::cyphal::id::can_id_of(id));
    crate::narrow::bytes_stand_least_significant_first(v, crate::narrow::le_bytes(v));
    crate::cyphal::frame::tail_byte_by_its_bits(
        crate::cyphal::frame::single_frame_tail(b.transfer_id[slot]),
        0,
    );
    assert(command_frames(b, values)[slot] == command_frame(b, values, slot));
}

/// After a tick each slot remembers the value at its own effector index, zero
/// where that is out of range, and its transfer-id has moved on by one, from
/// 31 to 0; the wiring stays.
pub proof fn tick_remembers_what_each_slot_was_commanded(b: Bus, values: Seq<Narrow>, slot: int)
    requires
        0 <= slot < b.effectors.len(),
        b.effectors.len() <= b.transfer_id.len(),
        b.effectors.len() <= b.last_commanded.len(),
        b.transfer_id[slot] <= 31,
    ensures
        ({
            let after = after_tick(b, values);
            let index = b.effectors[slot].effector_index;
            &&& index < values.len() ==> after.last_commanded[slot] == values[index as int]
            &&& index >= values.len() ==> after.last_commanded[slot].bits == 0
            &&& b.transfer_id[slot] < 31 ==> after.transfer_id[slot] == b.transfer_id[slot] + 1
            &&& b.transfer_id[slot] == 31 ==> after.transfer_id[slot] == 0
            &&& after.effectors == b.effectors && after.conn_node_id == b.conn_node_id
            &&& after.priority == b.priority && after.power_subject == b.power_subject
            &&& after.transfer_id.len() == b.transfer_id.len()
            &&& after.last_commanded.len() == b.last_commanded.len()
        }),
{
}

/// A whole message on a slot's feedback subject, when that is not the power
/// subject and no earlier slot listens on it, reports the slot's effector
/// index, what the slot was last commanded, the number in the first four
/// bytes, least significant first, and the slot's tolerance; with fewer than
/// four bytes before the tail, or a number that is not finite, it is an error.
pub proof fn feedback_is_what_the_frame_says(
    b: Bus,
    can_id: u32,
    data: Seq<u8>,
    t: Timestamp,
    r: Result<Option<Heard>, ReportError>,
    slot: int,
)
    requires
        hears(b, can_id, data, t, r),
        crate::cyphal::frame::frame_rejection(can_id, data) is None,
        0 <= slot < b.effectors.len(),
        b.effectors[slot].feedback_subject@ == (can_id as int / 0x100) % 0x2000,
        forall|k: int|
            0 <= k < slot ==> (#[trigger] b.effectors[k]).feedback_subject@ != (can_id as int
                / 0x100) % 0x2000,
        b.power_subject is None || b.power_subject->0@ != (can_id as int / 0x100) % 0x2000,
    ensures
        data.len() < 5 ==> r == Err::<Option<Heard>, ReportError>(ReportError::ShortPayload),
        data.len() >= 5 ==> ({
            let number = data[0] + 0x100 * data[1] + 0x1_0000 * data[2] + 0x100_0000 * data[3];
            &&& number % 0x8000_0000 >= 0x7f80_0000 ==> r == Err::<Option<Heard>, ReportError>(
                ReportError::NonFinite,
            )
            &&& number % 0x8000_0000 < 0x7f80_0000 ==> {
                &&& r matches Ok(
                    Some(Heard::Feedback { effector_index, commanded, achieved, tolerance }),
                )
                &&& effector_index == b.effectors[slot].effector_index
                &&& commanded == b.last_commanded[slot]
                &&& achieved.bits == number
                &&& tolerance == b.effectors[slot].report_tolerance
            }
        }),
{
    let subject = subject_of(can_id);
    let payload = data.drop_last();
    crate::cyphal::frame::whole_message_by_its_bits(can_id, data);
    assert(first_listener(b, subject, slot));
    let chosen = choose|k: int| #[trigger] first_listener(b, subject, k);
    assert(chosen == slot) by {
        if chosen < slot {
            assert(b.effectors[chosen].feedback_subject@ != subject);
        } else if chosen > slot {
            assert(b.effectors[slot].feedback_subject@ != subject);
        }
    }
    if data.len() >= 5 {
        crate::narrow::bytes_stand_least_significant_first(
            crate::narrow::from_le(payload),
            payload,
        );
        crate::narrow::narrow_classes(crate::narrow::from_le(payload));
    }
}

/// A whole message on the power subject reports its time and the voltage in
/// its first four bytes, exactly, whatever slots listen on the same subject;
/// too short, not finite and negative are errors in that order. A whole
/// message on a subject that nobody listens on reports nothing, and a frame
/// that is not a whole message reports why.
pub proof fn power_and_strangers_are_what_the_frame_says(
    b: Bus,
    can_id: u32,
    data: Seq<u8>,
    t: Timestamp,
    r: Result<Option<Heard>, ReportError>,
)
    requires
        hears(b, can_id, data, t, r),
    ensures
        crate::cyphal::frame::frame_rejection(can_id, data) matches Some(e) ==> r == Err::<
            Option<Heard>,
            ReportError,
        >(ReportError::Transport(e)),
        crate::cyphal::frame::frame_rejection(can_id, data) is None && b.power_subject is Some
            && b.power_subject->0@ == (can_id as int / 0x100) % 0x2000 ==> ({
            let number = data[0] + 0x100 * data[1] + 0x1_0000 * data[2] + 0x100_0000 * data[3];
            &&& data.len() < 5 ==> r == Err::<Option<Heard>, ReportError>(ReportError::ShortPayload)
            &&& data.len() >= 5 && number % 0x8000_0000 >= 0x7f80_0000 ==> r == Err::<
                Option<Heard>,
                ReportError,
            >(ReportError::NonFinite)
            &&& data.len() >= 5 && 0x8000_0000 < number < 0xff80_0000 ==> r == Err::<
                Option<Heard>,
                ReportError,
            >(ReportError::NegativeVoltage)
            &&& data.len() >= 5 && number <= 0x8000_0000 && number % 0x8000_0000 < 0x7f80_0000 ==> {
                &&& r matches Ok(Some(Heard::Power(status)))
                &&& status.t == t
                &&& status.voltage_v.finite()
                &&& status.voltage_v.units() == (Narrow { bits: number as u32 }).units()
                    * vstd::arithmetic::power2::pow2(925)
            }
        }),
        crate::cyphal::frame::frame_rejection(can_id, data) is None && (b.power_subject is None
            || b.power_subject->0@ != (can_id as int / 0x100) % 0x2000) && (forall|k: int|
            0 <= k < b.effectors.len() ==> (#[trigger] b.effectors[k]).feedback_subject@ != (
            can_id as int / 0x100) % 0x2000) ==> r == Ok::<Option<Heard>, ReportError>(None),
{
    let payload = data.drop_last();
    crate::cyphal::frame::whole_message_by_its_bits(can_id, data);
    if data.len() >= 5 {
        crate::narrow::bytes_stand_least_significant_first(
            crate::narrow::from_le(payload),
            payload,
        );
        crate::narrow::narrow_classes(crate::narrow::from_le(payload));
    }
}

/// A node has diverged exactly when the gap is strictly larger than the
/// tolerance, neither being NaN; the report repeats the index and both values,
/// and a power report passes through.
pub proof fn divergence_is_a_gap_above_the_tolerance(heard: Heard, gap: Scalar)
    ensures
        heard matches Heard::Feedback { effector_index, commanded, achieved, tolerance } ==> {
            &&& judged(heard, gap) matches CyphalReport::Feedback {
                effector_index: i,
                commanded: c,
                achieved: a,
                diverged,
            }
            &&& i == effector_index && c == commanded && a == achieved
            &&& diverged <==> !gap.nan() && !tolerance.nan() && gap.units() > tolerance.units()
        },
        heard matches Heard::Power(status) ==> judged(heard, gap) == CyphalReport::Power(status),
{
}

} // verus!
