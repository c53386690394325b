//! Tail byte and single-frame transfer assembly.
//!
//! Cyphal/CAN appends a one-byte tail to every CAN frame's data field, so a
//! classic CAN frame (8 data bytes) carries at most 7 payload bytes. The tail
//! byte marks the transfer boundaries and carries the rolling transfer-id:
//!
//! ```text
//! bit 7  start-of-transfer
//! bit 6  end-of-transfer
//! bit 5  toggle
//! 4..0   transfer-id (5 bits, 0..=31)
//! ```
//!
//! A single-frame transfer has start and end both set and the toggle set,
//! and carries the whole payload in its one frame.

use vstd::prelude::*;

use super::error::DecodeError;
use super::id::{decode_message_id, MessageId};

verus! {

const TAIL_SOT: u8 = 0x80;

const TAIL_EOT: u8 = 0x40;

const TAIL_TOGGLE: u8 = 0x20;

/// Largest 5-bit transfer-id; the counter rolls over past this.
pub const TRANSFER_ID_MAX: u8 = 0x1F;

/// Largest payload a single classic-CAN frame can carry (8 data bytes minus
/// the tail byte).
pub const MAX_SINGLE_FRAME_PAYLOAD: usize = 7;

/// A decoded tail byte.
#[derive(Copy, Clone, Debug, PartialEq, Eq, Structural)]
pub struct TailByte {
    pub start_of_transfer: bool,
    pub end_of_transfer: bool,
    pub toggle: bool,
    pub transfer_id: u8,
}

/// The tail byte of a start, end, toggle and transfer-id field; the
/// transfer-id is cut to its five bits.
pub open spec fn tail_byte(tail: TailByte) -> int {
    (if tail.start_of_transfer {
        0x80int
    } else {
        0
    }) + (if tail.end_of_transfer {
        0x40int
    } else {
        0
    }) + (if tail.toggle {
        0x20int
    } else {
        0
    }) + tail.transfer_id as int % 0x20
}

/// The fields of a tail byte.
pub open spec fn tail_fields(b: u8) -> TailByte {
    TailByte {
        start_of_transfer: b / 0x80 == 1,
        end_of_transfer: (b / 0x40) % 2 == 1,
        toggle: (b / 0x20) % 2 == 1,
        transfer_id: b % 0x20,
    }
}

impl TailByte {
    pub fn to_byte(self) -> (b: u8)
        ensures
            b == tail_byte(self),
    {
        let t: u8 = self.transfer_id;
        let mut b: u8 = t & TRANSFER_ID_MAX;
        if self.start_of_transfer {
            b = b | TAIL_SOT;
        }
        if self.end_of_transfer {
            b = b | TAIL_EOT;
        }
        if self.toggle {
            b = b | TAIL_TOGGLE;
        }
        proof {
            lemma_tail_bits(t);
        }
        b
    }

    pub fn from_byte(b: u8) -> (tail: TailByte)
        ensures
            tail == tail_fields(b),
    {
        proof {
            lemma_tail_fields(b);
        }
        TailByte {
            start_of_transfer: b & TAIL_SOT != 0,
            end_of_transfer: b & TAIL_EOT != 0,
            toggle: b & TAIL_TOGGLE != 0,
            transfer_id: b & TRANSFER_ID_MAX,
        }
    }
}

proof fn lemma_tail_bits(t: u8)
    by (bit_vector)
    ensures
        t & 0x1F == t % 0x20,
        (t & 0x1F) | 0x80 == t % 0x20 + 0x80,
        (t & 0x1F) | 0x40 == t % 0x20 + 0x40,
        (t & 0x1F) | 0x20 == t % 0x20 + 0x20,
        ((t & 0x1F) | 0x80) | 0x40 == t % 0x20 + 0xC0,
        ((t & 0x1F) | 0x80) | 0x20 == t % 0x20 + 0xA0,
        ((t & 0x1F) | 0x40) | 0x20 == t % 0x20 + 0x60,
        (((t & 0x1F) | 0x80) | 0x40) | 0x20 == t % 0x20 + 0xE0,
{
}

proof fn lemma_tail_fields(b: u8)
    by (bit_vector)
    ensures
        (b & 0x80 != 0) <==> b / 0x80 == 1,
        (b & 0x40 != 0) <==> (b / 0x40) % 2 == 1,
        (b & 0x20 != 0) <==> (b / 0x20) % 2 == 1,
        b & 0x1F == b % 0x20,
{
}

/// Reading a written tail byte gives its fields back, the transfer-id cut to
/// five bits, and every byte is the tail byte of its own fields.
pub proof fn tail_byte_round_trips(tail: TailByte, b: u8, written: u8)
    requires
        written == tail_byte(tail),
    ensures
        tail_byte(tail_fields(b)) == b,
        tail_fields(written) == (TailByte { transfer_id: tail.transfer_id % 0x20, ..tail }),
{
}

/// The data field of a CAN frame: up to 8 bytes.
#[derive(Copy, Clone, Debug, PartialEq, Eq)]
pub struct FrameData {
    bytes: [u8; 8],
    len: u8,
}

impl View for FrameData {
    type V = Seq<u8>;

    closed spec fn view(&self) -> Seq<u8> {
        self.bytes@.take(self.len as int)
    }
}

impl FrameData {
    #[verifier::type_invariant]
    spec fn fits(self) -> bool {
        self.len <= 8
    }
}

/// An assembled CAN frame: the 29-bit identifier and up to 8 data bytes.
#[derive(Copy, Clone, Debug, PartialEq, Eq)]
pub struct Frame {
    pub can_id: u32,
    pub data: FrameData,
}

impl View for Frame {
    type V = Seq<u8>;

    /// The data bytes.
    open spec fn view(&self) -> Seq<u8> {
        self.data@
    }
}

impl Frame {
    pub fn data(&self) -> (d: &[u8])
        ensures
            d@ == self@,
            d@.len() <= 8,
    {
        let data: &FrameData = &self.data;
        proof {
            use_type_invariant(data);
        }
        vstd::slice::slice_subrange(data.bytes.as_slice(), 0, data.len as usize)
    }

    pub fn len(&self) -> (n: usize)
        ensures
            n == self@.len(),
            n <= 8,
    {
        let data: &FrameData = &self.data;
        proof {
            use_type_invariant(data);
        }
        data.len as usize
    }

    pub fn is_empty(&self) -> (b: bool)
        ensures
            b == (self@.len() == 0),
    {
        self.len() == 0
    }
}

/// The tail byte of a single-frame transfer: start, end and toggle all set.
pub open spec fn single_frame_tail(transfer_id: u8) -> TailByte {
    TailByte { start_of_transfer: true, end_of_transfer: true, toggle: true, transfer_id }
}

/// Assemble a single-frame message transfer: the payload plus a tail byte
/// marking start, end, and toggle all set. `None` if `payload` is longer than
/// a single frame can carry; the transfer-id is masked to its 5 bits.
pub fn encode_single_frame(id: MessageId, transfer_id: u8, payload: &[u8]) -> (f: Option<Frame>)
    ensures
        f is Some <==> payload@.len() <= MAX_SINGLE_FRAME_PAYLOAD,
        f matches Some(frame) ==> {
            &&& frame.can_id == super::id::can_id_of(id)
            &&& frame@ == payload@.push(tail_byte(single_frame_tail(transfer_id)) as u8)
            &&& frame@.len() == payload@.len() + 1
            &&& frame@[payload@.len() as int] == 224 + transfer_id % 32
            &&& forall|i: int| 0 <= i < payload@.len() ==> #[trigger] frame@[i] == payload@[i]
        },
{
    if payload.len() > MAX_SINGLE_FRAME_PAYLOAD {
        return None;
    }
    let mut bytes = [0u8; 8];
    let n: usize = payload.len();
    let mut i: usize = 0;
    while i < n
        invariant
            i <= n == payload@.len() <= 7,
            forall|k: int| 0 <= k < i ==> #[trigger] bytes@[k] == payload@[k],
        decreases n - i,
    {
        bytes[i] = payload[i];
        i = i + 1;
    }
    let tail = TailByte {
        start_of_transfer: true,
        end_of_transfer: true,
        toggle: true,
        transfer_id,
    };
    bytes[n] = tail.to_byte();
    let frame = Frame { can_id: id.to_can_id(), data: FrameData { bytes, len: n as u8 + 1 } };
    proof {
        assert(frame@ == payload@.push(tail_byte(single_frame_tail(transfer_id)) as u8));
    }
    Some(frame)
}

/// A decoded single-frame message transfer: the id, the transfer-id, and the
/// payload (the frame's data with the tail byte stripped).
#[derive(Copy, Clone, Debug, PartialEq, Eq)]
pub struct SingleFrame<'a> {
    pub id: MessageId,
    pub transfer_id: u8,
    pub payload: &'a [u8],
}

/// Why a `(can_id, data)` pair is not a single-frame message transfer, if it
/// is not: a missing tail byte first, then a tail byte that does not mark start
/// and end together, else the identifier's own rejection.
pub open spec fn frame_rejection(can_id: u32, data: Seq<u8>) -> Option<DecodeError> {
    if data.len() == 0 {
        Some(DecodeError::Empty)
    } else if !(tail_fields(data.last()).start_of_transfer
        && tail_fields(data.last()).end_of_transfer) {
        Some(DecodeError::MultiFrame)
    } else {
        super::id::id_rejection(can_id)
    }
}

/// Decode a raw `(can_id, data)` pair as a single-frame message transfer.
/// `Empty` if there is no tail byte; `MultiFrame` if the tail byte does not
/// mark start and end together, one frame of a longer transfer; the
/// identifier's own rejections otherwise pass through.
pub fn decode_single_frame(can_id: u32, data: &[u8]) -> (r: Result<SingleFrame<'_>, DecodeError>)
    ensures
        match r {
            Ok(f) => {
                &&& frame_rejection(can_id, data@) is None
                &&& super::id::has_fields(can_id, f.id)
                &&& f.transfer_id == data@.last() % 0x20
                &&& f.payload@ == data@.drop_last()
            },
            Err(e) => frame_rejection(can_id, data@) == Some(e),
        },
{
    let n: usize = data.len();
    if n == 0 {
        return Err(DecodeError::Empty);
    }
    let tail = TailByte::from_byte(data[n - 1]);
    if !(tail.start_of_transfer && tail.end_of_transfer) {
        return Err(DecodeError::MultiFrame);
    }
    match decode_message_id(can_id) {
        Err(e) => Err(e),
        Ok(id) => {
            let payload = vstd::slice::slice_subrange(data, 0, n - 1);
            proof {
                assert(payload@ == data@.drop_last());
            }
            Ok(SingleFrame { id, transfer_id: tail.transfer_id, payload })
        },
    }
}

/// Decoding what was encoded gives back the id, the payload and the
/// transfer-id cut to five bits, whatever flags a raw frame carries above
/// bit 28 of the identifier.
pub proof fn decode_inverts_encode(
    id: MessageId,
    transfer_id: u8,
    payload: Seq<u8>,
    can_id: u32,
    flags: int,
    back: MessageId,
)
    requires
        0 <= id.subject_id@ <= super::id::SUBJECT_ID_MAX,
        0 <= id.source_node_id@ <= super::id::NODE_ID_MAX,
        payload.len() <= MAX_SINGLE_FRAME_PAYLOAD,
        0 <= flags < 8,
        can_id == super::id::can_id_of(id) + flags * 0x2000_0000,
    ensures
        ({
            let data = payload.push(tail_byte(single_frame_tail(transfer_id)) as u8);
            &&& frame_rejection(can_id, data) is None
            &&& super::id::has_fields(can_id, back) <==> back == id
            &&& data.last() % 0x20 == transfer_id % 0x20
            &&& data.drop_last() == payload
        }),
{
    super::id::decoding_inverts_assembly(id, flags, can_id, back);
    let tail = single_frame_tail(transfer_id);
    tail_byte_round_trips(tail, 0, tail_byte(tail) as u8);
    assert(payload.push(tail_byte(tail) as u8).drop_last() == payload);
}

/// A tail byte is its start flag at 128, its end flag at 64, its toggle at 32,
/// and below that the transfer-id; so it is written and so it is read.
pub proof fn tail_byte_by_its_bits(tail: TailByte, b: u8)
    ensures
        tail_fields(b).start_of_transfer <==> b >= 128,
        tail_fields(b).end_of_transfer <==> b % 128 >= 64,
        tail_fields(b).toggle <==> b % 64 >= 32,
        tail_fields(b).transfer_id == b % 32,
        tail_byte(tail) % 32 == tail.transfer_id % 32,
        tail.start_of_transfer <==> tail_byte(tail) >= 128,
        tail.end_of_transfer <==> tail_byte(tail) % 128 >= 64,
        tail.toggle <==> tail_byte(tail) % 64 >= 32,
        0 <= tail_byte(tail) <= 255,
        tail_byte(single_frame_tail(tail.transfer_id)) == 224 + tail.transfer_id % 32,
{
}

/// A frame is a whole message transfer exactly when it has a last byte of at
/// least 192, start and end both set, and an identifier with neither the
/// service nor the anonymous bit. An empty frame, then a partial transfer,
/// then a service, then an anonymous sender is the reason it is not.
pub proof fn whole_message_by_its_bits(can_id: u32, data: Seq<u8>)
    ensures
        ({
            let service = (can_id as int / 0x0200_0000) % 2 == 1;
            let anonymous = (can_id as int / 0x0100_0000) % 2 == 1;
            let r = frame_rejection(can_id, data);
            &&& data.len() == 0 ==> r == Some(DecodeError::Empty)
            &&& data.len() > 0 && data[data.len() - 1] < 192 ==> r == Some(DecodeError::MultiFrame)
            &&& data.len() > 0 && data[data.len() - 1] >= 192 && service ==> r == Some(
                DecodeError::NotAMessage,
            )
            &&& data.len() > 0 && data[data.len() - 1] >= 192 && !service && anonymous ==> r
                == Some(DecodeError::Anonymous)
            &&& data.len() > 0 && data[data.len() - 1] >= 192 && !service && !anonymous
                ==> r is None
        }),
{
}

} // verus!
