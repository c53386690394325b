//! Cyphal/CAN v1.0 message-frame 29-bit CAN identifier encode/decode.
//!
//! Bit layout (bit 28 is the MSB):
//!
//! ```text
//! 28..26  priority        (3 bits)
//! 25      service/message (1 bit,  0 = message, 1 = service)
//! 24      anonymous       (1 bit)
//! 23      reserved        (1 bit,  transmit 0)
//! 22..21  reserved        (2 bits, transmit 1: `3 << 21`)
//! 20..8   subject-id      (13 bits)
//! 7       reserved        (1 bit,  transmit 0)
//! 6..0    source node-id  (7 bits)
//! ```
//!
//! On transmit the reserved bits are set to their specified values. On
//! receive they are ignored; only the structural bits gate decoding.

use vstd::prelude::*;

use super::error::DecodeError;

verus! {

/// Largest 13-bit subject-id.
pub const SUBJECT_ID_MAX: u16 = 0x1FFF;

/// Largest 7-bit node-id.
pub const NODE_ID_MAX: u8 = 0x7F;

const PRIORITY_SHIFT: u32 = 26;

const SERVICE_BIT: u32 = 0x0200_0000;

const ANONYMOUS_BIT: u32 = 0x0100_0000;

/// Reserved bits 21,22 are transmitted as one.
const RESERVED_21_22: u32 = 0x0060_0000;

const SUBJECT_SHIFT: u32 = 8;

const SUBJECT_MASK: u32 = 0x1FFF;

const NODE_MASK: u32 = 0x7F;

const EXTENDED_ID_MASK: u32 = 0x1FFF_FFFF;

/// Transfer priority, the eight standard Cyphal levels, highest first.
#[derive(Copy, Clone, Debug, PartialEq, Eq, Structural)]
pub enum Priority {
    Exceptional,
    Immediate,
    Fast,
    High,
    Nominal,
    Low,
    Slow,
    Optional,
}

impl Priority {
    /// The level as its 3-bit field: 0 highest, 7 lowest.
    pub open spec fn level(self) -> int {
        match self {
            Priority::Exceptional => 0,
            Priority::Immediate => 1,
            Priority::Fast => 2,
            Priority::High => 3,
            Priority::Nominal => 4,
            Priority::Low => 5,
            Priority::Slow => 6,
            Priority::Optional => 7,
        }
    }

    /// Total map from the 3-bit field; masks to three bits so every input is
    /// a valid level (there are exactly eight).
    fn from_bits(bits: u8) -> (p: Priority)
        ensures
            p.level() == bits % 8,
    {
        let field: u8 = bits % 8;
        if field == 0 {
            Priority::Exceptional
        } else if field == 1 {
            Priority::Immediate
        } else if field == 2 {
            Priority::Fast
        } else if field == 3 {
            Priority::High
        } else if field == 4 {
            Priority::Nominal
        } else if field == 5 {
            Priority::Low
        } else if field == 6 {
            Priority::Slow
        } else {
            Priority::Optional
        }
    }

    fn bits(self) -> (b: u32)
        ensures
            b == self.level(),
            b < 8,
    {
        match self {
            Priority::Exceptional => 0,
            Priority::Immediate => 1,
            Priority::Fast => 2,
            Priority::High => 3,
            Priority::Nominal => 4,
            Priority::Low => 5,
            Priority::Slow => 6,
            Priority::Optional => 7,
        }
    }
}

/// A 13-bit subject-id, validated on construction.
#[derive(Copy, Clone, Debug, PartialEq, Eq, Structural)]
pub struct SubjectId(u16);

impl View for SubjectId {
    type V = int;

    closed spec fn view(&self) -> int {
        self.0 as int
    }
}

impl SubjectId {
    #[verifier::type_invariant]
    spec fn in_range(self) -> bool {
        self.0 <= SUBJECT_ID_MAX
    }

    /// None above the 13-bit range.
    pub fn new(value: u16) -> (id: Option<SubjectId>)
        ensures
            id is Some <==> value <= SUBJECT_ID_MAX,
            id matches Some(subject) ==> subject@ == value,
    {
        if value <= SUBJECT_ID_MAX {
            Some(SubjectId(value))
        } else {
            None
        }
    }

    pub fn get(self) -> (value: u16)
        ensures
            value == self@,
            value <= SUBJECT_ID_MAX,
    {
        proof {
            use_type_invariant(&self);
        }
        self.0
    }
}

/// Filler for fixed-capacity storage; the value carries no meaning.
impl Default for SubjectId {
    fn default() -> (id: SubjectId)
        ensures
            id@ == 0,
    {
        SubjectId(0)
    }
}

/// A 7-bit node-id, validated on construction.
#[derive(Copy, Clone, Debug, PartialEq, Eq, Structural)]
pub struct NodeId(u8);

impl View for NodeId {
    type V = int;

    closed spec fn view(&self) -> int {
        self.0 as int
    }
}

impl NodeId {
    #[verifier::type_invariant]
    spec fn in_range(self) -> bool {
        self.0 <= NODE_ID_MAX
    }

    /// None above the 7-bit range.
    pub fn new(value: u8) -> (id: Option<NodeId>)
        ensures
            id is Some <==> value <= NODE_ID_MAX,
            id matches Some(node) ==> node@ == value,
    {
        if value <= NODE_ID_MAX {
            Some(NodeId(value))
        } else {
            None
        }
    }

    pub fn get(self) -> (value: u8)
        ensures
            value == self@,
            value <= NODE_ID_MAX,
    {
        proof {
            use_type_invariant(&self);
        }
        self.0
    }
}

/// Decoded fields of a Cyphal/CAN message-frame identifier.
#[derive(Copy, Clone, Debug, PartialEq, Eq, Structural)]
pub struct MessageId {
    pub priority: Priority,
    pub subject_id: SubjectId,
    pub source_node_id: NodeId,
}

/// The 29-bit identifier of a message: each field at its place in the layout,
/// reserved bits 21 and 22 set and the other reserved bits clear.
pub open spec fn can_id_of(id: MessageId) -> int {
    id.priority.level() * 0x0400_0000 + 3 * 0x0020_0000 + id.subject_id@ * 0x100
        + id.source_node_id@
}

/// Bit `k` of an identifier, given `place == 2^k`.
pub open spec fn id_bit(can_id: u32, place: int) -> bool {
    (can_id as int / place) % 2 == 1
}

/// Why an identifier does not name a message of a fixed-id node, if it does
/// not. Service transfers are told apart first.
pub open spec fn id_rejection(can_id: u32) -> Option<DecodeError> {
    if id_bit(can_id, 0x0200_0000) {
        Some(DecodeError::NotAMessage)
    } else if id_bit(can_id, 0x0100_0000) {
        Some(DecodeError::Anonymous)
    } else {
        None
    }
}

/// Whether `id` holds the fields of `can_id`: the priority from bits 28..26,
/// the subject from bits 20..8 and the node from bits 6..0.
pub open spec fn has_fields(can_id: u32, id: MessageId) -> bool {
    &&& id.priority.level() == (can_id as int / 0x0400_0000) % 8
    &&& id.subject_id@ == (can_id as int / 0x100) % 0x2000
    &&& id.source_node_id@ == can_id as int % 0x80
}

impl MessageId {
    /// Assemble the 29-bit extended CAN identifier for this (non-anonymous)
    /// message.
    pub fn to_can_id(self) -> (can_id: u32)
        ensures
            can_id == can_id_of(self),
            can_id <= 0x1FFF_FFFF,
    {
        let p: u32 = self.priority.bits();
        let s: u32 = self.subject_id.get() as u32;
        let n: u32 = self.source_node_id.get() as u32;
        proof {
            assert((p << 26) | 0x0060_0000 | (s << 8) | n == p * 0x0400_0000 + 0x0060_0000 + s
                * 0x100 + n) by (bit_vector)
                requires
                    p < 8,
                    s <= 0x1FFF,
                    n <= 0x7F,
            ;
        }
        (p << PRIORITY_SHIFT) | RESERVED_21_22 | (s << SUBJECT_SHIFT) | n
    }
}

/// Decode a 29-bit extended CAN identifier as a Cyphal message id.
///
/// Bits above bit 28 are masked off first: SocketCAN carries EFF/RTR/ERR flags
/// there on a raw frame. Reserved bits are ignored; a service transfer or an
/// anonymous message is rejected.
pub fn decode_message_id(can_id: u32) -> (r: Result<MessageId, DecodeError>)
    ensures
        match r {
            Ok(id) => id_rejection(can_id) is None && has_fields(can_id, id),
            Err(e) => id_rejection(can_id) == Some(e),
        },
{
    let id: u32 = can_id & EXTENDED_ID_MASK;
    proof {
        lemma_id_bits(can_id);
    }
    if id & SERVICE_BIT != 0 {
        return Err(DecodeError::NotAMessage);
    }
    if id & ANONYMOUS_BIT != 0 {
        return Err(DecodeError::Anonymous);
    }
    let priority = Priority::from_bits((id >> PRIORITY_SHIFT) as u8);
    let subject: u16 = ((id >> SUBJECT_SHIFT) & SUBJECT_MASK) as u16;
    let node: u8 = (id & NODE_MASK) as u8;
    // The field widths guarantee validity.
    Ok(MessageId { priority, subject_id: SubjectId(subject), source_node_id: NodeId(node) })
}

proof fn lemma_id_bits(can_id: u32)
    by (bit_vector)
    ensures
        ((can_id & 0x1FFF_FFFF) & 0x0200_0000 != 0) <==> (can_id / 0x0200_0000) % 2 == 1,
        ((can_id & 0x1FFF_FFFF) & 0x0100_0000 != 0) <==> (can_id / 0x0100_0000) % 2 == 1,
        ((can_id & 0x1FFF_FFFF) >> 26) == (can_id / 0x0400_0000) % 8,
        ((can_id & 0x1FFF_FFFF) >> 26) as u8 == (can_id / 0x0400_0000) % 8,
        (((can_id & 0x1FFF_FFFF) >> 8) & 0x1FFF) == (can_id / 0x100) % 0x2000,
        (((can_id & 0x1FFF_FFFF) >> 8) & 0x1FFF) as u16 == (can_id / 0x100) % 0x2000,
        (((can_id & 0x1FFF_FFFF) >> 8) & 0x1FFF) as u16 <= 0x1FFF,
        ((can_id & 0x1FFF_FFFF) & 0x7F) as u8 == can_id % 0x80,
        ((can_id & 0x1FFF_FFFF) & 0x7F) as u8 <= 0x7F,
{
}

/// Two message ids with the same level, subject and node are the same.
proof fn lemma_id_is_its_fields(a: MessageId, b: MessageId)
    requires
        a.priority.level() == b.priority.level(),
        a.subject_id@ == b.subject_id@,
        a.source_node_id@ == b.source_node_id@,
    ensures
        a == b,
{
}

/// The priority, service and anonymous bits all lie in bits 28..24.
proof fn lemma_structural_bits(can_id: u32)
    ensures
        ({
            let top = (can_id as int / 0x0100_0000) % 0x20;
            &&& (can_id as int / 0x0400_0000) % 8 == top / 4
            &&& id_bit(can_id, 0x0200_0000) == ((top / 2) % 2 == 1)
            &&& id_bit(can_id, 0x0100_0000) == (top % 2 == 1)
        }),
{
    let q = can_id as int / 0x0100_0000;
    vstd::arithmetic::div_mod::lemma_div_denominator(can_id as int, 0x0100_0000, 2);
    vstd::arithmetic::div_mod::lemma_div_denominator(can_id as int, 0x0100_0000, 4);
    assert(can_id as int / 0x0200_0000 == q / 2);
    assert(can_id as int / 0x0400_0000 == q / 4);
}

/// An identifier has at most one decoding, and decoding reads nothing but
/// bits 28..24, 20..8 and 6..0: identifiers that agree there decode alike,
/// whatever flags stand above bit 28 and whatever the reserved bits hold.
pub proof fn decoding_ignores_flags_and_reserved_bits(a: u32, b: u32, x: MessageId, y: MessageId)
    requires
        (a as int / 0x0100_0000) % 0x20 == (b as int / 0x0100_0000) % 0x20,
        (a as int / 0x100) % 0x2000 == (b as int / 0x100) % 0x2000,
        a as int % 0x80 == b as int % 0x80,
        has_fields(a, x),
        has_fields(b, y),
    ensures
        x == y,
        id_rejection(a) == id_rejection(b),
{
    lemma_structural_bits(a);
    lemma_structural_bits(b);
    lemma_id_is_its_fields(x, y);
}

/// Decoding an assembled identifier gives the message id back, flags above
/// bit 28 included or not.
pub proof fn decoding_inverts_assembly(id: MessageId, flags: int, can_id: u32, back: MessageId)
    requires
        0 <= id.subject_id@ <= SUBJECT_ID_MAX,
        0 <= id.source_node_id@ <= NODE_ID_MAX,
        can_id == can_id_of(id) + flags * 0x2000_0000,
        0 <= flags < 8,
    ensures
        id_rejection(can_id) is None,
        has_fields(can_id, back) <==> back == id,
{
    let l = id.priority.level();
    let s = id.subject_id@;
    let n = id.source_node_id@;
    let c = can_id as int;
    assert(c % 0x80 == n);
    assert(c / 0x100 == flags * 0x20_0000 + l * 0x4_0000 + 0x6000 + s);
    assert((c / 0x100) % 0x2000 == s);
    assert(c / 0x0100_0000 == flags * 0x20 + l * 4);
    assert(c / 0x0200_0000 == flags * 0x10 + l * 2);
    assert(c / 0x0400_0000 == flags * 8 + l);
    if has_fields(can_id, back) {
        lemma_id_is_its_fields(back, id);
    }
}

/// The eight levels rank from the most urgent, zero, to the least, seven, in
/// the order they are named.
pub proof fn levels_rank_by_urgency(p: Priority)
    ensures
        0 == Priority::Exceptional.level() < Priority::Immediate.level() < Priority::Fast.level()
            < Priority::High.level() < Priority::Nominal.level() < Priority::Low.level()
            < Priority::Slow.level() < Priority::Optional.level() == 7,
        0 <= p.level() <= 7,
{
}

/// Every field of an assembled identifier stands at its own bits: the priority
/// at 28..26, the subject at 20..8, the node at 6..0; the service, anonymous
/// and reserved bits 25..23 and 7 are clear, the reserved bits 22..21 set, and
/// nothing stands above bit 28.
pub proof fn assembled_fields_stand_at_their_bits(id: MessageId, can_id: int)
    requires
        0 <= id.subject_id@ <= SUBJECT_ID_MAX,
        0 <= id.source_node_id@ <= NODE_ID_MAX,
        can_id == can_id_of(id),
    ensures
        can_id / 0x0400_0000 == id.priority.level(),
        (can_id / 0x0080_0000) % 8 == 0,
        (can_id / 0x0020_0000) % 4 == 3,
        (can_id / 0x100) % 0x2000 == id.subject_id@,
        (can_id / 0x80) % 2 == 0,
        can_id % 0x80 == id.source_node_id@,
        0 <= can_id < 0x2000_0000,
{
    let l = id.priority.level();
    let s = id.subject_id@;
    let n = id.source_node_id@;
    assert(0 <= l <= 7);
    assert(can_id == l * 0x0400_0000 + 0x60_0000 + s * 0x100 + n);
    assert(can_id / 0x80 == l * 0x8_0000 + 0xc000 + s * 2);
    assert(can_id / 0x100 == l * 0x4_0000 + 0x6000 + s);
    assert(can_id / 0x0020_0000 == l * 0x20 + 3);
    assert(can_id / 0x0080_0000 == l * 8);
}

/// An identifier is refused exactly when its service bit, 25, or else its
/// anonymous bit, 24, is set, and its fields are read from bits 28..26, 20..8
/// and 6..0.
pub proof fn identifier_is_read_by_its_bits(can_id: u32, id: MessageId)
    ensures
        (can_id as int / 0x0200_0000) % 2 == 1 ==> id_rejection(can_id) == Some(
            DecodeError::NotAMessage,
        ),
        (can_id as int / 0x0200_0000) % 2 == 0 && (can_id as int / 0x0100_0000) % 2 == 1
            ==> id_rejection(can_id) == Some(DecodeError::Anonymous),
        (can_id as int / 0x0200_0000) % 2 == 0 && (can_id as int / 0x0100_0000) % 2 == 0
            ==> id_rejection(can_id) is None,
        has_fields(can_id, id) <==> id.priority.level() == (can_id as int / 0x0400_0000) % 8
            && id.subject_id@ == (can_id as int / 0x100) % 0x2000 && id.source_node_id@
            == can_id as int % 0x80,
{
}

} // verus!
