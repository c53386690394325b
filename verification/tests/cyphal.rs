use coxswain::cyphal::{
    decode_message_id, decode_single_frame, encode_single_frame, DecodeError, MessageId, NodeId,
    Priority, SubjectId, TailByte, MAX_SINGLE_FRAME_PAYLOAD,
};

const ITERATIONS: u64 = 20_000;

struct Rng(u64);

impl Rng {
    fn next_u64(&mut self) -> u64 {
        let mut x = self.0;
        x ^= x >> 12;
        x ^= x << 25;
        x ^= x >> 27;
        self.0 = x;
        x.wrapping_mul(0x2545_F491_4F6C_DD1D)
    }

    fn below(&mut self, n: usize) -> usize {
        (self.next_u64() % n as u64) as usize
    }
}

fn next_u32(rng: &mut Rng) -> u32 {
    (rng.next_u64() >> 16) as u32
}

const PRIORITIES: [Priority; 8] = [
    Priority::Exceptional,
    Priority::Immediate,
    Priority::Fast,
    Priority::High,
    Priority::Nominal,
    Priority::Low,
    Priority::Slow,
    Priority::Optional,
];

#[test]
fn decode_never_panics_on_arbitrary_input() {
    let mut rng = Rng(0x1234_5678_9ABC_DEF0);
    for _ in 0..ITERATIONS {
        let can_id = next_u32(&mut rng);
        let len = rng.below(9);
        let mut data = [0u8; 8];
        for b in data.iter_mut().take(len) {
            *b = (rng.next_u64() & 0xFF) as u8;
        }
        let _ = decode_single_frame(can_id, &data[..len]);
    }
}

#[test]
fn encode_then_decode_round_trips_for_valid_payloads() {
    let mut rng = Rng(0x0FED_CBA9_8765_4321);
    for _ in 0..ITERATIONS {
        let id = MessageId {
            priority: PRIORITIES[rng.below(PRIORITIES.len())],
            subject_id: SubjectId::new((rng.next_u64() % 8192) as u16).unwrap(),
            source_node_id: NodeId::new((rng.next_u64() % 128) as u8).unwrap(),
        };
        let transfer_id = (rng.next_u64() & 0x1F) as u8;
        let len = rng.below(MAX_SINGLE_FRAME_PAYLOAD + 1);
        let mut payload = [0u8; MAX_SINGLE_FRAME_PAYLOAD];
        for b in payload.iter_mut().take(len) {
            *b = (rng.next_u64() & 0xFF) as u8;
        }
        let payload = &payload[..len];

        let frame = encode_single_frame(id, transfer_id, payload).unwrap();
        let decoded = decode_single_frame(frame.can_id, frame.data()).unwrap();
        assert_eq!(decoded.id, id);
        assert_eq!(decoded.transfer_id, transfer_id);
        assert_eq!(decoded.payload, payload);
    }
}

fn msg(priority: Priority, subject: u16, node: u8) -> MessageId {
    MessageId {
        priority,
        subject_id: SubjectId::new(subject).unwrap(),
        source_node_id: NodeId::new(node).unwrap(),
    }
}

#[test]
fn can_id_matches_hand_computed_bits() {
    let id = msg(Priority::Nominal, 100, 11);
    assert_eq!(id.to_can_id(), 0x1060_640B);
    assert_eq!(decode_message_id(0x1060_640B), Ok(id));
}

#[test]
fn highest_priority_lowest_fields() {
    let id = msg(Priority::Exceptional, 0, 0);
    assert_eq!(id.to_can_id(), 0x0060_0000);
    assert_eq!(decode_message_id(0x0060_0000), Ok(id));
}

#[test]
fn max_fields_round_trip() {
    let id = msg(Priority::Optional, 8191, 127);
    assert_eq!(id.to_can_id(), 0x1C7F_FF7F);
    assert_eq!(decode_message_id(id.to_can_id()), Ok(id));
}

#[test]
fn eff_flag_bits_above_29_are_masked_off() {
    let raw = 0x1060_640B | 0x8000_0000;
    assert_eq!(decode_message_id(raw), Ok(msg(Priority::Nominal, 100, 11)));
}

#[test]
fn single_frame_tail_byte_and_payload() {
    let id = msg(Priority::High, 42, 12);
    let frame = encode_single_frame(id, 5, &[0xDE, 0xAD]).unwrap();
    assert_eq!(frame.can_id, id.to_can_id());
    assert_eq!(frame.data(), &[0xDE, 0xAD, 0xE5]);

    let decoded = decode_single_frame(frame.can_id, frame.data()).unwrap();
    assert_eq!(decoded.id, id);
    assert_eq!(decoded.transfer_id, 5);
    assert_eq!(decoded.payload, &[0xDE, 0xAD]);
}

#[test]
fn empty_payload_single_frame_is_just_the_tail() {
    let id = msg(Priority::Nominal, 7, 1);
    let frame = encode_single_frame(id, 0, &[]).unwrap();
    assert_eq!(frame.data(), &[0xE0]);
    let decoded = decode_single_frame(frame.can_id, frame.data()).unwrap();
    assert!(decoded.payload.is_empty());
    assert_eq!(decoded.transfer_id, 0);
}

#[test]
fn full_seven_byte_payload_round_trips() {
    let id = msg(Priority::Fast, 1000, 21);
    let payload = [1, 2, 3, 4, 5, 6, 7];
    let frame = encode_single_frame(id, 31, &payload).unwrap();
    assert_eq!(frame.len(), 8);
    assert!(!frame.is_empty());
    let decoded = decode_single_frame(frame.can_id, frame.data()).unwrap();
    assert_eq!(decoded.payload, &payload);
    assert_eq!(decoded.transfer_id, 31);
}

#[test]
fn transfer_id_is_masked_to_five_bits() {
    let id = msg(Priority::Nominal, 1, 1);
    let frame = encode_single_frame(id, 32, &[]).unwrap();
    assert_eq!(
        decode_single_frame(frame.can_id, frame.data())
            .unwrap()
            .transfer_id,
        0
    );
}

fn good_id() -> MessageId {
    MessageId {
        priority: Priority::Nominal,
        subject_id: SubjectId::new(100).unwrap(),
        source_node_id: NodeId::new(11).unwrap(),
    }
}

#[test]
fn service_frame_is_rejected() {
    let can_id = good_id().to_can_id() | (1 << 25);
    assert_eq!(decode_message_id(can_id), Err(DecodeError::NotAMessage));
}

#[test]
fn anonymous_message_is_rejected() {
    let can_id = good_id().to_can_id() | (1 << 24);
    assert_eq!(decode_message_id(can_id), Err(DecodeError::Anonymous));
}

#[test]
fn service_bit_outranks_the_anonymous_bit() {
    let can_id = good_id().to_can_id() | (1 << 25) | (1 << 24);
    assert_eq!(decode_message_id(can_id), Err(DecodeError::NotAMessage));
}

#[test]
fn reserved_bits_are_ignored_on_receive() {
    let can_id = good_id().to_can_id() & !(0b11 << 21);
    assert_eq!(decode_message_id(can_id), Ok(good_id()));
}

#[test]
fn empty_can_frame_has_no_tail_byte() {
    assert_eq!(
        decode_single_frame(good_id().to_can_id(), &[]),
        Err(DecodeError::Empty)
    );
}

#[test]
fn multi_frame_start_is_rejected() {
    let data = [0x01, 0x02, 0x80];
    assert_eq!(
        decode_single_frame(good_id().to_can_id(), &data),
        Err(DecodeError::MultiFrame)
    );
}

#[test]
fn multi_frame_middle_is_rejected() {
    let data = [0x01, 0x02, 0x00];
    assert_eq!(
        decode_single_frame(good_id().to_can_id(), &data),
        Err(DecodeError::MultiFrame)
    );
}

#[test]
fn the_tail_byte_is_judged_before_the_identifier() {
    for flag in [1 << 25, 1 << 24] {
        let can_id = good_id().to_can_id() | flag;
        assert_eq!(
            decode_single_frame(can_id, &[]),
            Err(DecodeError::Empty)
        );
        assert_eq!(
            decode_single_frame(can_id, &[0x01, 0x00]),
            Err(DecodeError::MultiFrame)
        );
    }
    // A whole transfer comes down to its identifier.
    let whole = [0x01, 0xE0];
    assert_eq!(
        decode_single_frame(good_id().to_can_id() | (1 << 25), &whole),
        Err(DecodeError::NotAMessage)
    );
    assert_eq!(
        decode_single_frame(good_id().to_can_id() | (1 << 24), &whole),
        Err(DecodeError::Anonymous)
    );
}

#[test]
fn oversize_payload_does_not_encode() {
    let payload = [0u8; MAX_SINGLE_FRAME_PAYLOAD + 1];
    assert_eq!(encode_single_frame(good_id(), 0, &payload), None);
}

#[test]
fn out_of_range_subject_and_node_do_not_construct() {
    assert_eq!(SubjectId::new(8192), None);
    assert!(SubjectId::new(8191).is_some());
    assert_eq!(NodeId::new(128), None);
    assert!(NodeId::new(127).is_some());
}

#[test]
fn every_tail_byte_round_trips() {
    for b in 0..=255u8 {
        assert_eq!(TailByte::from_byte(b).to_byte(), b);
    }
    let tail = TailByte {
        start_of_transfer: true,
        end_of_transfer: false,
        toggle: true,
        transfer_id: 33,
    };
    assert_eq!(tail.to_byte(), 0xA1);
    assert_eq!(TailByte::from_byte(0xA1).transfer_id, 1);
}
