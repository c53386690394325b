//! Cyphal/CAN v1.0 single-frame transport codec: 29-bit CAN id and tail byte
//! in and out.
//!
//! This is the transport layer only. It encodes and decodes the Cyphal/CAN
//! framing of one transfer, it is payload-agnostic, and it does not touch
//! sockets. Transfers longer than one CAN frame are out of scope: a received
//! frame of one is reported as such rather than mis-decoded.

pub mod error;
pub mod frame;
pub mod id;

pub use error::DecodeError;
pub use frame::{decode_single_frame, encode_single_frame, Frame, FrameData, SingleFrame, TailByte};
pub use frame::{MAX_SINGLE_FRAME_PAYLOAD, TRANSFER_ID_MAX};
pub use id::{decode_message_id, MessageId, NodeId, Priority, SubjectId};
pub use id::{NODE_ID_MAX, SUBJECT_ID_MAX};
