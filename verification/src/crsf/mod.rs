//! CRSF (Crossfire/ExpressLRS) frame parser: strict by default, pure
//! bytes-to-frame-struct.
//!
//! Mapping a parsed frame onto a claim, and everything silence on the link
//! means, is the RC adapter's job; this module only parses frames.

pub mod accumulator;
pub mod crc;
pub mod error;
pub mod frame;

pub use accumulator::FrameReader;
pub use crc::crc8_dvb_s2;
pub use error::ParseError;
pub use frame::{channel_to_us, parse_frame, Frame, LinkStatisticsFrame, ParseOutcome};
pub use frame::{RcChannelsFrame, MAX_FRAME_LEN};
