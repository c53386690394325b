use vstd::prelude::*;

verus! {

/// Typed decode rejections, each a bare unit case.
#[derive(Copy, Clone, Debug, PartialEq, Eq, Structural)]
pub enum DecodeError {
    /// The CAN id's service-vs-message bit is set: this is a service (RPC)
    /// transfer, not a message. This transport handles messages only.
    NotAMessage,
    /// The CAN id's anonymous bit is set: an anonymous message carries a
    /// pseudo-node-id, so it cannot be attributed to a fixed-id node.
    Anonymous,
    /// The CAN frame carried no data bytes, so there is no tail byte to read.
    Empty,
    /// The tail byte does not mark a single-frame transfer (start-of-transfer
    /// and end-of-transfer are not both set): this is one frame of a
    /// multi-frame transfer, which this transport does not reassemble.
    MultiFrame,
}

} // verus!
