//! What an output backend writes, and where it writes it.
//!
//! Allocation turns guidance's generalized tau into per-effector physical
//! outputs (newtons for a thruster, radians for a rudder), indexed parallel to
//! the effector table. Each bus kind has an output backend that takes those
//! and drives the effectors on its bus. I/O is injected: a backend renders or
//! encodes a tick's outputs and hands each transport write to the caller's
//! sink.

use vstd::prelude::*;

verus! {

/// One transport write emitted by an output backend: a serial byte line, or a
/// CAN frame. A backend emits only the variant matching its bus.
#[derive(Copy, Clone, Debug, PartialEq, Eq)]
pub enum OutputFrame<'a> {
    /// A serial byte line, framed and ready for the wire (`$CXOUT`).
    Serial(&'a [u8]),
    /// A CAN frame: 29-bit identifier and up to 8 data bytes (Cyphal/CAN).
    Can { can_id: u32, data: &'a [u8] },
}

/// A transport write by its contents.
pub ghost enum Emission {
    Serial(Seq<u8>),
    Can(u32, Seq<u8>),
}

impl<'a> View for OutputFrame<'a> {
    type V = Emission;

    open spec fn view(&self) -> Emission {
        match *self {
            OutputFrame::Serial(bytes) => Emission::Serial(bytes@),
            OutputFrame::Can { can_id, data } => Emission::Can(can_id, data@),
        }
    }
}

/// The transport an output backend writes to, injected by the caller.
pub trait ActuatorSink {
    /// Everything written so far, oldest first; each sink says for itself what
    /// that is. A verified sink must define this: with the default, which says
    /// nothing, no `emit` can be shown to write.
    open spec fn written(&self) -> Seq<Emission> {
        arbitrary()
    }

    fn emit(&mut self, frame: OutputFrame<'_>)
        ensures
            final(self).written() == old(self).written().push(frame@),
    ;
}

} // verus!
