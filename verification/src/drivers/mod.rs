//! The driver trait: init, self-test, timestamped read; and the drivers.
//!
//! ## Timestamping policy
//!
//! A reading's timestamp is the ACQUISITION time: the instant the underlying
//! bytes were captured at the transport, never the instant parsing finished.
//! Drivers never read a clock themselves; the caller captures the timestamp
//! and passes it in, and the driver must stamp its reading with exactly that
//! value.

pub mod actuator_serial;
pub mod cyphal_actuator;
pub mod gnss0183;
pub mod output;
pub mod power_report;
pub mod pwm;
pub mod rc;
pub mod wire;

use vstd::prelude::*;

use crate::contract::Timestamp;

verus! {

/// init, self-test, timestamped read: the three capabilities every driver
/// exposes. Blocking; see the timestamping policy for the meaning of
/// `acquired_at`.
pub trait Driver {
    /// What a successful read produces.
    type Reading;

    /// Small error enum. Callers match on it; it is not rendered for humans.
    type Error;

    /// The timestamp a reading carries; each driver says for itself where that
    /// stands. A verified driver with readings must define this: with the
    /// default, which says nothing, no reading can be shown to be stamped.
    open spec fn stamp_of(reading: Self::Reading) -> Timestamp {
        arbitrary()
    }

    /// One-time bring-up: bus/device init, defaults written.
    fn init(&mut self) -> (r: Result<(), Self::Error>);

    /// Health check distinct from `init`; callers may run it repeatedly, not
    /// only at bring-up.
    fn self_test(&mut self) -> (r: Result<(), Self::Error>);

    /// Blocks until a reading is available and stamps it with `acquired_at`,
    /// the acquisition-time timestamp supplied by the caller.
    fn read_with_timestamp(&mut self, acquired_at: Timestamp) -> (r: Result<
        Self::Reading,
        Self::Error,
    >)
        ensures
            r matches Ok(reading) ==> Self::stamp_of(reading) == acquired_at,
    ;
}

} // verus!
