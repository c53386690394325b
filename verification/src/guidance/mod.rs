//! Guidance: one control tick from the effective setpoint plus the current
//! state estimate to a generalized force demand.
//!
//! Which law applies on a tick, which leg of a path is active, what heading is
//! held and when an underactuated hull drifts are decided here; the host works
//! out the geometry before a tick and evaluates the law after it. State is
//! limited to progress: the current segment index, the hold heading and the
//! drift flag persist across ticks, and a changed setpoint resets them.

pub mod saturation;
pub mod sequencing;

pub use saturation::{approach_speed, saturate};
pub use sequencing::{Geometry, Guidance, Law, Leg};
