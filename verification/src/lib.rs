//! A small marine autopilot core: wire formats, sensor intake, guidance and
//! allocation decisions, with their behaviour stated as contracts and proved.
//!
//! Floating-point quantities are carried as [`scalar::Scalar`] bit patterns.
//! Everything that compares, selects, gates or frames them lives here; the
//! floating-point arithmetic itself is done by the host around this crate.

pub mod allocation;
pub mod contract;
pub mod crsf;
pub mod cyphal;
pub mod drivers;
pub mod estimator;
pub mod guidance;
pub mod narrow;
pub mod scalar;
