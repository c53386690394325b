//! Control allocation: maps guidance's generalized tau onto per-effector
//! physical outputs (N thrust, rad rudder angle) through the effector table.
//!
//! The host solves the weighted normal equations for every effector still
//! free; the saturation redistribution lives here: clamp the worst relative
//! limit violator, take it out of the free set, and ask for the next solve.

pub mod effectors;
pub mod redistribution;

pub use effectors::{capability, effective_speed, limits, ConfigError, Reach};
pub use redistribution::{Allocation, Allocator, Plan, Redistribution, Verdict};
