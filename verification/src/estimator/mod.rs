//! State estimation intake: which measurements reach the filter, when the
//! filter starts, what each accepted measurement asks of it, and how healthy
//! it reports to be. Fuses only the sensors the vessel manifest licenses as
//! inner_loop.
//!
//! The filter arithmetic is the host's: [`Estimator::handle`] takes the
//! figures the host has computed and returns the [`Step`] it has to perform.

pub mod ekf;
pub mod intake;
pub mod screen;

pub use ekf::{below_speed_floor, cog_min_speed, Ekf, ProcessModel};
pub use intake::{Estimator, Moment, Step, Update};
pub use screen::{symmetry_scale, Figures, Rejection};
