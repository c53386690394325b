//! Types shared by every part of the core; kept small and stable. External
//! interfaces adapt to these types at the edges, never the other way around.

pub mod actuator;
pub mod bounded;
pub mod config;
pub mod conn;
pub mod effector;
pub mod geo;
pub mod guidance;
pub mod health;
pub mod measurement;
pub mod power;
pub mod state;
pub mod time;

pub use actuator::{ActuatorCommand, ActuatorFeedback, ForceDemand};
pub use bounded::{BoundedList, CapacityError};
pub use config::{ConnGrantDefault, EstimatorConfig, Fossen3DofParams, GeofenceAction};
pub use config::{GeofenceConfig, License, ModelParams, SensorConfig, SensorId, SensorRole};
pub use config::{SupervisorConfig, VesselConfig};
pub use conn::{autonomy, ArmingState, ClaimantId, ClaimantPriority, ConnState};
pub use effector::{ActuationCapability, ActuatorOutputs, EffectorConfig, EffectorId};
pub use effector::{EffectorKind, MAX_EFFECTORS};
pub use geo::GeoPoint;
pub use guidance::Setpoint;
pub use health::{EstimatorHealth, HealthLevel};
pub use measurement::{GnssFixMode, Measurement, MeasurementKind};
pub use power::PowerStatus;
pub use state::{BodyVelocity, Covariance, Pose, VesselState};
pub use time::{Duration, Timestamp};
