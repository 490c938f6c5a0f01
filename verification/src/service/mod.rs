//! Character state tracking for the telemetry service: which account and
//! character each game client has, their vitals, skills, effects, items and
//! position, and the market listings seen on the wire.

pub mod model;
pub mod event;
pub mod state;
