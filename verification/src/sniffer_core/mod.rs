//! Character state tracking for the sniffer: which account and character
//! each game client has, and the character's vitals and position.

pub mod model;
pub mod event;
pub mod state;
