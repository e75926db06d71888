//! The Discord side of the relay.

pub mod frames;
pub mod trace;
pub mod wss;
