//! Relay of Discord gateway events to a downstream webhook.

pub mod backoff;
pub mod delay;
pub mod discord;
pub mod dispatch;
pub mod hashing;
pub mod http;
pub mod json;
pub mod lane;
pub mod logging;
pub mod metrics;
pub mod model;
pub mod spectrum;
pub mod supervisor;
pub mod text;
pub mod webhook;
