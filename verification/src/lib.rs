//! A verified core for a realtime speech gateway.
//!
//! The gateway bridges a simplified client-facing WebSocket surface to a
//! vendor's realtime speech API. This crate holds the parts with real
//! protocol logic: the text-preparation pipeline that feeds the synthesis
//! path, the JSON event wire format, the classification of upstream events,
//! the upstream session bootstrap plan, and the per-session bridge decisions.
//! The transports themselves (HTTP upgrade, WebSocket I/O, timers) live
//! outside the library and consume these functions.

pub mod bootstrap;
pub mod bridge;
pub mod chars;
pub mod chunk;
pub mod proxy;
pub mod sanitize;
pub mod translate;
pub mod wire;
