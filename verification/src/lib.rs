//! Verified core of a network-event collection service: correlation of
//! security events over sliding time windows, enrollment-token admission,
//! agent registration, and the small text and configuration rules that the
//! server and the collector agree on.

pub mod codec;
pub mod collector;
pub mod config;
pub mod kafka;
pub mod registry;
pub mod rules;
pub mod server;
pub mod text;
