//! Watchdog core for a WireGuard tunnel interface.
//!
//! The library holds the verified decision logic of a supervisory daemon:
//! parsing a handshake timestamp out of status text, judging staleness
//! against a timeout, and the per-iteration decisions of the monitoring
//! loop. Process spawning, the wall clock and sleeping live outside the
//! library; they hand plain values in and take plain values back.

pub mod config;
pub mod liveness;
pub mod parse;
pub mod supervisor;
