//! A verified core for bounded wireless-peripheral discovery.
//!
//! The library models one scanning session: an adapter is selected, a hardware
//! scan is started, discovery input is consumed — either an event stream or a
//! single polled snapshot — and every observation is folded into a registry
//! that keeps one entry per device address. The session is bounded by a
//! wall-clock duration, and the scan is stopped exactly once on every exit
//! path. The host radio itself (an asynchronous, fallible collaborator) stays
//! outside; the library decides, for each host reply, what happens next.

pub mod device;
pub mod errors;
pub mod exporter;
pub mod registry;
pub mod runner;
pub mod selector;
pub mod session;
