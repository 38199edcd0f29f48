//! Policy-and-state engine of a privacy-enforcing intercepting proxy:
//! domain blocking with auto-block escalation, cookie policy evaluation,
//! fingerprint rotation, an append-only event pipeline, and a tracking
//! store with retention cleanup.

pub mod blocker;
pub mod config;
pub mod cookie;
pub mod pipeline;
pub mod proxy;
pub mod randomizer;
pub mod store;
pub mod text;
