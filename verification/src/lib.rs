//! Session layer for a host that lets remote clients drive virtual gamepads
//! over long-lived connections.
//!
//! The library holds the logic of that system: the session registry with its
//! admission policy (`registry`), the per-client gamepad state (`controller`),
//! the message protocol and its replies (`protocol`), client-identity
//! resolution (`identity`), and the proved properties that tie them together
//! (`laws`). Transport, timers and the real input device are left to the
//! embedding program, which feeds this library plain values (parsed messages,
//! clock readings in milliseconds, device markers) and carries out the
//! replies and emissions it returns.

pub mod connection;
pub mod controller;
pub mod identity;
pub mod laws;
pub mod protocol;
pub mod registry;
