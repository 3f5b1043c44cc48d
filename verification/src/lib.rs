//! Verified core of a single-connection wireless peripheral.
//!
//! The crate models the device's connection lifecycle — advertise, accept one
//! connection, serve attribute requests, notify, disconnect, re-advertise —
//! as explicit state machines with proved invariants.  The radio stack itself
//! is an external collaborator: the unverified binary drives these state
//! machines with the events the stack delivers.

pub mod advertise;
pub mod attributes;
pub mod device;
pub mod health;
pub mod led;
pub mod notifier;
pub mod session;
pub mod supervisor;
pub mod uuid_bytes;
