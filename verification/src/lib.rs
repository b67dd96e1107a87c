//! Core of a SockJS server: the session registry, the session record and its
//! frame buffer, the session context that user code talks to, and the
//! per-transport wire codecs with their shared acquire/release state machine.
//!
//! The actor plumbing (HTTP handling, timers, channels) lives outside this
//! crate; every operation here is a pure state transition that reports the
//! events and wire output it produced.

pub mod context;
pub mod json;
pub mod manager;
pub mod protocol;
pub mod transports;
