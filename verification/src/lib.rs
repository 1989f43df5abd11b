//! Core of a simulated two-phase-commit (2PC) system: the wire-level message
//! model, the append-only decision log with its textual record format, and the
//! coordinator, participant and client state machines.
//!
//! All I/O — channel transport, timers, random draws, file persistence — is
//! left to the surrounding program. The functions here take the observed
//! events (a received message, a Bernoulli outcome, a timeout) as plain
//! arguments and return the messages to send, so the protocol rules themselves
//! are verified.

pub mod message;
pub mod numerals;
pub mod oplog;
pub mod codec;
pub mod status;
pub mod client;
pub mod coordinator;
pub mod participant;
