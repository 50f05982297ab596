//! Orchestration core of a two-party TLS key derivation and keystream engine.
//!
//! Two parties, a leader and a follower, derive the keys of a TLS session
//! and the key stream of its records inside a secure-computation session, so
//! that neither learns the other's secrets. This crate decides which
//! operations the session has to perform and in which order, and tracks the
//! state of the engines that issue them. It never talks to the session
//! itself: every engine hands out the operations as plain data and is told
//! afterwards how running them ended.
//!
//! - [`vm`]: the values of a session and the operations on them.
//! - [`prf`]: the state machine that derives session keys and verify data.
//! - [`keystream`]: counter-mode key stream with blocks prepared ahead.
//! - [`ideal`] and [`laws`]: what the plans of the key stream mean in a
//!   session where nothing fails, and what holds of them.
//! - [`ghash`]: the ideal GHASH functionality.
//! - [`gate`]: boolean circuit elements.
//! - [`config`] and [`error`]: roles, modes and errors.

pub mod config;
pub mod error;
pub mod gate;
pub mod ghash;
pub mod ideal;
pub mod keystream;
pub mod laws;
pub mod prf;
pub mod vm;
