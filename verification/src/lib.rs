//! A verified core for model checking systems of communicating actors.
//!
//! Actors (deterministic state machines with typed command output) are lifted
//! into a single nondeterministic global transition system over an
//! asynchronous, optionally lossy, optionally duplicating network. The
//! exploration-facing interface — one initial snapshot, an enumeration of
//! legal actions, and a pure successor function — is specified exactly, so an
//! external explorer can drive it deterministically and reproducibly.
#![verifier::loop_isolation(false)]

pub mod actor;
pub mod laws;
pub mod network;
pub mod ping_pong;
pub mod register;
pub mod samples;
pub mod semantics;
pub mod system;
