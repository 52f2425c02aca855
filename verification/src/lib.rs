//! In-memory coordination core of a proof-of-work based denial-of-service
//! protection service.
//!
//! Visitors arriving at a protected origin are issued a puzzle whose
//! difficulty rises with current load; a correct solution yields a
//! short-lived token the origin can verify at most once.
//!
//! Every component is a plain state machine over explicit clock values:
//! the caller supplies the current time to each operation, and timer-driven
//! work (visitor decrements, cache expiry, garbage collection) is exposed
//! as ordinary functions that a runtime invokes when the deadline is due.

pub mod cache;
pub mod counter;
pub mod messages;
pub mod defense;
pub mod errors;
pub mod kv;
pub mod master;
