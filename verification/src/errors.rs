//! Error kinds surfaced by the library.

use vstd::prelude::*;

verus! {

/// The error surface of the coordination core.
#[derive(Clone, Copy, PartialEq, Eq, Structural, Debug)]
pub enum CaptchaError {
    /// A message was directed at a site id that the master does not hold.
    UnknownSite,
    /// The target actor is stopped or unreachable.
    ActorMailboxFailure,
    /// The external cache backend reported an error.
    BackendUnavailable,
    /// Defense construction was rejected: empty, unsorted, duplicate
    /// thresholds, or a first threshold other than zero.
    InvalidDefense,
}

} // verus!
