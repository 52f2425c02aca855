//! The typed request messages that callers send to the challenge cache and
//! to the master. Each request has a matching reply; the enums in
//! [`crate::cache`] and [`crate::master`] bundle them for the mailbox
//! loops.

use vstd::prelude::*;

use crate::counter::Counter;

verus! {

/// Store an issued puzzle's parameters under its challenge string.
pub struct CachePoW {
    pub string: String,
    pub difficulty_factor: u32,
    pub duration: u64,
    pub key: String,
}

/// Read-and-remove the puzzle stored under a challenge string.
pub struct RetrivePoW(pub String);

/// Drop the puzzle stored under a challenge string.
pub struct DeletePoW(pub String);

/// Store a redemption token for a site key.
pub struct CacheResult {
    pub token: String,
    pub key: String,
    pub duration: u64,
}

/// Read-and-remove a token, checking the supplied site key against the
/// stored one.
pub struct VerifyCaptchaResult {
    pub token: String,
    pub key: String,
}

/// Drop the entry stored under a token.
pub struct DeleteCaptchaResult {
    pub token: String,
}

/// Register a counter under a site id.
pub struct AddSite {
    pub id: String,
    pub counter: Counter,
}

/// Count one visitor of the given site in.
pub struct AddVisitor(pub String);

/// Stop a site's counter and drop it.
pub struct RemoveCaptcha(pub String);

/// Re-key a site to a new id.
pub struct Rename {
    pub name: String,
    pub rename_to: String,
}

} // verus!
