//! The secret portal stub.
//!
//! The service is declared and versioned, but stores nothing: every
//! retrieval request is answered with one fixed failure.

use vstd::prelude::*;

verus! {

/// Static secret-portal configuration.
#[derive(Clone, Copy, PartialEq, Eq, Structural, Debug)]
pub struct SecretConfig {
    pub enabled: bool,
}

/// The secret portal service.
pub struct SecretService;

impl SecretService {
    /// The protocol version this service answers with.
    pub fn version(&self) -> (r: u32)
        ensures
            r == 1,
    {
        1
    }

    /// The failure text every retrieval request is answered with: the
    /// service is a stub.
    pub fn unsupported_message(&self) -> (r: String)
        ensures
            r@ == "not yet implemented"@,
    {
        "not yet implemented".to_owned()
    }
}

} // verus!
