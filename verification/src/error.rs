//! The errors of this library.

use vstd::prelude::*;

verus! {

/// Why an operation of this library failed.
#[derive(Debug, Clone, Copy, PartialEq, Eq, Hash, Structural)]
pub enum Failure {
    /// No credential is available: neither the caller nor the session helper
    /// supplied a token.
    AuthenticationRequired,
    /// A header value holds a character that no header may carry.
    InvalidHeaderValue,
    /// The HTTP client could not be built.
    ClientUnavailable,
    /// The index holds no milestone of the title.
    MilestoneNotFound,
}

} // verus!
