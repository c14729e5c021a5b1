//! The authentication hook.

use vstd::prelude::*;
use crate::error::MCPError;

verus! {

/// Authenticates a request; implemented by the hosting application.
pub trait AuthProvider {
    /// Authenticate a request with the given token.
    fn authenticate(&self, token: &str) -> Result<bool, MCPError>;
}

} // verus!
