//! The provider of resource listings and resource contents.

use vstd::prelude::*;
use crate::error::MCPError;
use crate::json::Json;

verus! {

/// Supplies resource listings and contents; implemented by the hosting
/// application.  Descriptors and contents are wire values.
pub trait ResourceProvider {
    /// The resources this provider exposes.
    fn get_resources(&self) -> Vec<Json>;

    /// A specific resource, by its URI.
    fn get_resource(&self, uri: &str) -> Result<Json, MCPError>;
}

} // verus!
