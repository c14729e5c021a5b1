//! The provider of prompt listings and prompt messages.

use vstd::prelude::*;
use crate::error::MCPError;
use crate::json::Json;

verus! {

/// Supplies prompt templates and their messages; implemented by the
/// hosting application.  Descriptors and messages are wire values.
pub trait PromptProvider {
    /// The prompts this provider exposes.
    fn get_prompts(&self) -> Vec<Json>;

    /// The messages for a specific prompt.
    fn get_prompt_messages(&self, name: &str) -> Result<Vec<Json>, MCPError>;
}

} // verus!
