//! Outcome of a tool execution as the agent sees it.
use vstd::prelude::*;

verus! {

/// Whether a tool ran successfully, and the text it produced.
#[derive(Debug, Clone)]
pub struct ToolResult {
    pub success: bool,
    pub content: String,
}

impl ToolResult {
    /// Abstract outcome: success flag and text.
    pub open spec fn view_pair(&self) -> (bool, Seq<char>) {
        (self.success, self.content@)
    }
}

} // verus!
