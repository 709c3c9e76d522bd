//! A graph-based runtime for chaining processing units ("agents") through a
//! dynamically routed graph. Each node owns an agent and a node-local
//! capability registry; a run threads each agent's output into the next
//! agent's input until an agent stops routing or names a missing node.

pub mod agents;
pub mod bridge;
pub mod errors;
pub mod generate;
pub mod graph;
pub mod json;
pub mod text;
pub mod tools;
pub use errors::{LLMGraphError, LLMGraphResult};
pub use graph::{Agent, Graph};
pub use tools::{Message, Tool, ToolRegistry};

use vstd::prelude::*;

verus! {

/// Adds two numbers; kept for compatibility with early versions of the API.
pub fn add(left: u64, right: u64) -> (r: u64)
    requires
        left + right <= u64::MAX,
    ensures
        r == left + right,
{
    left + right
}

} // verus!
