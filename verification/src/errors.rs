//! Error types: structural and configuration errors are returned synchronously
//! from management operations, capability errors from registry operations, and
//! each error renders a fixed message through its `message` method.

use vstd::prelude::*;
use vstd::string::StringExecFns;
use crate::text::{dec_str_int, i32_to_string};

verus! {

/// Errors related to node operations.
#[derive(Debug)]
pub enum NodeError {
    NodeNotFound(i32),
    NodeAlreadyExists(i32),
    InvalidNodeId(i32),
}

/// Errors related to tool operations.
#[derive(Debug)]
pub enum ToolError {
    ToolNotFound(String),
    ToolExecutionFailed { name: String, error: String },
    InvalidArguments { name: String, error: String },
    ToolAlreadyRegistered(String),
}

/// Errors related to calls on a remote completion service.
#[derive(Debug)]
pub enum ApiError {
    RequestFailed(String),
    InvalidResponse(String),
    RateLimitExceeded,
    AuthenticationFailed,
    Timeout,
}

/// Errors related to agent execution.
#[derive(Debug)]
pub enum AgentError {
    ExecutionFailed { agent: String, error: String },
    InvalidInput(String),
    InvalidOutput(String),
    MaxIterationsExceeded,
}

/// Errors related to graph structure.
#[derive(Debug)]
pub enum GraphError {
    CycleDetected,
    DisconnectedGraph,
    InvalidEdge { from: i32, to: i32 },
    EmptyGraph,
}

/// The main error type of the library.
#[derive(Debug)]
pub enum LLMGraphError {
    NodeError(NodeError),
    ToolError(ToolError),
    ApiError(ApiError),
    AgentError(AgentError),
    GraphError(GraphError),
    SerializationError(String),
}

/// Result alias for operations of this library.
pub type LLMGraphResult<T> = Result<T, LLMGraphError>;

impl NodeError {
    /// The message `message` renders.
    pub open spec fn spec_message(&self) -> Seq<char> {
        match self {
            NodeError::NodeNotFound(id) => "Node "@ + dec_str_int(*id as int) + " not found"@,
            NodeError::NodeAlreadyExists(id) => "Node "@ + dec_str_int(*id as int)
                + " already exists"@,
            NodeError::InvalidNodeId(id) => "Invalid node ID: "@ + dec_str_int(*id as int),
        }
    }

    /// Renders the error as text.
    pub fn message(&self) -> (r: String)
        ensures
            r@ == self.spec_message(),
    {
        match self {
            NodeError::NodeNotFound(id) => {
                let mut s = String::from_str("Node ");
                s.append(i32_to_string(*id).as_str());
                s.append(" not found");
                s
            },
            NodeError::NodeAlreadyExists(id) => {
                let mut s = String::from_str("Node ");
                s.append(i32_to_string(*id).as_str());
                s.append(" already exists");
                s
            },
            NodeError::InvalidNodeId(id) => {
                let mut s = String::from_str("Invalid node ID: ");
                s.append(i32_to_string(*id).as_str());
                s
            },
        }
    }
}

impl ToolError {
    /// The message `message` renders.
    pub open spec fn spec_message(&self) -> Seq<char> {
        match self {
            ToolError::ToolNotFound(name) => "Tool '"@ + name@ + "' not found"@,
            ToolError::ToolExecutionFailed { name, error } => "Tool '"@ + name@
                + "' execution failed: "@ + error@,
            ToolError::InvalidArguments { name, error } => "Invalid arguments for tool '"@ + name@
                + "': "@ + error@,
            ToolError::ToolAlreadyRegistered(name) => "Tool '"@ + name@
                + "' is already registered"@,
        }
    }

    /// Renders the error as text.
    pub fn message(&self) -> (r: String)
        ensures
            r@ == self.spec_message(),
    {
        match self {
            ToolError::ToolNotFound(name) => {
                let mut s = String::from_str("Tool '");
                s.append(name.as_str());
                s.append("' not found");
                s
            },
            ToolError::ToolExecutionFailed { name, error } => {
                let mut s = String::from_str("Tool '");
                s.append(name.as_str());
                s.append("' execution failed: ");
                s.append(error.as_str());
                s
            },
            ToolError::InvalidArguments { name, error } => {
                let mut s = String::from_str("Invalid arguments for tool '");
                s.append(name.as_str());
                s.append("': ");
                s.append(error.as_str());
                s
            },
            ToolError::ToolAlreadyRegistered(name) => {
                let mut s = String::from_str("Tool '");
                s.append(name.as_str());
                s.append("' is already registered");
                s
            },
        }
    }
}

impl ApiError {
    /// The message `message` renders.
    pub open spec fn spec_message(&self) -> Seq<char> {
        match self {
            ApiError::RequestFailed(msg) => "API request failed: "@ + msg@,
            ApiError::InvalidResponse(msg) => "Invalid API response: "@ + msg@,
            ApiError::RateLimitExceeded => "API rate limit exceeded"@,
            ApiError::AuthenticationFailed => "API authentication failed"@,
            ApiError::Timeout => "API request timed out"@,
        }
    }

    /// Renders the error as text.
    pub fn message(&self) -> (r: String)
        ensures
            r@ == self.spec_message(),
    {
        match self {
            ApiError::RequestFailed(msg) => {
                let mut s = String::from_str("API request failed: ");
                s.append(msg.as_str());
                s
            },
            ApiError::InvalidResponse(msg) => {
                let mut s = String::from_str("Invalid API response: ");
                s.append(msg.as_str());
                s
            },
            ApiError::RateLimitExceeded => String::from_str("API rate limit exceeded"),
            ApiError::AuthenticationFailed => String::from_str("API authentication failed"),
            ApiError::Timeout => String::from_str("API request timed out"),
        }
    }
}

impl AgentError {
    /// The message `message` renders.
    pub open spec fn spec_message(&self) -> Seq<char> {
        match self {
            AgentError::ExecutionFailed { agent, error } => "Agent '"@ + agent@
                + "' execution failed: "@ + error@,
            AgentError::InvalidInput(msg) => "Invalid input: "@ + msg@,
            AgentError::InvalidOutput(msg) => "Invalid output: "@ + msg@,
            AgentError::MaxIterationsExceeded => "Maximum iterations exceeded"@,
        }
    }

    /// Renders the error as text.
    pub fn message(&self) -> (r: String)
        ensures
            r@ == self.spec_message(),
    {
        match self {
            AgentError::ExecutionFailed { agent, error } => {
                let mut s = String::from_str("Agent '");
                s.append(agent.as_str());
                s.append("' execution failed: ");
                s.append(error.as_str());
                s
            },
            AgentError::InvalidInput(msg) => {
                let mut s = String::from_str("Invalid input: ");
                s.append(msg.as_str());
                s
            },
            AgentError::InvalidOutput(msg) => {
                let mut s = String::from_str("Invalid output: ");
                s.append(msg.as_str());
                s
            },
            AgentError::MaxIterationsExceeded => String::from_str("Maximum iterations exceeded"),
        }
    }
}

impl GraphError {
    /// The message `message` renders.
    pub open spec fn spec_message(&self) -> Seq<char> {
        match self {
            GraphError::CycleDetected => "Cycle detected in graph"@,
            GraphError::DisconnectedGraph => "Graph is disconnected"@,
            GraphError::InvalidEdge { from, to } => "Invalid edge from "@ + dec_str_int(
                *from as int,
            ) + " to "@ + dec_str_int(*to as int),
            GraphError::EmptyGraph => "Graph is empty"@,
        }
    }

    /// Renders the error as text.
    pub fn message(&self) -> (r: String)
        ensures
            r@ == self.spec_message(),
    {
        match self {
            GraphError::CycleDetected => String::from_str("Cycle detected in graph"),
            GraphError::DisconnectedGraph => String::from_str("Graph is disconnected"),
            GraphError::InvalidEdge { from, to } => {
                let mut s = String::from_str("Invalid edge from ");
                s.append(i32_to_string(*from).as_str());
                s.append(" to ");
                s.append(i32_to_string(*to).as_str());
                s
            },
            GraphError::EmptyGraph => String::from_str("Graph is empty"),
        }
    }
}

impl LLMGraphError {
    /// The message `message` renders: the category, then the wrapped error's
    /// own message.
    pub open spec fn spec_message(&self) -> Seq<char> {
        match self {
            LLMGraphError::NodeError(e) => "Node error: "@ + e.spec_message(),
            LLMGraphError::ToolError(e) => "Tool error: "@ + e.spec_message(),
            LLMGraphError::ApiError(e) => "API error: "@ + e.spec_message(),
            LLMGraphError::AgentError(e) => "Agent error: "@ + e.spec_message(),
            LLMGraphError::GraphError(e) => "Graph error: "@ + e.spec_message(),
            LLMGraphError::SerializationError(e) => "Serialization error: "@ + e@,
        }
    }

    /// Renders the error as text.
    pub fn message(&self) -> (r: String)
        ensures
            r@ == self.spec_message(),
    {
        match self {
            LLMGraphError::NodeError(e) => {
                let mut s = String::from_str("Node error: ");
                s.append(e.message().as_str());
                s
            },
            LLMGraphError::ToolError(e) => {
                let mut s = String::from_str("Tool error: ");
                s.append(e.message().as_str());
                s
            },
            LLMGraphError::ApiError(e) => {
                let mut s = String::from_str("API error: ");
                s.append(e.message().as_str());
                s
            },
            LLMGraphError::AgentError(e) => {
                let mut s = String::from_str("Agent error: ");
                s.append(e.message().as_str());
                s
            },
            LLMGraphError::GraphError(e) => {
                let mut s = String::from_str("Graph error: ");
                s.append(e.message().as_str());
                s
            },
            LLMGraphError::SerializationError(e) => {
                let mut s = String::from_str("Serialization error: ");
                s.append(e.as_str());
                s
            },
        }
    }
}

impl From<NodeError> for LLMGraphError {
    fn from(error: NodeError) -> (r: LLMGraphError) {
        LLMGraphError::NodeError(error)
    }
}

impl vstd::std_specs::convert::FromSpecImpl<NodeError> for LLMGraphError {
    open spec fn obeys_from_spec() -> bool {
        true
    }

    open spec fn from_spec(error: NodeError) -> LLMGraphError {
        LLMGraphError::NodeError(error)
    }
}

impl From<ToolError> for LLMGraphError {
    fn from(error: ToolError) -> (r: LLMGraphError) {
        LLMGraphError::ToolError(error)
    }
}

impl vstd::std_specs::convert::FromSpecImpl<ToolError> for LLMGraphError {
    open spec fn obeys_from_spec() -> bool {
        true
    }

    open spec fn from_spec(error: ToolError) -> LLMGraphError {
        LLMGraphError::ToolError(error)
    }
}

impl From<ApiError> for LLMGraphError {
    fn from(error: ApiError) -> (r: LLMGraphError) {
        LLMGraphError::ApiError(error)
    }
}

impl vstd::std_specs::convert::FromSpecImpl<ApiError> for LLMGraphError {
    open spec fn obeys_from_spec() -> bool {
        true
    }

    open spec fn from_spec(error: ApiError) -> LLMGraphError {
        LLMGraphError::ApiError(error)
    }
}

impl From<AgentError> for LLMGraphError {
    fn from(error: AgentError) -> (r: LLMGraphError) {
        LLMGraphError::AgentError(error)
    }
}

impl vstd::std_specs::convert::FromSpecImpl<AgentError> for LLMGraphError {
    open spec fn obeys_from_spec() -> bool {
        true
    }

    open spec fn from_spec(error: AgentError) -> LLMGraphError {
        LLMGraphError::AgentError(error)
    }
}

impl From<GraphError> for LLMGraphError {
    fn from(error: GraphError) -> (r: LLMGraphError) {
        LLMGraphError::GraphError(error)
    }
}

impl vstd::std_specs::convert::FromSpecImpl<GraphError> for LLMGraphError {
    open spec fn obeys_from_spec() -> bool {
        true
    }

    open spec fn from_spec(error: GraphError) -> LLMGraphError {
        LLMGraphError::GraphError(error)
    }
}

} // verus!
