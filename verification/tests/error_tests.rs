//! Tests of the error types, their conversions, and their messages.

use llmgraph::errors::{AgentError, ApiError, GraphError, NodeError, ToolError};
use llmgraph::generate::first_choice_content;
use llmgraph::tools::{Choice, LLMResponse, Message};
use llmgraph::LLMGraphError;

#[test]
fn test_error_handling() {
    let node_err = NodeError::NodeNotFound(42);
    let llm_err: LLMGraphError = node_err.into();
    assert!(llm_err.message().contains("Node 42 not found"));

    let tool_err = ToolError::ToolNotFound("my_tool".to_string());
    let llm_err: LLMGraphError = tool_err.into();
    assert!(llm_err.message().contains("Tool 'my_tool' not found"));

    let api_err = ApiError::RateLimitExceeded;
    let llm_err: LLMGraphError = api_err.into();
    assert!(llm_err.message().contains("rate limit"));

    println!("Error handling test passed");
}

#[test]
fn every_error_variant_renders_its_message() {
    assert_eq!(
        NodeError::NodeAlreadyExists(-3).message(),
        "Node -3 already exists"
    );
    assert_eq!(NodeError::InvalidNodeId(0).message(), "Invalid node ID: 0");
    assert_eq!(
        ToolError::ToolExecutionFailed { name: "t".to_string(), error: "bad".to_string() }
            .message(),
        "Tool 't' execution failed: bad"
    );
    assert_eq!(
        ToolError::InvalidArguments { name: "t".to_string(), error: "no".to_string() }.message(),
        "Invalid arguments for tool 't': no"
    );
    assert_eq!(
        ToolError::ToolAlreadyRegistered("t".to_string()).message(),
        "Tool 't' is already registered"
    );
    assert_eq!(
        ApiError::RequestFailed("down".to_string()).message(),
        "API request failed: down"
    );
    assert_eq!(
        ApiError::InvalidResponse("junk".to_string()).message(),
        "Invalid API response: junk"
    );
    assert_eq!(ApiError::AuthenticationFailed.message(), "API authentication failed");
    assert_eq!(ApiError::Timeout.message(), "API request timed out");
    assert_eq!(
        AgentError::ExecutionFailed { agent: "a".to_string(), error: "e".to_string() }.message(),
        "Agent 'a' execution failed: e"
    );
    assert_eq!(
        AgentError::InvalidInput("x".to_string()).message(),
        "Invalid input: x"
    );
    assert_eq!(
        AgentError::InvalidOutput("y".to_string()).message(),
        "Invalid output: y"
    );
    assert_eq!(
        AgentError::MaxIterationsExceeded.message(),
        "Maximum iterations exceeded"
    );
    assert_eq!(GraphError::CycleDetected.message(), "Cycle detected in graph");
    assert_eq!(GraphError::DisconnectedGraph.message(), "Graph is disconnected");
    assert_eq!(
        GraphError::InvalidEdge { from: 1, to: -2 }.message(),
        "Invalid edge from 1 to -2"
    );
    assert_eq!(GraphError::EmptyGraph.message(), "Graph is empty");
    assert_eq!(
        LLMGraphError::SerializationError("oops".to_string()).message(),
        "Serialization error: oops"
    );
    let wrapped: LLMGraphError = GraphError::EmptyGraph.into();
    assert_eq!(wrapped.message(), "Graph error: Graph is empty");
    let wrapped: LLMGraphError = AgentError::MaxIterationsExceeded.into();
    assert_eq!(wrapped.message(), "Agent error: Maximum iterations exceeded");
}

#[test]
fn first_choice_content_reads_the_first_choice() {
    let resp = LLMResponse {
        choices: vec![
            Choice {
                message: Message {
                    role: "assistant".to_string(),
                    content: Some("hello".to_string()),
                    tool_calls: None,
                },
                finish_reason: Some("stop".to_string()),
            },
            Choice {
                message: Message {
                    role: "assistant".to_string(),
                    content: Some("ignored".to_string()),
                    tool_calls: None,
                },
                finish_reason: None,
            },
        ],
    };
    assert_eq!(first_choice_content(&resp), "hello");

    let empty = LLMResponse { choices: Vec::new() };
    assert_eq!(first_choice_content(&empty), "");
}
