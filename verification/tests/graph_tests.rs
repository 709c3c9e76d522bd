//! Tests of the graph engine: construction, edges, and dispatch runs.

use llmgraph::agents::{BasicAgent, EchoAgent, FixedRouteAgent};
use llmgraph::Graph;

#[test]
fn test_graph_construction() {
    let mut graph: Graph<EchoAgent> = Graph::new();

    graph.add_node(0, EchoAgent::new("Agent0"));
    graph.add_node(1, EchoAgent::new("Agent1"));

    let result = graph.add_edge(0, 1);
    assert!(result.is_ok(), "Failed to add edge between existing nodes");

    let result = graph.add_edge(0, 99);
    assert!(
        result.is_err(),
        "Should fail when adding edge to non-existent node"
    );
}

#[test]
fn test_simple_chain_execution() {
    let mut graph: Graph<BasicAgent> = Graph::new();

    graph.add_node(0, BasicAgent::Route(FixedRouteAgent::new("Router", 1)));
    graph.add_node(1, BasicAgent::Route(FixedRouteAgent::new("Processor", 2)));
    graph.add_node(2, BasicAgent::Echo(EchoAgent::new("Final")));

    graph.add_edge(0, 1).unwrap();
    graph.add_edge(1, 2).unwrap();

    let result = graph.run(0, "test input", 16);

    assert!(result.contains("Routing"));
    assert!(result.contains("Echo"));
    println!("Chain execution result:\n{}", result);
}

#[test]
fn run_from_missing_start_reports_marker_and_runs_nothing() {
    let mut graph: Graph<EchoAgent> = Graph::new();
    graph.add_node(0, EchoAgent::new("Agent0"));

    let result = graph.run(7, "hello", 16);
    assert_eq!(result, "Error: Node 7 does not exist\n");
}

#[test]
fn run_to_missing_next_node_appends_marker() {
    let mut graph: Graph<BasicAgent> = Graph::new();
    graph.add_node(0, BasicAgent::Route(FixedRouteAgent::new("Router", 5)));

    let result = graph.run(0, "hi", 16);
    assert_eq!(
        result,
        "Routing 'hi' to node 5\nError: Node 5 does not exist\n"
    );
}

#[test]
fn fixed_route_then_echo_yields_expected_transcript() {
    let mut graph: Graph<BasicAgent> = Graph::new();
    graph.add_node(0, BasicAgent::Route(FixedRouteAgent::new("Router", 1)));
    graph.add_node(1, BasicAgent::Echo(EchoAgent::new("Echo")));
    graph.add_edge(0, 1).unwrap();

    let result = graph.run(0, "hi", 16);
    assert_eq!(result, "Routing 'hi' to node 1\nEcho: Routing 'hi' to node 1\n");
}

#[test]
fn add_edge_is_symmetric_and_idempotent() {
    let mut graph: Graph<EchoAgent> = Graph::new();
    graph.add_node(1, EchoAgent::new("A"));
    graph.add_node(2, EchoAgent::new("B"));

    for _ in 0..4 {
        graph.add_edge(1, 2).unwrap();
    }
    // The adjacency lists are metadata; their shape is pinned by the
    // contract of add_edge, so a repeated edge must not change the run.
    let t1 = graph.run(1, "x", 4);
    graph.add_edge(2, 1).unwrap();
    let t2 = graph.run(1, "x", 4);
    assert_eq!(t1, t2);
}

#[test]
fn run_respects_step_budget() {
    // Two nodes routing to each other loop forever; the step budget stops
    // the run after exactly the allowed number of invocations.
    let mut graph: Graph<BasicAgent> = Graph::new();
    graph.add_node(0, BasicAgent::Route(FixedRouteAgent::new("A", 1)));
    graph.add_node(1, BasicAgent::Route(FixedRouteAgent::new("B", 0)));

    let result = graph.run(0, "go", 3);
    let lines: Vec<&str> = result.lines().collect();
    assert_eq!(lines.len(), 3);
}
