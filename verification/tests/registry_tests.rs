//! Tests of the tool registry and the scoped two-tier view.

use llmgraph::tools::{CombinedToolRegistry, Function, Parameters, Property};
use llmgraph::{Graph, Tool, ToolRegistry};
use llmgraph::agents::EchoAgent;

fn make_tool(name: &str, description: &str) -> Tool {
    Tool {
        tool_type: "function".to_string(),
        function: Function {
            name: name.to_string(),
            description: description.to_string(),
            parameters: Parameters {
                param_type: "object".to_string(),
                properties: Vec::new(),
                required: Vec::new(),
            },
        },
    }
}

#[test]
fn test_tool_registry() {
    let mut graph: Graph<EchoAgent> = Graph::new();

    let calc_tool = Tool {
        tool_type: "function".to_string(),
        function: Function {
            name: "calculator".to_string(),
            description: "Performs basic math".to_string(),
            parameters: Parameters {
                param_type: "object".to_string(),
                properties: vec![
                    (
                        "operation".to_string(),
                        Property {
                            prop_type: "string".to_string(),
                            description: Some("add, subtract, multiply, divide".to_string()),
                            items: None,
                        },
                    ),
                    (
                        "a".to_string(),
                        Property {
                            prop_type: "number".to_string(),
                            description: Some("First number".to_string()),
                            items: None,
                        },
                    ),
                    (
                        "b".to_string(),
                        Property {
                            prop_type: "number".to_string(),
                            description: Some("Second number".to_string()),
                            items: None,
                        },
                    ),
                ],
                required: vec!["operation".to_string(), "a".to_string(), "b".to_string()],
            },
        },
    };

    graph.register_tool(calc_tool, |args: serde_json::Value| {
        let op = args["operation"].as_str().unwrap_or("");
        let a = args["a"].as_f64().unwrap_or(0.0);
        let b = args["b"].as_f64().unwrap_or(0.0);
        let result = match op {
            "add" => a + b,
            "subtract" => a - b,
            "multiply" => a * b,
            "divide" => {
                if b != 0.0 {
                    a / b
                } else {
                    0.0
                }
            }
            _ => 0.0,
        };
        let mut body = serde_json::Map::new();
        body.insert("result".to_string(), serde_json::Value::from(result));
        Ok(serde_json::Value::Object(body))
    });

    let registry = graph.get_shared_tool_registry();
    let tools = registry.get_tools();
    assert_eq!(tools.len(), 1, "Should have one tool registered");

    let result = registry.execute_tool("calculator", r#"{"operation": "add", "a": 5, "b": 3}"#);

    assert!(result.is_ok());
    let value = result.unwrap();
    assert_eq!(value["result"], 8.0);

    println!("Tool registry test passed");
}

#[test]
fn registration_is_last_write_wins() {
    let mut reg = ToolRegistry::new();
    reg.register_tool(make_tool("x", "first"), |_args| {
        Ok(serde_json::Value::from(1))
    });
    reg.register_tool(make_tool("x", "second"), |_args| {
        Ok(serde_json::Value::from(2))
    });
    let tools = reg.get_tools();
    assert_eq!(tools.len(), 1);
    assert_eq!(tools[0].function.description, "second");
    let r = reg.execute_tool("x", "{}").unwrap();
    assert_eq!(r, serde_json::Value::from(2));
}

#[test]
fn scoped_view_lists_union_with_primary_precedence() {
    let mut primary = ToolRegistry::new();
    let mut secondary = ToolRegistry::new();
    primary.register_tool(make_tool("X", "primary definition"), |_| {
        Ok(serde_json::Value::Null)
    });
    primary.register_tool(make_tool("Y", "only primary"), |_| {
        Ok(serde_json::Value::Null)
    });
    secondary.register_tool(make_tool("X", "secondary definition"), |_| {
        Ok(serde_json::Value::Null)
    });
    secondary.register_tool(make_tool("Z", "only secondary"), |_| {
        Ok(serde_json::Value::Null)
    });

    let view = CombinedToolRegistry::new(&primary, &secondary);
    let tools = view.get_tools();
    assert_eq!(tools.len(), 3);
    let mut names: Vec<String> = tools.iter().map(|t| t.function.name.clone()).collect();
    names.sort();
    assert_eq!(names, vec!["X".to_string(), "Y".to_string(), "Z".to_string()]);
    let x = tools.iter().find(|t| t.function.name == "X").unwrap();
    assert_eq!(x.function.description, "primary definition");
}

#[test]
fn scoped_view_never_masks_primary_execution_errors() {
    let mut primary = ToolRegistry::new();
    let mut secondary = ToolRegistry::new();
    primary.register_tool(make_tool("X", "fails"), |_| Err("boom".to_string()));
    secondary.register_tool(make_tool("X", "succeeds"), |_| {
        Ok(serde_json::Value::from("recovered"))
    });

    let view = CombinedToolRegistry::new(&primary, &secondary);
    let r = view.execute_tool("X", "{}");
    assert_eq!(r, Err("boom".to_string()));
}

#[test]
fn execute_rejects_arguments_that_are_not_json() {
    let mut reg = ToolRegistry::new();
    reg.register_tool(make_tool("t", "tool"), |_| Ok(serde_json::Value::Null));
    let r = reg.execute_tool("t", "not json at all");
    assert_eq!(r, Err("Failed to parse arguments".to_string()));
    let ok = reg.execute_tool("t", "{\"k\": [1, 2, 3]}");
    assert!(ok.is_ok());
}

#[test]
fn execute_reports_unknown_tool() {
    let reg = ToolRegistry::new();
    let r = reg.execute_tool("my_tool", "{}");
    assert_eq!(r, Err("Tool 'my_tool' not found".to_string()));
}

#[test]
fn node_local_tools_take_precedence_in_graph() {
    let mut graph: Graph<EchoAgent> = Graph::new();
    graph.add_node(0, EchoAgent::new("A"));
    graph.register_tool(make_tool("shared", "global"), |_| {
        Ok(serde_json::Value::from("global"))
    });
    graph
        .register_tool_for_node(0, make_tool("shared", "local"), |_| {
            Ok(serde_json::Value::from("local"))
        })
        .unwrap();

    let local = graph.get_node_tool_registry(0).unwrap();
    let global = graph.get_shared_tool_registry();
    let view = CombinedToolRegistry::new(local, global);
    let r = view.execute_tool("shared", "{}").unwrap();
    assert_eq!(r, serde_json::Value::from("local"));

    let missing = graph.register_tool_for_node(9, make_tool("x", "x"), |_| {
        Ok(serde_json::Value::Null)
    });
    assert_eq!(missing, Err("Node 9 does not exist".to_string()));
}
