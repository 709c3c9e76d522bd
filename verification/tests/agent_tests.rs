//! Tests of the built-in agents and combinators.

use llmgraph::agents::parallel::CombineStrategy;
use llmgraph::agents::router::RouteRule;
use llmgraph::agents::state::{DataList, StrList};
use llmgraph::agents::{
    FlakeyAgent, ParallelAgent, RetryAgent, RetryStrategy, RouterAgent, StatefulAgent,
    StaticAgent, SummarizerAgent, SummarizerConfig, SummaryStyle, ValidatorAgent,
};
use llmgraph::json::JsonValue;
use llmgraph::tools::CombinedToolRegistry;
use llmgraph::{Agent, ToolRegistry};

fn history_entries(mut l: &StrList) -> Vec<String> {
    let mut out = Vec::new();
    loop {
        match l {
            StrList::Nil => return out,
            StrList::Cons(s, rest) => {
                out.push(s.clone());
                l = rest;
            }
        }
    }
}

#[test]
fn test_router_agent() {
    let empty_a = ToolRegistry::new();
    let empty_b = ToolRegistry::new();
    let view = CombinedToolRegistry::new(&empty_a, &empty_b);

    let mut router = RouterAgent::new()
        .add_route(RouteRule {
            pattern: r"technical|bug|error".to_string(),
            target_node: 1,
            description: Some("Technical support".to_string()),
        })
        .add_route(RouteRule {
            pattern: r"sales|pricing|buy".to_string(),
            target_node: 2,
            description: Some("Sales team".to_string()),
        })
        .set_default(3);

    let (_response, next) = router.run("I found a bug", &view);
    assert_eq!(next, Some(1), "Should route to technical support");

    let (_response, next) = router.run("What's the pricing?", &view);
    assert_eq!(next, Some(2), "Should route to sales");

    let (_response, next) = router.run("General question", &view);
    assert_eq!(next, Some(3), "Should route to default");

    println!("Router test passed");
}

#[test]
fn router_folds_case_unless_case_sensitive() {
    let empty_a = ToolRegistry::new();
    let empty_b = ToolRegistry::new();
    let view = CombinedToolRegistry::new(&empty_a, &empty_b);

    let mut folded = RouterAgent::new()
        .add_route(RouteRule {
            pattern: "BUG".to_string(),
            target_node: 1,
            description: None,
        })
        .set_default(9);
    let (_r, next) = folded.run("a bug was found", &view);
    assert_eq!(next, Some(1));

    let mut strict = RouterAgent::new()
        .add_route(RouteRule {
            pattern: "BUG".to_string(),
            target_node: 1,
            description: None,
        })
        .set_default(9)
        .set_case_sensitive(true);
    let (_r, next) = strict.run("a bug was found", &view);
    assert_eq!(next, Some(9));
}

#[test]
fn test_stateful_agent() {
    let empty_a = ToolRegistry::new();
    let empty_b = ToolRegistry::new();
    let view = CombinedToolRegistry::new(&empty_a, &empty_b);

    let mut agent = StatefulAgent::new("TestStateful").with_max_history(5);

    let (response1, _) = agent.run("First input", &view);
    assert!(response1.contains("execution #1"));

    let (response2, _) = agent.run("Second input", &view);
    assert!(response2.contains("execution #2"));

    let state = agent.get_state();
    assert_eq!(state.execution_count, 2);
    assert_eq!(state.history.len(), 2);

    let json = agent.save_state();
    println!("Serialized state: {}", json);

    let mut new_agent = StatefulAgent::new("NewAgent");
    new_agent.load_state(&json).unwrap();

    let loaded_state = new_agent.get_state();
    assert_eq!(loaded_state.execution_count, 2);
    assert_eq!(loaded_state.history.len(), 2);

    println!("Stateful agent test passed");
}

#[test]
fn stateful_history_keeps_last_five_of_eight() {
    let empty_a = ToolRegistry::new();
    let empty_b = ToolRegistry::new();
    let view = CombinedToolRegistry::new(&empty_a, &empty_b);

    let mut agent = StatefulAgent::new("Window").with_max_history(5);
    for i in 1..=8 {
        let input = format!("input{}", i);
        let _ = agent.run(&input, &view);
    }
    let state = agent.get_state();
    assert_eq!(state.history.len(), 5);
    let entries = history_entries(&state.history);
    assert_eq!(
        entries,
        vec![
            "input4".to_string(),
            "input5".to_string(),
            "input6".to_string(),
            "input7".to_string(),
            "input8".to_string()
        ]
    );
}

#[test]
fn stateful_store_retrieve_and_snapshot_round_trip() {
    let mut agent = StatefulAgent::new("Memory");
    agent.store("answer", JsonValue::Int(42));
    agent.store("tags", JsonValue::Arr(vec![
        JsonValue::Str("a\"quote".to_string()),
        JsonValue::Str("line\nbreak".to_string()),
        JsonValue::Null,
        JsonValue::Bool(true),
    ]));
    agent.store("answer", JsonValue::Int(43));
    match agent.retrieve("answer") {
        Some(JsonValue::Int(v)) => assert_eq!(v, 43),
        other => panic!("unexpected value: {:?}", other.is_some()),
    }
    assert!(agent.retrieve("missing").is_none());

    let snapshot = agent.save_state();
    let mut other = StatefulAgent::new("Restored");
    other.load_state(&snapshot).unwrap();
    assert_eq!(other.save_state(), snapshot);

    let mut broken = StatefulAgent::new("Broken");
    assert!(broken.load_state("{not json").is_err());
    assert!(broken.load_state("{\"data\":{}}").is_err());
}

#[test]
fn test_retry_agent() {
    let empty_a = ToolRegistry::new();
    let empty_b = ToolRegistry::new();
    let view = CombinedToolRegistry::new(&empty_a, &empty_b);

    let flakey = FlakeyAgent::new(2);

    let mut retry_agent = RetryAgent::new(flakey)
        .with_max_retries(3)
        .with_strategy(RetryStrategy::Fixed(10));

    let (response, _) = retry_agent.run("test", &view);
    assert!(response.contains("Success"), "Should eventually succeed");

    println!("Retry agent test passed");
}

#[test]
fn retry_exhausted_reports_count_and_last_output() {
    let empty_a = ToolRegistry::new();
    let empty_b = ToolRegistry::new();
    let view = CombinedToolRegistry::new(&empty_a, &empty_b);

    let always_failing = FlakeyAgent::new(1000);
    let mut retry_agent = RetryAgent::new(always_failing).with_max_retries(3);

    let (response, next) = retry_agent.run("anything", &view);
    assert!(response.starts_with("All 3 retries exhausted. Last output: "));
    assert!(response.contains("Error: temporary failure"));
    assert_eq!(next, None);
}

#[test]
fn retry_default_condition_folds_case() {
    let empty_a = ToolRegistry::new();
    let empty_b = ToolRegistry::new();
    let view = CombinedToolRegistry::new(&empty_a, &empty_b);

    let shouting = StaticAgent::new("Shouting", "ERROR happened", None);
    let mut retry_agent = RetryAgent::new(shouting).with_max_retries(1);
    let (response, _) = retry_agent.run("x", &view);
    assert!(response.starts_with("All 1 retries exhausted. Last output: ERROR happened"));

    let calm = StaticAgent::new("Calm", "all fine", None);
    let mut retry_agent = RetryAgent::new(calm).with_max_retries(1);
    let (response, _) = retry_agent.run("x", &view);
    assert_eq!(response, "all fine");
}

#[test]
fn retry_delays_follow_the_strategy_formulas() {
    let inner = FlakeyAgent::new(0);
    let exponential = RetryAgent::new(inner)
        .with_strategy(RetryStrategy::ExponentialBackoff { base: 100, max: 10000, multiplier: 2 });
    assert_eq!(exponential.calculate_delay(0), 100);
    assert_eq!(exponential.calculate_delay(1), 200);
    assert_eq!(exponential.calculate_delay(3), 800);
    assert_eq!(exponential.calculate_delay(10), 10000);

    let inner = FlakeyAgent::new(0);
    let linear = RetryAgent::new(inner)
        .with_strategy(RetryStrategy::Linear { initial: 100, increment: 50, max: 300 });
    assert_eq!(linear.calculate_delay(0), 100);
    assert_eq!(linear.calculate_delay(2), 200);
    assert_eq!(linear.calculate_delay(10), 300);

    let inner = FlakeyAgent::new(0);
    let fixed = RetryAgent::new(inner).with_strategy(RetryStrategy::Fixed(1234));
    assert_eq!(fixed.calculate_delay(7), 1234);
}

#[test]
fn test_validator_agent() {
    let empty_a = ToolRegistry::new();
    let empty_b = ToolRegistry::new();
    let view = CombinedToolRegistry::new(&empty_a, &empty_b);

    let mut validator = ValidatorAgent::new()
        .add_length_rule(Some(5), Some(100), true)
        .add_pattern_rule(
            "no_numbers",
            r"^[^0-9]+$",
            "Input should not contain numbers",
            false,
        )
        .with_success_route(1)
        .with_failure_route(2);

    let (_response, next) = validator.run("Hello World", &view);
    assert_eq!(next, Some(1), "Valid input should route to success node");

    let (response, next) = validator.run("Hi", &view);
    assert_eq!(next, Some(2), "Too short input should route to failure node");
    assert!(response.contains("too short"));

    let (response, next) = validator.run("Hello123", &view);
    assert_eq!(next, Some(1), "Should pass with warning");
    assert!(response.contains("Warning"));

    println!("Validator agent test passed");
}

#[test]
fn strict_mode_turns_warnings_into_errors() {
    let empty_a = ToolRegistry::new();
    let empty_b = ToolRegistry::new();
    let view = CombinedToolRegistry::new(&empty_a, &empty_b);

    let mut validator = ValidatorAgent::new()
        .add_pattern_rule("no_numbers", r"^[^0-9]+$", "Input should not contain numbers", false)
        .with_strict_mode(true)
        .with_success_route(1)
        .with_failure_route(2);

    let (response, next) = validator.run("Hello123", &view);
    assert_eq!(next, Some(2));
    assert!(response.contains("Validation failed for: Hello123"));
    assert!(response.contains("no_numbers: Input should not contain numbers"));
}

#[test]
fn test_summarizer_agent() {
    let empty_a = ToolRegistry::new();
    let empty_b = ToolRegistry::new();
    let view = CombinedToolRegistry::new(&empty_a, &empty_b);

    let mut summarizer = SummarizerAgent::new().with_config(SummarizerConfig {
        max_length: 50,
        preserve_entities: true,
        include_timestamps: false,
        style: SummaryStyle::Bullets,
    });

    let long_text = "This is the first sentence. This is the second sentence. This is the third sentence. This is the fourth sentence.";

    let (response, _) = summarizer.run(long_text, &view);
    assert!(response.contains("\u{e2}\u{20ac}\u{a2}"), "Should format as bullet points");

    println!("Summarizer test: {}", response);
}

#[test]
fn summarizer_truncates_and_filters() {
    let agent = SummarizerAgent::new().with_config(SummarizerConfig {
        max_length: 10,
        preserve_entities: true,
        include_timestamps: false,
        style: SummaryStyle::Paragraph,
    });
    assert_eq!(agent.summarize("0123456789abcdef"), "0123456789...");
    assert_eq!(agent.summarize("short"), "short");

    let keys = SummarizerAgent::new().with_config(SummarizerConfig {
        max_length: 500,
        preserve_entities: true,
        include_timestamps: false,
        style: SummaryStyle::KeyPoints,
    });
    assert_eq!(
        keys.summarize("Noise here. The key finding follows. More noise"),
        "The key finding follows"
    );
    assert_eq!(
        keys.summarize("One plain sentence. Another plain sentence. A third one"),
        "One plain sentence. Another plain sentence"
    );
}

#[test]
fn parallel_json_array_keeps_registration_order() {
    let empty_a = ToolRegistry::new();
    let empty_b = ToolRegistry::new();
    let view = CombinedToolRegistry::new(&empty_a, &empty_b);

    let mut parallel = ParallelAgent::new()
        .add_agent(StaticAgent::new("A", "a", None))
        .add_agent(StaticAgent::new("B", "b", None))
        .add_agent(StaticAgent::new("C", "c", None))
        .with_strategy(CombineStrategy::JsonArray);

    let (response, next) = parallel.run("ignored", &view);
    assert_eq!(response, "[\"a\",\"b\",\"c\"]");
    assert_eq!(next, None);
}

#[test]
fn parallel_concatenate_first_valid_and_empty() {
    let empty_a = ToolRegistry::new();
    let empty_b = ToolRegistry::new();
    let view = CombinedToolRegistry::new(&empty_a, &empty_b);

    let mut concat = ParallelAgent::new()
        .add_agent(StaticAgent::new("A", "a", None))
        .add_agent(StaticAgent::new("B", "b", None));
    let (response, _) = concat.run("x", &view);
    assert_eq!(response, "a\nb");

    let mut first = ParallelAgent::new()
        .add_agent(StaticAgent::new("A", "", None))
        .add_agent(StaticAgent::new("B", "found", None))
        .add_agent(StaticAgent::new("C", "later", None))
        .with_strategy(CombineStrategy::FirstValid);
    let (response, _) = first.run("x", &view);
    assert_eq!(response, "found");

    let mut none: ParallelAgent<StaticAgent, _> = ParallelAgent::new();
    let (response, _) = none.run("x", &view);
    assert_eq!(response, "No agents configured for parallel execution");
}

#[test]
fn json_documents_round_trip_through_text() {
    let doc = JsonValue::Obj(vec![
        ("plain".to_string(), JsonValue::Str("text".to_string())),
        (
            "weird".to_string(),
            JsonValue::Str("tab\t quote\" slash\\ nl\n".to_string()),
        ),
        ("num".to_string(), JsonValue::Int(-12345)),
        (
            "list".to_string(),
            JsonValue::Arr(vec![JsonValue::Bool(false), JsonValue::Null]),
        ),
        ("empty".to_string(), JsonValue::Obj(Vec::new())),
    ]);
    let text = llmgraph::json::to_json(&doc);
    let back = llmgraph::json::from_json(&text).expect("round trip should parse");
    assert_eq!(llmgraph::json::to_json(&back), text);

    assert!(llmgraph::json::from_json("  [1, 2, 3]  ").is_some());
    assert!(llmgraph::json::from_json("[1, 2").is_none());
    assert!(llmgraph::json::from_json("01").is_none());
}

#[test]
fn agents_report_their_names() {
    let mut agent = StatefulAgent::new("Named");
    assert_eq!(agent.get_name(), "Named");
    let retry = RetryAgent::new(FlakeyAgent::new(0));
    assert_eq!(retry.get_name(), "Retry[FlakeyAgent]");
    let _ = &mut agent;
    let data = DataList::Nil;
    match data {
        DataList::Nil => {}
        DataList::Cons(_, _, _) => panic!("empty store should be Nil"),
    }
}

#[test]
fn json_integers_round_trip_at_the_extremes() {
    let doc = JsonValue::Arr(vec![
        JsonValue::Int(i64::MIN),
        JsonValue::Int(i64::MAX),
        JsonValue::Int(0),
        JsonValue::Int(-1),
    ]);
    let text = llmgraph::json::to_json(&doc);
    assert_eq!(text, "[-9223372036854775808,9223372036854775807,0,-1]");
    let back = llmgraph::json::from_json(&text).expect("extremes should parse");
    assert_eq!(llmgraph::json::to_json(&back), text);

    // One digit beyond what an i64 can hold is rejected rather than wrapped.
    assert!(llmgraph::json::from_json("9223372036854775808").is_none());
    assert!(llmgraph::json::from_json("-9223372036854775809").is_none());
}
