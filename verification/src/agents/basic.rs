//! Small example agents: an echo agent, an agent with a fixed route, an agent
//! that fails a set number of times before succeeding, and an enum combining
//! them so that one graph can hold a mix of them.

use vstd::prelude::*;
use vstd::string::StringExecFns;
use crate::graph::Agent;
use crate::text::{dec_str_int, i32_to_string};
use crate::tools::CombinedToolRegistry;

verus! {

/// Echoes its input and stops the run.
pub struct EchoAgent {
    /// The agent's name.
    pub name: String,
}

impl EchoAgent {
    /// Creates an echo agent with the given name.
    pub fn new(name: &str) -> (r: EchoAgent)
        ensures
            r.name@ == name@,
    {
        EchoAgent { name: String::from_str(name) }
    }
}

impl View for EchoAgent {
    type V = EchoAgent;

    open spec fn view(&self) -> EchoAgent {
        *self
    }
}

impl Agent for EchoAgent {
    open spec fn spec_output(v: EchoAgent, input: Seq<char>) -> Seq<char> {
        "Echo: "@ + input
    }

    open spec fn spec_next(v: EchoAgent, input: Seq<char>) -> Option<i32> {
        None
    }

    open spec fn spec_step(v: EchoAgent, input: Seq<char>) -> EchoAgent {
        v
    }

    open spec fn spec_name(&self) -> Seq<char> {
        self.name@
    }

    fn run(&mut self, input: &str, tools: &CombinedToolRegistry) -> (r: (String, Option<i32>)) {
        let mut out = String::from_str("Echo: ");
        out.append(input);
        (out, None)
    }

    fn get_name(&self) -> (r: &str) {
        self.name.as_str()
    }
}

/// Always routes to one fixed node, reporting the routing in its output.
pub struct FixedRouteAgent {
    /// The agent's name.
    pub name: String,
    /// The node every invocation routes to.
    pub target_node: i32,
}

impl FixedRouteAgent {
    /// Creates an agent that always routes to `target`.
    pub fn new(name: &str, target: i32) -> (r: FixedRouteAgent)
        ensures
            r.name@ == name@,
            r.target_node == target,
    {
        FixedRouteAgent { name: String::from_str(name), target_node: target }
    }
}

impl View for FixedRouteAgent {
    type V = FixedRouteAgent;

    open spec fn view(&self) -> FixedRouteAgent {
        *self
    }
}

impl Agent for FixedRouteAgent {
    open spec fn spec_output(v: FixedRouteAgent, input: Seq<char>) -> Seq<char> {
        "Routing '"@ + input + "' to node "@ + dec_str_int(v.target_node as int)
    }

    open spec fn spec_next(v: FixedRouteAgent, input: Seq<char>) -> Option<i32> {
        Some(v.target_node)
    }

    open spec fn spec_step(v: FixedRouteAgent, input: Seq<char>) -> FixedRouteAgent {
        v
    }

    open spec fn spec_name(&self) -> Seq<char> {
        self.name@
    }

    fn run(&mut self, input: &str, tools: &CombinedToolRegistry) -> (r: (String, Option<i32>)) {
        let mut out = String::from_str("Routing '");
        out.append(input);
        out.append("' to node ");
        out.append(i32_to_string(self.target_node).as_str());
        (out, Some(self.target_node))
    }

    fn get_name(&self) -> (r: &str) {
        self.name.as_str()
    }
}

/// Fails a set number of invocations, then succeeds: made to be wrapped by a
/// retry combinator.
pub struct FlakeyAgent {
    /// The agent's name.
    pub name: String,
    /// How many of the coming invocations still fail.
    pub failures_remaining: usize,
}

impl FlakeyAgent {
    /// Creates an agent whose first `failures` invocations fail.
    pub fn new(failures: usize) -> (r: FlakeyAgent)
        ensures
            r.name@ == "FlakeyAgent"@,
            r.failures_remaining == failures,
    {
        FlakeyAgent { name: String::from_str("FlakeyAgent"), failures_remaining: failures }
    }
}

impl View for FlakeyAgent {
    type V = FlakeyAgent;

    open spec fn view(&self) -> FlakeyAgent {
        *self
    }
}

impl Agent for FlakeyAgent {
    open spec fn spec_output(v: FlakeyAgent, input: Seq<char>) -> Seq<char> {
        if v.failures_remaining > 0 {
            "Error: temporary failure"@
        } else {
            "Success: "@ + input
        }
    }

    open spec fn spec_next(v: FlakeyAgent, input: Seq<char>) -> Option<i32> {
        None
    }

    open spec fn spec_step(v: FlakeyAgent, input: Seq<char>) -> FlakeyAgent {
        FlakeyAgent {
            name: v.name,
            failures_remaining: if v.failures_remaining > 0 {
                (v.failures_remaining - 1) as usize
            } else {
                0
            },
        }
    }

    open spec fn spec_name(&self) -> Seq<char> {
        self.name@
    }

    fn run(&mut self, input: &str, tools: &CombinedToolRegistry) -> (r: (String, Option<i32>)) {
        if self.failures_remaining > 0 {
            self.failures_remaining = self.failures_remaining - 1;
            (String::from_str("Error: temporary failure"), None)
        } else {
            let mut out = String::from_str("Success: ");
            out.append(input);
            (out, None)
        }
    }

    fn get_name(&self) -> (r: &str) {
        self.name.as_str()
    }
}


/// Yields a fixed output and route, whatever the input: the simplest agent to
/// wrap with combinators.
pub struct StaticAgent {
    /// The agent's name.
    pub name: String,
    /// The output of every invocation.
    pub output: String,
    /// The route of every invocation.
    pub next: Option<i32>,
}

impl StaticAgent {
    /// Creates an agent that always yields this output and route.
    pub fn new(name: &str, output: &str, next: Option<i32>) -> (r: StaticAgent)
        ensures
            r.name@ == name@,
            r.output@ == output@,
            r.next == next,
    {
        StaticAgent {
            name: String::from_str(name),
            output: String::from_str(output),
            next,
        }
    }
}

impl View for StaticAgent {
    type V = StaticAgent;

    open spec fn view(&self) -> StaticAgent {
        *self
    }
}

impl Agent for StaticAgent {
    open spec fn spec_output(v: StaticAgent, input: Seq<char>) -> Seq<char> {
        v.output@
    }

    open spec fn spec_next(v: StaticAgent, input: Seq<char>) -> Option<i32> {
        v.next
    }

    open spec fn spec_step(v: StaticAgent, input: Seq<char>) -> StaticAgent {
        v
    }

    open spec fn spec_name(&self) -> Seq<char> {
        self.name@
    }

    fn run(&mut self, input: &str, tools: &CombinedToolRegistry) -> (r: (String, Option<i32>)) {
        (self.output.clone(), self.next)
    }

    fn get_name(&self) -> (r: &str) {
        self.name.as_str()
    }
}

/// One of the example agents, so that a single graph can mix them.
pub enum BasicAgent {
    /// An echo agent.
    Echo(EchoAgent),
    /// A fixed-route agent.
    Route(FixedRouteAgent),
    /// A flakey agent.
    Flakey(FlakeyAgent),
}

impl View for BasicAgent {
    type V = BasicAgent;

    open spec fn view(&self) -> BasicAgent {
        *self
    }
}

impl Agent for BasicAgent {
    open spec fn spec_output(v: BasicAgent, input: Seq<char>) -> Seq<char> {
        match v {
            BasicAgent::Echo(a) => EchoAgent::spec_output(a, input),
            BasicAgent::Route(a) => FixedRouteAgent::spec_output(a, input),
            BasicAgent::Flakey(a) => FlakeyAgent::spec_output(a, input),
        }
    }

    open spec fn spec_next(v: BasicAgent, input: Seq<char>) -> Option<i32> {
        match v {
            BasicAgent::Echo(a) => EchoAgent::spec_next(a, input),
            BasicAgent::Route(a) => FixedRouteAgent::spec_next(a, input),
            BasicAgent::Flakey(a) => FlakeyAgent::spec_next(a, input),
        }
    }

    open spec fn spec_step(v: BasicAgent, input: Seq<char>) -> BasicAgent {
        match v {
            BasicAgent::Echo(a) => BasicAgent::Echo(EchoAgent::spec_step(a, input)),
            BasicAgent::Route(a) => BasicAgent::Route(FixedRouteAgent::spec_step(a, input)),
            BasicAgent::Flakey(a) => BasicAgent::Flakey(FlakeyAgent::spec_step(a, input)),
        }
    }

    open spec fn spec_name(&self) -> Seq<char> {
        match self {
            BasicAgent::Echo(a) => a.spec_name(),
            BasicAgent::Route(a) => a.spec_name(),
            BasicAgent::Flakey(a) => a.spec_name(),
        }
    }

    fn run(&mut self, input: &str, tools: &CombinedToolRegistry) -> (r: (String, Option<i32>)) {
        match self {
            BasicAgent::Echo(a) => a.run(input, tools),
            BasicAgent::Route(a) => a.run(input, tools),
            BasicAgent::Flakey(a) => a.run(input, tools),
        }
    }

    fn get_name(&self) -> (r: &str) {
        match self {
            BasicAgent::Echo(a) => a.get_name(),
            BasicAgent::Route(a) => a.get_name(),
            BasicAgent::Flakey(a) => a.get_name(),
        }
    }
}

} // verus!
