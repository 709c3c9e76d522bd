//! The router agent: an ordered list of pattern rules evaluated top to
//! bottom; the first pattern that matches the (optionally case-folded) input
//! wins, an unmatched input falls through to an optional default route.
//! Patterns are compiled fresh per invocation, and a pattern the regex engine
//! rejects is skipped.

use vstd::prelude::*;
use vstd::string::StringExecFns;
use crate::bridge::{lower_of, lowercase, regex_is_match, regex_matches, regex_valid};
use crate::graph::Agent;
use crate::text::{dec_str_int, i32_to_string};
use crate::tools::CombinedToolRegistry;

verus! {

/// One routing rule: a regular expression, the node a match routes to, and
/// an optional description.
pub struct RouteRule {
    /// The pattern to match.
    pub pattern: String,
    /// The node a match routes to.
    pub target_node: i32,
    /// Optional description of this route.
    pub description: Option<String>,
}

/// Whether a rule's pattern matches the input, under the router's case
/// handling: when case-insensitive, both the pattern and the input are folded
/// before matching. A pattern the regex engine rejects matches nothing.
pub open spec fn route_match(pattern: Seq<char>, case_sensitive: bool, input: Seq<char>) -> bool {
    let pat = if case_sensitive {
        pattern
    } else {
        lower_of(pattern)
    };
    let text = if case_sensitive {
        input
    } else {
        lower_of(input)
    };
    regex_valid(pat) && regex_matches(pat, text)
}

/// The route the rules yield for this input: the first matching rule's
/// target, else the default route.
pub open spec fn find_route_spec(
    routes: Seq<RouteRule>,
    case_sensitive: bool,
    input: Seq<char>,
    default_route: Option<i32>,
) -> Option<i32>
    decreases routes.len(),
{
    if routes.len() == 0 {
        default_route
    } else if route_match(routes[0].pattern@, case_sensitive, input) {
        Some(routes[0].target_node)
    } else {
        find_route_spec(routes.drop_first(), case_sensitive, input, default_route)
    }
}

/// Routes its input by the first matching rule, in rule order.
pub struct RouterAgent {
    /// The rules, in evaluation order.
    pub routes: Vec<RouteRule>,
    /// The route taken when no rule matches.
    pub default_route: Option<i32>,
    /// Whether matching is case-sensitive.
    pub case_sensitive: bool,
    /// The agent's name.
    pub name: String,
}

impl RouterAgent {
    /// Creates a router with no rules, no default route, and case-insensitive
    /// matching.
    pub fn new() -> (r: RouterAgent)
        ensures
            r.routes@ == Seq::<RouteRule>::empty(),
            r.default_route is None,
            r.case_sensitive == false,
            r.name@ == "Router"@,
    {
        RouterAgent {
            routes: Vec::new(),
            default_route: None,
            case_sensitive: false,
            name: String::from_str("Router"),
        }
    }

    /// Adds a routing rule after the existing ones.
    pub fn add_route(self, rule: RouteRule) -> (r: Self)
        ensures
            r.routes@ == self.routes@.push(rule),
            r.default_route == self.default_route,
            r.case_sensitive == self.case_sensitive,
            r.name == self.name,
    {
        let mut routes = self.routes;
        routes.push(rule);
        RouterAgent {
            routes,
            default_route: self.default_route,
            case_sensitive: self.case_sensitive,
            name: self.name,
        }
    }

    /// Sets the default route for unmatched inputs.
    pub fn set_default(self, node_id: i32) -> (r: Self)
        ensures
            r == (RouterAgent { default_route: Some(node_id), ..self }),
    {
        RouterAgent { default_route: Some(node_id), ..self }
    }

    /// Sets whether pattern matching is case-sensitive.
    pub fn set_case_sensitive(self, sensitive: bool) -> (r: Self)
        ensures
            r == (RouterAgent { case_sensitive: sensitive, ..self }),
    {
        RouterAgent { case_sensitive: sensitive, ..self }
    }

    /// Sets the agent's name.
    pub fn with_name(self, name: String) -> (r: Self)
        ensures
            r == (RouterAgent { name, ..self }),
    {
        RouterAgent { name, ..self }
    }

    /// The route for this input: the first matching rule's target, else the
    /// default route.
    pub fn find_route(&self, input: &str) -> (r: Option<i32>)
        ensures
            r == find_route_spec(self.routes@, self.case_sensitive, input@, self.default_route),
    {
        let test_input: String = if self.case_sensitive {
            String::from_str(input)
        } else {
            lowercase(input)
        };
        let mut i: usize = 0;
        proof {
            assert(self.routes@.skip(0) =~= self.routes@);
        }
        while i < self.routes.len()
            invariant
                i <= self.routes@.len(),
                self.case_sensitive ==> test_input@ == input@,
                !self.case_sensitive ==> test_input@ == lower_of(input@),
                find_route_spec(self.routes@, self.case_sensitive, input@, self.default_route)
                    == find_route_spec(
                    self.routes@.skip(i as int),
                    self.case_sensitive,
                    input@,
                    self.default_route,
                ),
            decreases self.routes@.len() - i,
        {
            let rule = &self.routes[i];
            let pattern: String = if self.case_sensitive {
                rule.pattern.clone()
            } else {
                lowercase(rule.pattern.as_str())
            };
            let matched = regex_is_match(pattern.as_str(), test_input.as_str());
            proof {
                assert(self.routes@.skip(i as int)[0] == self.routes@[i as int]);
                assert(self.routes@.skip(i as int).drop_first() =~= self.routes@.skip(i + 1));
            }
            match matched {
                Some(true) => {
                    return Some(rule.target_node);
                },
                _ => {},
            }
            i = i + 1;
        }
        proof {
            assert(self.routes@.skip(self.routes@.len() as int) =~= Seq::<RouteRule>::empty());
        }
        self.default_route
    }
}

impl View for RouterAgent {
    type V = RouterAgent;

    open spec fn view(&self) -> RouterAgent {
        *self
    }
}

impl Agent for RouterAgent {
    open spec fn spec_output(v: RouterAgent, input: Seq<char>) -> Seq<char> {
        match find_route_spec(v.routes@, v.case_sensitive, input, v.default_route) {
            Some(node_id) => "Routing to node "@ + dec_str_int(node_id as int) + ": "@ + input,
            None => "No matching route found for: "@ + input,
        }
    }

    open spec fn spec_next(v: RouterAgent, input: Seq<char>) -> Option<i32> {
        find_route_spec(v.routes@, v.case_sensitive, input, v.default_route)
    }

    open spec fn spec_step(v: RouterAgent, input: Seq<char>) -> RouterAgent {
        v
    }

    open spec fn spec_name(&self) -> Seq<char> {
        self.name@
    }

    fn run(&mut self, input: &str, tools: &CombinedToolRegistry) -> (r: (String, Option<i32>)) {
        let route = self.find_route(input);
        let response = match route {
            Some(node_id) => {
                let mut s = String::from_str("Routing to node ");
                s.append(i32_to_string(node_id).as_str());
                s.append(": ");
                s.append(input);
                s
            },
            None => {
                let mut s = String::from_str("No matching route found for: ");
                s.append(input);
                s
            },
        };
        (response, route)
    }

    fn get_name(&self) -> (r: &str) {
        self.name.as_str()
    }
}

} // verus!
