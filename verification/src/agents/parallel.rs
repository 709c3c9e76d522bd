//! The parallel combinator: wraps an ordered list of agents, dispatches the
//! same input to each of them, collects the outputs in registration order
//! regardless of completion order, and combines them under a configurable
//! strategy. Each inner agent is exclusively owned, so one dispatch never
//! overlaps another on the same agent.

use vstd::prelude::*;
use vstd::string::StringExecFns;
use crate::graph::Agent;
use crate::json::{json_string_array, json_string_array_text};
use crate::text::{join_newline, join_nl};
use crate::tools::CombinedToolRegistry;

verus! {

/// Reduces the ordered outputs of the inner agents to one output.
pub trait Combine: Sized {
    /// The combined text for these ordered results.
    spec fn spec_combine(&self, results: Seq<Seq<char>>) -> Seq<char>;

    /// Combines the ordered results.
    fn combine(&self, results: &Vec<String>) -> (r: String)
        ensures
            r@ == self.spec_combine(results.deep_view()),
    ;
}

/// A combiner that joins the results with newlines; the starting point for
/// custom combiners.
pub struct NewlineCombine;

impl Combine for NewlineCombine {
    open spec fn spec_combine(&self, results: Seq<Seq<char>>) -> Seq<char> {
        join_nl(results)
    }

    fn combine(&self, results: &Vec<String>) -> (r: String) {
        join_newline(results)
    }
}

/// How the parallel combinator reduces its inner agents' outputs.
pub enum CombineStrategy<C> {
    /// Join all outputs with newlines.
    Concatenate,
    /// The first non-empty output in registration order, or empty text.
    FirstValid,
    /// The ordered outputs serialized as a JSON array of strings.
    JsonArray,
    /// A caller-supplied reduction.
    Custom(C),
}

/// The first non-empty result in order, or empty text.
pub open spec fn first_valid(results: Seq<Seq<char>>) -> Seq<char>
    decreases results.len(),
{
    if results.len() == 0 {
        Seq::empty()
    } else if results[0].len() > 0 {
        results[0]
    } else {
        first_valid(results.drop_first())
    }
}

/// The combined text the strategy yields for these ordered results.
pub open spec fn combined_text<C: Combine>(
    strategy: CombineStrategy<C>,
    results: Seq<Seq<char>>,
) -> Seq<char> {
    match strategy {
        CombineStrategy::Concatenate => join_nl(results),
        CombineStrategy::FirstValid => first_valid(results),
        CombineStrategy::JsonArray => json_string_array_text(results),
        CombineStrategy::Custom(c) => c.spec_combine(results),
    }
}

fn first_valid_from(results: &Vec<String>, i: usize) -> (r: String)
    requires
        i <= results@.len(),
    ensures
        r@ == first_valid(results.deep_view().skip(i as int)),
    decreases results@.len() - i,
{
    if i == results.len() {
        proof {
            assert(results.deep_view().skip(i as int) =~= Seq::<Seq<char>>::empty());
        }
        String::new()
    } else if !results[i].as_str().is_empty() {
        results[i].clone()
    } else {
        let r = first_valid_from(results, i + 1);
        proof {
            assert(results.deep_view().skip(i as int).drop_first() =~= results.deep_view().skip(
                i + 1,
            ));
        }
        r
    }
}

/// An ordered list of inner agents.
pub enum AgentList<A> {
    /// No agents.
    Nil,
    /// The first agent and those after it.
    Cons(A, Box<AgentList<A>>),
}

/// The views of the agents, in list order.
pub open spec fn list_views<A: Agent>(l: AgentList<A>) -> Seq<A::V>
    decreases l,
{
    match l {
        AgentList::Nil => Seq::empty(),
        AgentList::Cons(a, rest) => seq![a@] + list_views(*rest),
    }
}

/// The outputs of the agents on this input, in list order.
pub open spec fn views_outputs<A: Agent>(vs: Seq<A::V>, input: Seq<char>) -> Seq<Seq<char>>
    decreases vs.len(),
{
    if vs.len() == 0 {
        Seq::empty()
    } else {
        seq![A::spec_output(vs[0], input)] + views_outputs::<A>(vs.drop_first(), input)
    }
}

/// Every agent stepped once on this input, in list order.
pub open spec fn views_stepped<A: Agent>(vs: Seq<A::V>, input: Seq<char>) -> Seq<A::V> {
    vs.map_values(|v: A::V| A::spec_step(v, input))
}

/// The list with one more agent at its end.
pub open spec fn list_push<A: Agent>(l: AgentList<A>, agent: A) -> AgentList<A>
    decreases l,
{
    match l {
        AgentList::Nil => AgentList::Cons(agent, Box::new(AgentList::Nil)),
        AgentList::Cons(a, rest) => AgentList::Cons(a, Box::new(list_push(*rest, agent))),
    }
}

fn push_back<A: Agent>(l: AgentList<A>, agent: A) -> (r: AgentList<A>)
    ensures
        r == list_push(l, agent),
    decreases l,
{
    match l {
        AgentList::Nil => AgentList::Cons(agent, Box::new(AgentList::Nil)),
        AgentList::Cons(a, rest) => AgentList::Cons(a, Box::new(push_back(*rest, agent))),
    }
}

fn run_list<A: Agent>(l: AgentList<A>, input: &str, tools: &CombinedToolRegistry) -> (r: (
    AgentList<A>,
    Vec<String>,
))
    ensures
        list_views(r.0) == views_stepped::<A>(list_views(l), input@),
        r.1.deep_view() == views_outputs::<A>(list_views(l), input@),
    decreases l,
{
    match l {
        AgentList::Nil => {
            let outs: Vec<String> = Vec::new();
            proof {
                assert(outs.deep_view() =~= views_outputs::<A>(list_views(l), input@));
                assert(list_views(AgentList::<A>::Nil) =~= views_stepped::<A>(
                    list_views(l),
                    input@,
                ));
            }
            (AgentList::Nil, outs)
        },
        AgentList::Cons(mut a, rest) => {
            let ghost l0 = list_views(l);
            let (out, _next) = a.run(input, tools);
            let (rest2, mut rest_outs) = run_list(*rest, input, tools);
            let mut outs: Vec<String> = Vec::new();
            outs.push(out);
            outs.append(&mut rest_outs);
            let r0 = AgentList::Cons(a, Box::new(rest2));
            proof {
                assert(l0.drop_first() =~= list_views(*rest));
                assert(outs.deep_view() =~= views_outputs::<A>(l0, input@));
                assert(list_views(r0) =~= views_stepped::<A>(l0, input@));
            }
            (r0, outs)
        },
    }
}

/// The message returned when no agents are configured.
pub open spec fn no_agents_text() -> Seq<char> {
    "No agents configured for parallel execution"@
}

/// Mathematical image of a parallel combinator.
#[verifier::ext_equal]
pub ghost struct ParallelAgentV<AV, C> {
    pub agents: Seq<AV>,
    pub strategy: CombineStrategy<C>,
    pub name: String,
    pub timeout_ms: Option<u64>,
}

/// Runs an ordered list of agents on the same input and combines their
/// outputs, collected in registration order. In this engine the inner agents
/// are dispatched synchronously, each completing before the next starts, so a
/// configured timeout never elapses between dispatch and collection and no
/// in-flight work exists to discard.
pub struct ParallelAgent<A, C> {
    /// The inner agents, in registration order.
    pub agents: AgentList<A>,
    /// The combine strategy.
    pub strategy: CombineStrategy<C>,
    /// The combinator's name.
    pub name: String,
    /// An overall timeout in milliseconds, if configured.
    pub timeout_ms: Option<u64>,
}

impl<A: Agent> ParallelAgent<A, NewlineCombine> {
    /// Creates a combinator with no agents, concatenation, and no timeout.
    pub fn new() -> (r: ParallelAgent<A, NewlineCombine>)
        ensures
            r.agents == AgentList::<A>::Nil,
            r.strategy is Concatenate,
            r.name@ == "Parallel"@,
            r.timeout_ms is None,
    {
        ParallelAgent {
            agents: AgentList::Nil,
            strategy: CombineStrategy::Concatenate,
            name: String::from_str("Parallel"),
            timeout_ms: None,
        }
    }
}

impl<A: Agent, C: Combine> ParallelAgent<A, C> {
    /// Adds an agent at the end of the registration order.
    pub fn add_agent(self, agent: A) -> (r: Self)
        ensures
            r.agents == list_push(self.agents, agent),
            r.strategy == self.strategy,
            r.name == self.name,
            r.timeout_ms == self.timeout_ms,
    {
        ParallelAgent {
            agents: push_back(self.agents, agent),
            strategy: self.strategy,
            name: self.name,
            timeout_ms: self.timeout_ms,
        }
    }

    /// Sets the combine strategy.
    pub fn with_strategy(self, strategy: CombineStrategy<C>) -> (r: Self)
        ensures
            r.agents == self.agents,
            r.strategy == strategy,
            r.name == self.name,
            r.timeout_ms == self.timeout_ms,
    {
        ParallelAgent { strategy, ..self }
    }

    /// Sets a caller-supplied reduction as the combine strategy.
    pub fn with_combiner<C2: Combine>(self, combiner: C2) -> (r: ParallelAgent<A, C2>)
        ensures
            r.agents == self.agents,
            r.strategy == CombineStrategy::<C2>::Custom(combiner),
            r.name == self.name,
            r.timeout_ms == self.timeout_ms,
    {
        ParallelAgent {
            agents: self.agents,
            strategy: CombineStrategy::Custom(combiner),
            name: self.name,
            timeout_ms: self.timeout_ms,
        }
    }

    /// Sets the overall timeout, in milliseconds.
    pub fn with_timeout(self, timeout_ms: u64) -> (r: Self)
        ensures
            r.agents == self.agents,
            r.strategy == self.strategy,
            r.name == self.name,
            r.timeout_ms == Some(timeout_ms),
    {
        ParallelAgent { timeout_ms: Some(timeout_ms), ..self }
    }

    /// Sets the combinator's name.
    pub fn with_name(self, name: &str) -> (r: Self)
        ensures
            r.agents == self.agents,
            r.strategy == self.strategy,
            r.name@ == name@,
            r.timeout_ms == self.timeout_ms,
    {
        ParallelAgent { name: String::from_str(name), ..self }
    }

    /// Combines ordered results under the configured strategy.
    pub fn combine_results(&self, results: &Vec<String>) -> (r: String)
        ensures
            r@ == combined_text(self.strategy, results.deep_view()),
    {
        match &self.strategy {
            CombineStrategy::Concatenate => join_newline(results),
            CombineStrategy::FirstValid => {
                let r = first_valid_from(results, 0);
                proof {
                    assert(results.deep_view().skip(0) =~= results.deep_view());
                }
                r
            },
            CombineStrategy::JsonArray => json_string_array(results),
            CombineStrategy::Custom(c) => c.combine(results),
        }
    }
}

impl<A: Agent, C: Combine> View for ParallelAgent<A, C> {
    type V = ParallelAgentV<A::V, C>;

    open spec fn view(&self) -> ParallelAgentV<A::V, C> {
        ParallelAgentV {
            agents: list_views(self.agents),
            strategy: self.strategy,
            name: self.name,
            timeout_ms: self.timeout_ms,
        }
    }
}

impl<A: Agent, C: Combine> Agent for ParallelAgent<A, C> {
    open spec fn spec_output(v: ParallelAgentV<A::V, C>, input: Seq<char>) -> Seq<char> {
        if v.agents.len() == 0 {
            no_agents_text()
        } else {
            combined_text(v.strategy, views_outputs::<A>(v.agents, input))
        }
    }

    open spec fn spec_next(v: ParallelAgentV<A::V, C>, input: Seq<char>) -> Option<i32> {
        None
    }

    open spec fn spec_step(v: ParallelAgentV<A::V, C>, input: Seq<char>) -> ParallelAgentV<
        A::V,
        C,
    > {
        if v.agents.len() == 0 {
            v
        } else {
            ParallelAgentV {
                agents: views_stepped::<A>(v.agents, input),
                strategy: v.strategy,
                name: v.name,
                timeout_ms: v.timeout_ms,
            }
        }
    }

    open spec fn spec_name(&self) -> Seq<char> {
        self.name@
    }

    fn run(&mut self, input: &str, tools: &CombinedToolRegistry) -> (r: (String, Option<i32>)) {
        let is_empty = match &self.agents {
            AgentList::Nil => true,
            AgentList::Cons(_, _) => false,
        };
        if is_empty {
            proof {
                assert(list_views(self.agents) =~= Seq::<A::V>::empty());
            }
            return (String::from_str("No agents configured for parallel execution"), None);
        }
        let mut taken: AgentList<A> = AgentList::Nil;
        core::mem::swap(&mut taken, &mut self.agents);
        let (stepped, outs) = run_list(taken, input, tools);
        self.agents = stepped;
        let combined = self.combine_results(&outs);
        (combined, None)
    }

    fn get_name(&self) -> (r: &str) {
        self.name.as_str()
    }
}

} // verus!
