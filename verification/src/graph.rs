//! The graph execution engine: a collection of nodes, each an agent with a
//! node-local capability registry, plus one global registry, and a sequential
//! dispatch loop that threads each agent's output into the next agent's
//! input.
//!
//! Routing is agent-decided: the adjacency lists recorded by `add_edge` are
//! documentation metadata and are never consulted by `run`.

use vstd::prelude::*;
use vstd::string::StringExecFns;
use std::collections::HashMap;
use crate::tools::{CombinedToolRegistry, Tool, ToolRegistry, ToolV};
use crate::text::dec_str_int;
use crate::text::i32_to_string;

verus! {

broadcast use vstd::std_specs::hash::group_hash_axioms;

/// A processing unit the engine can dispatch to. One invocation takes the
/// current input and a scoped capability view, and yields output text, an
/// optional next node, and the agent's next state. The three static spec
/// functions name those results as functions of the agent's mathematical
/// view, so that contracts can speak of them.
pub trait Agent: View + Sized {
    /// The output text of one invocation of an agent in this state on this
    /// input.
    spec fn spec_output(v: Self::V, input: Seq<char>) -> Seq<char>;

    /// The node one invocation routes to, or `None` to stop.
    spec fn spec_next(v: Self::V, input: Seq<char>) -> Option<i32>;

    /// The agent's state after one invocation.
    spec fn spec_step(v: Self::V, input: Seq<char>) -> Self::V;

    /// The agent's name.
    spec fn spec_name(&self) -> Seq<char>;

    /// Processes the input with the given capability view; the input is never
    /// mutated, and failures are reported inside the output text rather than
    /// through an error channel.
    fn run(&mut self, input: &str, tools: &CombinedToolRegistry) -> (r: (String, Option<i32>))
        ensures
            r.0@ == Self::spec_output(old(self)@, input@),
            r.1 == Self::spec_next(old(self)@, input@),
            final(self)@ == Self::spec_step(old(self)@, input@),
    ;

    /// The agent's name, for identification.
    fn get_name(&self) -> (r: &str)
        ensures
            r@ == self.spec_name(),
    ;
}

/// One node of the graph: an exclusively owned agent, its node-local
/// registry, and an adjacency list that `run` never consults.
pub struct Node<A> {
    /// The agent dispatched when the run reaches this node.
    pub agent: A,
    /// Neighbor identifiers recorded by `add_edge`; metadata only.
    pub neighbors: Vec<i32>,
    /// The node-local capability registry; it takes precedence over the
    /// graph's global registry during this node's invocations.
    pub tool_registry: ToolRegistry,
}

/// `s` with `x` appended, unless `s` already holds it.
pub open spec fn add_neighbor(s: Seq<i32>, x: i32) -> Seq<i32> {
    if s.contains(x) {
        s
    } else {
        s.push(x)
    }
}

/// How often `x` occurs in `s`.
pub open spec fn count_of(s: Seq<i32>, x: i32) -> nat
    decreases s.len(),
{
    if s.len() == 0 {
        0
    } else {
        (if s[0] == x {
            1nat
        } else {
            0nat
        }) + count_of(s.drop_first(), x)
    }
}

/// In a duplicate-free list every element occurs exactly once and every other
/// value not at all.
pub proof fn lemma_count_no_dup(s: Seq<i32>, x: i32)
    requires
        s.no_duplicates(),
    ensures
        count_of(s, x) == if s.contains(x) {
            1nat
        } else {
            0nat
        },
    decreases s.len(),
{
    if s.len() > 0 {
        let rest = s.drop_first();
        assert(rest.no_duplicates()) by {
            assert forall|k1: int, k2: int|
                0 <= k1 < k2 < rest.len() implies rest[k1] != rest[k2] by {
                assert(s[k1 + 1] != s[k2 + 1]);
            }
        }
        lemma_count_no_dup(rest, x);
        if s[0] == x {
            assert(!rest.contains(x)) by {
                if rest.contains(x) {
                    let k = choose|k: int| 0 <= k < rest.len() && rest[k] == x;
                    assert(s[0] != s[k + 1]);
                }
            }
        } else {
            assert(s.contains(x) <==> rest.contains(x)) by {
                if s.contains(x) {
                    let k = choose|k: int| 0 <= k < s.len() && s[k] == x;
                    assert(rest[k - 1] == x);
                }
                if rest.contains(x) {
                    let k = choose|k: int| 0 <= k < rest.len() && rest[k] == x;
                    assert(s[k + 1] == x);
                }
            }
        }
    }
}

/// Recording a neighbor is idempotent and keeps the list duplicate-free:
/// after any number of repeated additions the neighbor stands in the list
/// exactly once.
pub proof fn lemma_add_neighbor(s: Seq<i32>, x: i32)
    requires
        s.no_duplicates(),
    ensures
        add_neighbor(s, x).no_duplicates(),
        add_neighbor(s, x).contains(x),
        add_neighbor(add_neighbor(s, x), x) == add_neighbor(s, x),
        count_of(add_neighbor(s, x), x) == 1,
{
    let r = add_neighbor(s, x);
    if !s.contains(x) {
        assert(r[r.len() - 1] == x);
        assert(r.no_duplicates()) by {
            assert forall|k1: int, k2: int| 0 <= k1 < k2 < r.len() implies r[k1] != r[k2] by {
                if k2 == r.len() - 1 {
                    assert(s[k1] == r[k1]);
                }
            }
        }
    }
    assert(r.contains(x));
    lemma_count_no_dup(r, x);
}

/// The line appended to a transcript when a run reaches a node identifier
/// that no node carries.
pub open spec fn missing_node_text(id: int) -> Seq<char> {
    "Error: Node "@ + dec_str_int(id) + " does not exist\n"@
}

/// Mathematical image of one node: the agent's view, the recorded neighbors,
/// and the node-local registry.
#[verifier::ext_equal]
pub ghost struct NodeV<AV> {
    pub agent: AV,
    pub neighbors: Seq<i32>,
    pub tool_registry: ToolRegistry,
}

/// The view of a node, field for field.
pub open spec fn node_view<A: Agent>(n: Node<A>) -> NodeV<A::V> {
    NodeV { agent: n.agent@, neighbors: n.neighbors@, tool_registry: n.tool_registry }
}

/// The views of all nodes of a map.
pub open spec fn nodes_view<A: Agent>(m: Map<i32, Node<A>>) -> Map<i32, NodeV<A::V>> {
    Map::new(|k: i32| m.dom().contains(k), |k: i32| node_view(m[k]))
}

/// One run of the engine, as a function of the node map, the current node,
/// the current input, and the number of agent invocations still allowed:
/// yields the node map after the run and the accumulated transcript.
///
/// Each step appends the current agent's output plus a newline; a missing
/// node appends the explicit marker and stops; an agent returning no next
/// node stops; otherwise the agent's output becomes the next input.
pub open spec fn spec_run<A: Agent>(
    nodes: Map<i32, NodeV<A::V>>,
    current: i32,
    input: Seq<char>,
    fuel: nat,
) -> (Map<i32, NodeV<A::V>>, Seq<char>)
    decreases fuel,
{
    if !nodes.dom().contains(current) {
        (nodes, missing_node_text(current as int))
    } else if fuel == 0 {
        (nodes, Seq::empty())
    } else {
        let node = nodes[current];
        let out = A::spec_output(node.agent, input);
        let next = A::spec_next(node.agent, input);
        let nodes2 = nodes.insert(
            current,
            NodeV {
                agent: A::spec_step(node.agent, input),
                neighbors: node.neighbors,
                tool_registry: node.tool_registry,
            },
        );
        let line = out + seq!['\n'];
        match next {
            None => (nodes2, line),
            Some(n) => {
                let rest = spec_run::<A>(nodes2, n, out, (fuel - 1) as nat);
                (rest.0, line + rest.1)
            },
        }
    }
}

/// A run from a nonexistent start node yields exactly the explicit marker and
/// invokes no agent: every node keeps its state.
pub proof fn lemma_run_missing_start<A: Agent>(
    nodes: Map<i32, NodeV<A::V>>,
    start: i32,
    input: Seq<char>,
    fuel: nat,
)
    requires
        !nodes.dom().contains(start),
    ensures
        spec_run::<A>(nodes, start, input, fuel).0 == nodes,
        spec_run::<A>(nodes, start, input, fuel).1 == missing_node_text(start as int),
{
}

/// A directed graph of agents plus one global capability registry. `run`
/// dispatches sequentially from a start node, each agent's output becoming
/// the next agent's input, until an agent stops routing, a named node does
/// not exist, or the step budget is spent.
pub struct Graph<A> {
    nodes: HashMap<i32, Node<A>>,
    tool_registry: ToolRegistry,
}

impl<A: Agent> Graph<A> {
    /// The node map.
    pub closed spec fn spec_nodes(self) -> Map<i32, Node<A>> {
        self.nodes@
    }

    /// The global registry.
    pub closed spec fn spec_global(self) -> ToolRegistry {
        self.tool_registry
    }

    /// Every registry is well-formed and every adjacency list duplicate-free.
    pub open spec fn wf(self) -> bool {
        &&& self.spec_global().wf()
        &&& forall|id: i32|
            self.spec_nodes().dom().contains(id) ==> (#[trigger] self.spec_nodes()[id]).tool_registry.wf()
        &&& forall|id: i32|
            self.spec_nodes().dom().contains(id)
                ==> (#[trigger] self.spec_nodes()[id]).neighbors@.no_duplicates()
    }

    /// Creates an empty graph.
    pub fn new() -> (r: Graph<A>)
        ensures
            r.spec_nodes() == Map::<i32, Node<A>>::empty(),
            r.spec_global().spec_tools() == Seq::<ToolV>::empty(),
            r.wf(),
    {
        Graph { nodes: HashMap::new(), tool_registry: ToolRegistry::new() }
    }

    /// Registers a tool in the global registry, available to every node:
    /// an earlier tool of the same name is replaced, any other kept.
    pub fn register_tool<F: Fn(serde_json::Value) -> Result<
        serde_json::Value,
        String,
    > + Send + Sync + 'static>(&mut self, tool: Tool, function: F)
        requires
            old(self).wf(),
        ensures
            final(self).wf(),
            final(self).spec_nodes() == old(self).spec_nodes(),
            forall|n: Seq<char>|
                final(self).spec_global().spec_has(n) <==> (old(self).spec_global().spec_has(n)
                    || n == tool@.function.name),
            final(self).spec_global().spec_get(tool@.function.name) == tool@,
            forall|n: Seq<char>|
                n != tool@.function.name && old(self).spec_global().spec_has(n) ==> final(self).spec_global().spec_get(n) == old(self).spec_global().spec_get(n),
    {
        self.tool_registry.register_tool(tool, function);
        proof {
            assert(self.spec_nodes() == old(self).spec_nodes());
            assert forall|id: i32| self.spec_nodes().dom().contains(id) implies (#[trigger] self.spec_nodes()[id]).tool_registry.wf()
                && self.spec_nodes()[id].neighbors@.no_duplicates() by {
                assert(old(self).spec_nodes()[id].tool_registry.wf());
                assert(old(self).spec_nodes()[id].neighbors@.no_duplicates());
            }
        }
    }

    /// Registers a tool in one node's local registry, where it takes
    /// precedence over the global registry; fails when the node does not
    /// exist.
    pub fn register_tool_for_node<F: Fn(serde_json::Value) -> Result<
        serde_json::Value,
        String,
    > + Send + Sync + 'static>(&mut self, node_id: i32, tool: Tool, function: F) -> (r: Result<
        (),
        String,
    >)
        requires
            old(self).wf(),
        ensures
            final(self).wf(),
            final(self).spec_global() == old(self).spec_global(),
            r is Ok <==> old(self).spec_nodes().dom().contains(node_id),
            !old(self).spec_nodes().dom().contains(node_id) ==> final(self).spec_nodes() == old(self).spec_nodes() && r is Err && r->Err_0@ == "Node "@ + dec_str_int(node_id as int)
                + " does not exist"@,
            old(self).spec_nodes().dom().contains(node_id) ==> {
                &&& final(self).spec_nodes().dom() == old(self).spec_nodes().dom()
                &&& forall|id: i32|
                    id != node_id && old(self).spec_nodes().dom().contains(id) ==> final(self).spec_nodes()[id] == old(self).spec_nodes()[id]
                &&& final(self).spec_nodes()[node_id].agent == old(self).spec_nodes()[node_id].agent
                &&& final(self).spec_nodes()[node_id].neighbors == old(self).spec_nodes()[node_id].neighbors
                &&& final(self).spec_nodes()[node_id].tool_registry.spec_get(tool@.function.name)
                    == tool@
                &&& forall|n: Seq<char>|
                    final(self).spec_nodes()[node_id].tool_registry.spec_has(n) <==> (old(self).spec_nodes()[node_id].tool_registry.spec_has(n) || n == tool@.function.name)
            },
    {
        let found = self.nodes.remove(&node_id);
        match found {
            Some(mut node) => {
                proof {
                    assert(old(self).spec_nodes()[node_id].tool_registry.wf());
                }
                node.tool_registry.register_tool(tool, function);
                self.nodes.insert(node_id, node);
                proof {
                    assert(self.spec_nodes().dom() =~= old(self).spec_nodes().dom());
                    assert forall|id: i32| self.spec_nodes().dom().contains(id) implies (
                    #[trigger] self.spec_nodes()[id]).tool_registry.wf()
                        && self.spec_nodes()[id].neighbors@.no_duplicates() by {
                        assert(old(self).spec_nodes()[id].tool_registry.wf());
                        assert(old(self).spec_nodes()[id].neighbors@.no_duplicates());
                    }
                }
                Ok(())
            },
            None => {
                let mut msg = String::from_str("Node ");
                msg.append(i32_to_string(node_id).as_str());
                msg.append(" does not exist");
                proof {
                    assert(final(self).spec_nodes() =~= old(self).spec_nodes());
                }
                Err(msg)
            },
        }
    }

    /// The local registry of a node, if the node exists.
    pub fn get_node_tool_registry(&self, node_id: i32) -> (r: Option<&ToolRegistry>)
        ensures
            match r {
                Some(reg) => self.spec_nodes().dom().contains(node_id) && *reg
                    == self.spec_nodes()[node_id].tool_registry,
                None => !self.spec_nodes().dom().contains(node_id),
            },
    {
        match self.nodes.get(&node_id) {
            Some(node) => Some(&node.tool_registry),
            None => None,
        }
    }

    /// The shared global registry.
    pub fn get_shared_tool_registry(&self) -> (r: &ToolRegistry)
        ensures
            *r == self.spec_global(),
    {
        &self.tool_registry
    }

    /// Adds a node under this identifier, with an empty local registry and no
    /// recorded neighbors; an existing node of the same identifier is
    /// replaced wholesale, its accumulated state included.
    pub fn add_node(&mut self, id: i32, agent: A)
        requires
            old(self).wf(),
        ensures
            final(self).wf(),
            final(self).spec_global() == old(self).spec_global(),
            final(self).spec_nodes().dom() == old(self).spec_nodes().dom().insert(id),
            final(self).spec_nodes()[id].agent == agent,
            final(self).spec_nodes()[id].neighbors@ == Seq::<i32>::empty(),
            final(self).spec_nodes()[id].tool_registry.spec_tools() == Seq::<ToolV>::empty(),
            forall|other: i32|
                other != id && old(self).spec_nodes().dom().contains(other) ==> final(self).spec_nodes()[other] == old(self).spec_nodes()[other],
    {
        let node = Node { agent, neighbors: Vec::new(), tool_registry: ToolRegistry::new() };
        self.nodes.insert(id, node);
        proof {
            assert(final(self).spec_nodes().dom() =~= old(self).spec_nodes().dom().insert(id));
        }
    }

    /// Adds a bidirectional edge: `v` is recorded once among `u`'s neighbors
    /// and `u` once among `v`'s, however often the call is repeated. Fails,
    /// changing nothing, when either endpoint is absent. The recorded lists
    /// are metadata only: `run` never consults them.
    pub fn add_edge(&mut self, u: i32, v: i32) -> (r: Result<(), String>)
        requires
            old(self).wf(),
        ensures
            final(self).wf(),
            final(self).spec_global() == old(self).spec_global(),
            r is Ok <==> (old(self).spec_nodes().dom().contains(u) && old(self).spec_nodes().dom().contains(v)),
            r is Err ==> final(self).spec_nodes() == old(self).spec_nodes() && r->Err_0@
                == "One or both nodes do not exist"@,
            r is Ok ==> {
                &&& final(self).spec_nodes().dom() == old(self).spec_nodes().dom()
                &&& forall|id: i32|
                    old(self).spec_nodes().dom().contains(id) ==> (#[trigger] final(self).spec_nodes()[id]).agent == old(self).spec_nodes()[id].agent && final(self).spec_nodes()[id].tool_registry == old(self).spec_nodes()[id].tool_registry
                &&& forall|id: i32|
                    id != u && id != v && old(self).spec_nodes().dom().contains(id) ==> (
                    #[trigger] final(self).spec_nodes()[id]).neighbors == old(self).spec_nodes()[id].neighbors
                &&& u != v ==> final(self).spec_nodes()[u].neighbors@ == add_neighbor(
                    old(self).spec_nodes()[u].neighbors@,
                    v,
                ) && final(self).spec_nodes()[v].neighbors@ == add_neighbor(
                    old(self).spec_nodes()[v].neighbors@,
                    u,
                )
                &&& u == v ==> final(self).spec_nodes()[u].neighbors@ == add_neighbor(
                    old(self).spec_nodes()[u].neighbors@,
                    u,
                )
            },
    {
        if !self.nodes.contains_key(&u) || !self.nodes.contains_key(&v) {
            return Err(String::from_str("One or both nodes do not exist"));
        }
        let nu = self.nodes.remove(&u);
        match nu {
            Some(mut node) => {
                push_if_absent(&mut node.neighbors, v);
                proof {
                    lemma_add_neighbor(old(self).spec_nodes()[u].neighbors@, v);
                }
                self.nodes.insert(u, node);
            },
            None => {
                proof {
                    assert(false);
                }
            },
        }
        let ghost mid = self.nodes@;
        let nv = self.nodes.remove(&v);
        match nv {
            Some(mut node) => {
                push_if_absent(&mut node.neighbors, u);
                proof {
                    lemma_add_neighbor(mid[v].neighbors@, u);
                }
                self.nodes.insert(v, node);
            },
            None => {
                proof {
                    assert(false);
                }
            },
        }
        proof {
            assert(final(self).spec_nodes().dom() =~= old(self).spec_nodes().dom());
            if u == v {
                assert(mid[v].neighbors@.contains(u));
                assert(add_neighbor(mid[v].neighbors@, u) == mid[v].neighbors@);
            }
        }
        Ok(())
    }

    /// Executes the graph from `start_id` on `input`, invoking at most
    /// `max_steps` agents: exactly the run `spec_run` describes, both in the
    /// returned transcript and in the state every agent is left in.
    pub fn run(&mut self, start_id: i32, input: &str, max_steps: usize) -> (transcript: String)
        ensures
            nodes_view(final(self).spec_nodes()) == spec_run::<A>(
                nodes_view(old(self).spec_nodes()),
                start_id,
                input@,
                max_steps as nat,
            ).0,
            transcript@ == spec_run::<A>(
                nodes_view(old(self).spec_nodes()),
                start_id,
                input@,
                max_steps as nat,
            ).1,
            final(self).spec_global() == old(self).spec_global(),
        decreases max_steps,
    {
        proof {
            reveal_strlit("\n");
            assert("\n"@ =~= seq!['\n']);
        }
        if !self.nodes.contains_key(&start_id) {
            let mut msg = String::from_str("Error: Node ");
            msg.append(i32_to_string(start_id).as_str());
            msg.append(" does not exist\n");
            proof {
                assert(!nodes_view(old(self).spec_nodes()).dom().contains(start_id));
            }
            return msg;
        }
        proof {
            assert(nodes_view(old(self).spec_nodes()).dom().contains(start_id));
        }
        if max_steps == 0 {
            return String::new();
        }
        let found = self.nodes.remove(&start_id);
        match found {
            Some(mut node) => {
                let ghost onode = node;
                let (output, next) = {
                    let combined = CombinedToolRegistry::new(
                        &node.tool_registry,
                        &self.tool_registry,
                    );
                    node.agent.run(input, &combined)
                };
                self.nodes.insert(start_id, node);
                proof {
                    assert(node_view(node) == NodeV {
                        agent: A::spec_step(onode.agent@, input@),
                        neighbors: onode.neighbors@,
                        tool_registry: onode.tool_registry,
                    });
                    assert(self.nodes@ =~= old(self).spec_nodes().insert(start_id, node));
                    assert(nodes_view(self.nodes@) =~= nodes_view(old(self).spec_nodes()).insert(
                        start_id,
                        node_view(node),
                    ));
                }
                match next {
                    None => {
                        let mut t = output;
                        t.append("\n");
                        t
                    },
                    Some(n) => {
                        let rest = self.run(n, output.as_str(), max_steps - 1);
                        let mut t = output;
                        t.append("\n");
                        t.append(rest.as_str());
                        t
                    },
                }
            },
            None => {
                proof {
                    assert(false);
                }
                String::new()
            },
        }
    }
}

fn contains_i32(v: &Vec<i32>, x: i32) -> (b: bool)
    ensures
        b == v@.contains(x),
{
    let mut i: usize = 0;
    while i < v.len()
        invariant
            i <= v@.len(),
            forall|k: int| 0 <= k < i ==> v@[k] != x,
        decreases v@.len() - i,
    {
        if v[i] == x {
            return true;
        }
        i = i + 1;
    }
    false
}

fn push_if_absent(v: &mut Vec<i32>, x: i32)
    ensures
        final(v)@ == add_neighbor(old(v)@, x),
{
    if !contains_i32(v, x) {
        v.push(x);
    }
}

} // verus!
