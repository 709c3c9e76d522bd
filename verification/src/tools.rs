//! Tool and message definitions, the capability registry, and the two-tier
//! scoped view over a node-local and a global registry.
//!
//! A registry maps tool names to a tool specification plus a caller-supplied
//! callable. Registration is last-write-wins on name collision, and a
//! registry never holds two tools of the same name. The scoped view composes
//! two registries; the primary one wins on name collision, and execution
//! dispatches by membership, never by falling through on a primary error.

use vstd::prelude::*;
use vstd::string::StringExecFns;
use crate::bridge::{json_valid, parse_json, ToolCallable};

verus! {

/// A single parameter property of a tool's schema.
pub struct Property {
    /// The type of the property (e.g. "string", "number", "array").
    pub prop_type: String,
    /// Optional description of the property.
    pub description: Option<String>,
    /// For array types, the schema of the items.
    pub items: Option<Box<Property>>,
}

/// Mathematical image of a `Property`.
#[verifier::ext_equal]
pub ghost struct PropertyV {
    pub prop_type: Seq<char>,
    pub description: Option<Seq<char>>,
    pub items: Option<Box<PropertyV>>,
}

/// The view of a `Property`, field for field.
pub open spec fn prop_view(p: Property) -> PropertyV
    decreases p,
{
    PropertyV {
        prop_type: p.prop_type@,
        description: match p.description {
            Some(d) => Some(d@),
            None => None,
        },
        items: match p.items {
            Some(b) => Some(Box::new(prop_view(*b))),
            None => None,
        },
    }
}

impl View for Property {
    type V = PropertyV;

    open spec fn view(&self) -> PropertyV {
        prop_view(*self)
    }
}

impl Clone for Property {
    fn clone(&self) -> (r: Self)
        ensures
            r@ == self@,
        decreases *self,
    {
        Property {
            prop_type: self.prop_type.clone(),
            description: match &self.description {
                Some(d) => Some(d.clone()),
                None => None,
            },
            items: match &self.items {
                Some(b) => {
                    let inner: &Property = &**b;
                    Some(Box::new(inner.clone()))
                },
                None => None,
            },
        }
    }
}

/// The parameter schema of a tool's function.
pub struct Parameters {
    /// The type of the parameters (typically "object").
    pub param_type: String,
    /// Parameter names with their properties.
    pub properties: Vec<(String, Property)>,
    /// Names of the required parameters.
    pub required: Vec<String>,
}

/// Mathematical image of `Parameters`.
#[verifier::ext_equal]
pub ghost struct ParametersV {
    pub param_type: Seq<char>,
    pub properties: Seq<(Seq<char>, PropertyV)>,
    pub required: Seq<Seq<char>>,
}

impl View for Parameters {
    type V = ParametersV;

    open spec fn view(&self) -> ParametersV {
        ParametersV {
            param_type: self.param_type@,
            properties: self.properties@.map_values(|e: (String, Property)| (e.0@, e.1@)),
            required: self.required.deep_view(),
        }
    }
}

fn clone_string_vec(v: &Vec<String>) -> (r: Vec<String>)
    ensures
        r.deep_view() == v.deep_view(),
{
    let mut r: Vec<String> = Vec::new();
    let mut i: usize = 0;
    while i < v.len()
        invariant
            i <= v@.len(),
            r@.len() == i,
            forall|k: int| 0 <= k < i ==> r@[k]@ == v@[k]@,
        decreases v@.len() - i,
    {
        r.push(v[i].clone());
        i = i + 1;
    }
    proof {
        assert(r.deep_view() =~= v.deep_view());
    }
    r
}

impl Clone for Parameters {
    fn clone(&self) -> (r: Self)
        ensures
            r@ == self@,
    {
        let mut props: Vec<(String, Property)> = Vec::new();
        let mut i: usize = 0;
        while i < self.properties.len()
            invariant
                i <= self.properties@.len(),
                props@.len() == i,
                forall|k: int|
                    0 <= k < i ==> props@[k].0@ == self.properties@[k].0@ && props@[k].1@
                        == self.properties@[k].1@,
            decreases self.properties@.len() - i,
        {
            let entry = &self.properties[i];
            props.push((entry.0.clone(), entry.1.clone()));
            i = i + 1;
        }
        let r = Parameters {
            param_type: self.param_type.clone(),
            properties: props,
            required: clone_string_vec(&self.required),
        };
        proof {
            assert(r@.properties =~= self@.properties);
            assert(r@.required =~= self@.required);
            assert(r@ =~= self@);
        }
        r
    }
}

/// A function a tool exposes: its name, description and parameter schema.
pub struct Function {
    /// The name of the function.
    pub name: String,
    /// A description of what the function does.
    pub description: String,
    /// The parameters the function accepts.
    pub parameters: Parameters,
}

/// Mathematical image of a `Function`.
#[verifier::ext_equal]
pub ghost struct FunctionV {
    pub name: Seq<char>,
    pub description: Seq<char>,
    pub parameters: ParametersV,
}

impl View for Function {
    type V = FunctionV;

    open spec fn view(&self) -> FunctionV {
        FunctionV { name: self.name@, description: self.description@, parameters: self.parameters@ }
    }
}

impl Clone for Function {
    fn clone(&self) -> (r: Self)
        ensures
            r@ == self@,
    {
        Function {
            name: self.name.clone(),
            description: self.description.clone(),
            parameters: self.parameters.clone(),
        }
    }
}

/// A tool an agent may call: a type tag (typically "function") and the
/// function it names.
pub struct Tool {
    /// The type of tool.
    pub tool_type: String,
    /// The function definition.
    pub function: Function,
}

/// Mathematical image of a `Tool`.
#[verifier::ext_equal]
pub ghost struct ToolV {
    pub tool_type: Seq<char>,
    pub function: FunctionV,
}

impl View for Tool {
    type V = ToolV;

    open spec fn view(&self) -> ToolV {
        ToolV { tool_type: self.tool_type@, function: self.function@ }
    }
}

impl Clone for Tool {
    fn clone(&self) -> (r: Self)
        ensures
            r@ == self@,
    {
        Tool { tool_type: self.tool_type.clone(), function: self.function.clone() }
    }
}

/// A tool call requested by a completion service.
pub struct ToolCall {
    /// Unique identifier of this call.
    pub id: String,
    /// The type of the call (typically "function").
    pub call_type: String,
    /// The function call details.
    pub function: FunctionCall,
}

/// The function and serialized arguments of one tool call.
pub struct FunctionCall {
    /// The name of the function to call.
    pub name: String,
    /// The arguments as a JSON document.
    pub arguments: String,
}

/// One message of a conversation.
pub struct Message {
    /// The role of the sender ("system", "user", "assistant", "tool").
    pub role: String,
    /// The text content, if any.
    pub content: Option<String>,
    /// Tool calls made by the assistant, if any.
    pub tool_calls: Option<Vec<ToolCall>>,
}

/// A message carrying one tool execution's result back to the service.
pub struct ToolResultMessage {
    pub role: String,
    pub tool_call_id: String,
    pub name: String,
    pub content: String,
}

/// The body a completion service answers with.
pub struct LLMResponse {
    pub choices: Vec<Choice>,
}

/// One choice of a completion response.
pub struct Choice {
    pub message: Message,
    pub finish_reason: Option<String>,
}

} // verus!

verus! {

impl DeepView for Tool {
    type V = ToolV;

    open spec fn deep_view(&self) -> ToolV {
        self@
    }
}

/// The message returned when a tool's arguments are not a JSON document.
pub open spec fn parse_error_text() -> Seq<char> {
    "Failed to parse arguments"@
}

/// The message returned when no tool of the given name is registered.
pub open spec fn tool_not_found_text(name: Seq<char>) -> Seq<char> {
    "Tool '"@ + name + "' not found"@
}

/// A store of tools and their callables, keyed by tool name. A well-formed
/// registry never holds two tools of the same name; registering a name again
/// replaces the earlier entry.
pub struct ToolRegistry {
    entries: Vec<(Tool, ToolCallable)>,
}

impl ToolRegistry {
    /// The specifications of the registered tools, in registration order.
    pub closed spec fn spec_tools(self) -> Seq<ToolV> {
        self.entries@.map_values(|e: (Tool, ToolCallable)| e.0@)
    }

    /// No two registered tools share a name.
    pub open spec fn wf(self) -> bool {
        forall|i: int, j: int|
            0 <= i < j < self.spec_tools().len() ==> self.spec_tools()[i].function.name
                != self.spec_tools()[j].function.name
    }

    /// A tool of this name is registered.
    pub open spec fn spec_has(self, name: Seq<char>) -> bool {
        exists|i: int|
            0 <= i < self.spec_tools().len() && self.spec_tools()[i].function.name == name
    }

    /// The registered tool of this name.
    pub open spec fn spec_get(self, name: Seq<char>) -> ToolV
        recommends
            self.spec_has(name),
    {
        self.spec_tools()[choose|i: int|
            0 <= i < self.spec_tools().len() && self.spec_tools()[i].function.name == name]
    }

    /// Creates an empty registry.
    pub fn new() -> (r: ToolRegistry)
        ensures
            r.spec_tools() == Seq::<ToolV>::empty(),
            r.wf(),
    {
        let r = ToolRegistry { entries: Vec::new() };
        proof {
            assert(r.spec_tools() =~= Seq::<ToolV>::empty());
        }
        r
    }

    fn index_of(&self, name: &String) -> (r: Option<usize>)
        ensures
            match r {
                Some(i) => i < self.spec_tools().len() && self.spec_tools()[i as int].function.name
                    == name@,
                None => !self.spec_has(name@),
            },
    {
        let mut i: usize = 0;
        while i < self.entries.len()
            invariant
                i <= self.entries@.len(),
                forall|k: int| 0 <= k < i ==> self.spec_tools()[k].function.name != name@,
            decreases self.entries@.len() - i,
        {
            if self.entries[i].0.function.name == *name {
                return Some(i);
            }
            i = i + 1;
        }
        None
    }

    /// Registers a tool with its callable: an earlier tool of the same name
    /// is replaced, any other tool is kept unchanged.
    pub fn register_tool<F: Fn(serde_json::Value) -> Result<
        serde_json::Value,
        String,
    > + Send + Sync + 'static>(&mut self, tool: Tool, function: F)
        requires
            old(self).wf(),
        ensures
            final(self).wf(),
            forall|n: Seq<char>|
                final(self).spec_has(n) <==> (old(self).spec_has(n) || n == tool@.function.name),
            final(self).spec_get(tool@.function.name) == tool@,
            forall|n: Seq<char>|
                n != tool@.function.name && old(self).spec_has(n) ==> final(self).spec_get(n)
                    == old(self).spec_get(n),
            final(self).spec_tools().len() == old(self).spec_tools().len() + (
            if old(self).spec_has(tool@.function.name) {
                0int
            } else {
                1int
            }),
    {
        let callable = ToolCallable::new(function);
        let ghost old_reg = *self;
        let ghost tv = tool@;
        let found = self.index_of(&tool.function.name);
        match found {
            Some(i) => {
                let _ = self.entries.remove(i);
                self.entries.insert(i, (tool, callable));
                proof {
                    assert(self.spec_tools() =~= old_reg.spec_tools().update(i as int, tv));
                    lemma_lookup_after_update(old_reg, *self, i as int, tv);
                }
            },
            None => {
                self.entries.push((tool, callable));
                proof {
                    assert(self.spec_tools() =~= old_reg.spec_tools().push(tv));
                    lemma_lookup_after_push(old_reg, *self, tv);
                }
            },
        }
    }

    /// Reports whether a tool of this name is registered.
    pub fn has_tool(&self, name: &str) -> (b: bool)
        ensures
            b == self.spec_has(name@),
    {
        let owned = name.to_owned();
        let r = self.index_of(&owned);
        r.is_some()
    }

    /// Returns the specifications of all registered tools, in registration
    /// order.
    pub fn get_tools(&self) -> (r: Vec<Tool>)
        ensures
            r.deep_view() == self.spec_tools(),
    {
        let mut r: Vec<Tool> = Vec::new();
        let mut i: usize = 0;
        while i < self.entries.len()
            invariant
                i <= self.entries@.len(),
                r@.len() == i,
                forall|k: int| 0 <= k < i ==> r@[k]@ == self.spec_tools()[k],
            decreases self.entries@.len() - i,
        {
            r.push(self.entries[i].0.clone());
            i = i + 1;
        }
        proof {
            assert(r.deep_view() =~= self.spec_tools());
        }
        r
    }

    /// Executes the tool of the given name on the given JSON arguments.
    /// Fails when the arguments are not a JSON document, or when no tool of
    /// this name is registered; otherwise returns whatever the tool's
    /// callable returned, as-is.
    pub fn execute_tool(&self, name: &str, arguments: &str) -> (r: Result<
        serde_json::Value,
        String,
    >)
        ensures
            !json_valid(arguments@) ==> r is Err && r->Err_0@ == parse_error_text(),
            json_valid(arguments@) && !self.spec_has(name@) ==> r is Err && r->Err_0@
                == tool_not_found_text(name@),
    {
        let args = parse_json(arguments);
        match args {
            None => Err(String::from_str("Failed to parse arguments")),
            Some(v) => {
                let owned = name.to_owned();
                match self.index_of(&owned) {
                    Some(i) => self.entries[i].1.call(v),
                    None => {
                        let mut msg = String::from_str("Tool '");
                        msg.append(name);
                        msg.append("' not found");
                        Err(msg)
                    },
                }
            },
        }
    }
}

/// In a well-formed registry, a lookup of the name found at `i` finds exactly
/// the tool at `i`.
pub proof fn lemma_spec_get_at(r: ToolRegistry, name: Seq<char>, i: int)
    requires
        r.wf(),
        0 <= i < r.spec_tools().len(),
        r.spec_tools()[i].function.name == name,
    ensures
        r.spec_has(name),
        r.spec_get(name) == r.spec_tools()[i],
{
    assert(r.spec_has(name));
    let j = choose|j: int|
        0 <= j < r.spec_tools().len() && r.spec_tools()[j].function.name == name;
    if j != i {
        if j < i {
            assert(r.spec_tools()[j].function.name != r.spec_tools()[i].function.name);
        } else {
            assert(r.spec_tools()[i].function.name != r.spec_tools()[j].function.name);
        }
    }
}

/// The lookup facts of `register_tool` in the case where the tool's name was
/// present at `i` and the entry there was replaced.
proof fn lemma_lookup_after_update(old_reg: ToolRegistry, new_reg: ToolRegistry, i: int, tv: ToolV)
    requires
        old_reg.wf(),
        0 <= i < old_reg.spec_tools().len(),
        old_reg.spec_tools()[i].function.name == tv.function.name,
        new_reg.spec_tools() == old_reg.spec_tools().update(i, tv),
    ensures
        new_reg.wf(),
        forall|n: Seq<char>|
            new_reg.spec_has(n) <==> (old_reg.spec_has(n) || n == tv.function.name),
        new_reg.spec_get(tv.function.name) == tv,
        forall|n: Seq<char>|
            n != tv.function.name && old_reg.spec_has(n) ==> new_reg.spec_get(n)
                == old_reg.spec_get(n),
        new_reg.spec_tools().len() == old_reg.spec_tools().len(),
        old_reg.spec_has(tv.function.name),
{
    let olds = old_reg.spec_tools();
    let news = new_reg.spec_tools();
    assert forall|p: int| 0 <= p < news.len() implies news[p].function.name
        == olds[p].function.name by {}
    assert(new_reg.wf());
    assert forall|n: Seq<char>| new_reg.spec_has(n) implies (old_reg.spec_has(n) || n
        == tv.function.name) by {
        let p = choose|p: int| 0 <= p < news.len() && news[p].function.name == n;
        assert(olds[p].function.name == n);
    }
    assert forall|n: Seq<char>| old_reg.spec_has(n) implies new_reg.spec_has(n) by {
        let p = choose|p: int| 0 <= p < olds.len() && olds[p].function.name == n;
        assert(news[p].function.name == n);
    }
    lemma_spec_get_at(new_reg, tv.function.name, i);
    assert forall|n: Seq<char>|
        n != tv.function.name && old_reg.spec_has(n) implies new_reg.spec_get(n)
        == old_reg.spec_get(n) by {
        let p = choose|p: int| 0 <= p < olds.len() && olds[p].function.name == n;
        lemma_spec_get_at(old_reg, n, p);
        assert(p != i);
        lemma_spec_get_at(new_reg, n, p);
    }
}

/// The lookup facts of `register_tool` in the case where the tool's name was
/// absent and the entry was appended.
proof fn lemma_lookup_after_push(old_reg: ToolRegistry, new_reg: ToolRegistry, tv: ToolV)
    requires
        old_reg.wf(),
        !old_reg.spec_has(tv.function.name),
        new_reg.spec_tools() == old_reg.spec_tools().push(tv),
    ensures
        new_reg.wf(),
        forall|n: Seq<char>|
            new_reg.spec_has(n) <==> (old_reg.spec_has(n) || n == tv.function.name),
        new_reg.spec_get(tv.function.name) == tv,
        forall|n: Seq<char>|
            n != tv.function.name && old_reg.spec_has(n) ==> new_reg.spec_get(n)
                == old_reg.spec_get(n),
        new_reg.spec_tools().len() == old_reg.spec_tools().len() + 1,
{
    let olds = old_reg.spec_tools();
    let news = new_reg.spec_tools();
    let last = olds.len() as int;
    assert forall|p: int| 0 <= p < last implies news[p] == olds[p] by {}
    assert forall|p: int, q: int| 0 <= p < q < news.len() implies news[p].function.name
        != news[q].function.name by {
        if q == last {
            assert(olds[p].function.name != tv.function.name);
        }
    }
    assert forall|n: Seq<char>| new_reg.spec_has(n) implies (old_reg.spec_has(n) || n
        == tv.function.name) by {
        let p = choose|p: int| 0 <= p < news.len() && news[p].function.name == n;
        if p < last {
            assert(olds[p].function.name == n);
        }
    }
    assert forall|n: Seq<char>| old_reg.spec_has(n) implies new_reg.spec_has(n) by {
        let p = choose|p: int| 0 <= p < olds.len() && olds[p].function.name == n;
        assert(news[p].function.name == n);
    }
    lemma_spec_get_at(new_reg, tv.function.name, last);
    assert forall|n: Seq<char>|
        n != tv.function.name && old_reg.spec_has(n) implies new_reg.spec_get(n)
        == old_reg.spec_get(n) by {
        let p = choose|p: int| 0 <= p < olds.len() && olds[p].function.name == n;
        lemma_spec_get_at(old_reg, n, p);
        lemma_spec_get_at(new_reg, n, p);
    }
}

} // verus!

verus! {

/// A read view composing two registries: the primary one wins on name
/// collision, and execution dispatches by membership, so an execution error
/// of a tool that exists only in the primary registry is returned as-is and
/// never masked by the secondary registry's lookup failure. A view is built
/// per dispatch and never outlives the registries it borrows.
pub struct CombinedToolRegistry<'a> {
    /// The higher-precedence registry.
    pub primary: &'a ToolRegistry,
    /// The lower-precedence registry.
    pub secondary: &'a ToolRegistry,
}

impl<'a> CombinedToolRegistry<'a> {
    /// One of the two registries has a tool of this name.
    pub open spec fn spec_has(self, name: Seq<char>) -> bool {
        self.primary.spec_has(name) || self.secondary.spec_has(name)
    }

    /// The tool the view exposes under this name: the primary registry's
    /// definition when it has one, the secondary registry's otherwise.
    pub open spec fn spec_get(self, name: Seq<char>) -> ToolV
        recommends
            self.spec_has(name),
    {
        if self.primary.spec_has(name) {
            self.primary.spec_get(name)
        } else {
            self.secondary.spec_get(name)
        }
    }

    /// Creates a view over the two registries.
    pub fn new(primary: &'a ToolRegistry, secondary: &'a ToolRegistry) -> (r:
        CombinedToolRegistry<'a>)
        ensures
            r.primary == primary,
            r.secondary == secondary,
    {
        CombinedToolRegistry { primary, secondary }
    }

    /// Reports whether the view exposes a tool of this name.
    pub fn has_tool(&self, name: &str) -> (b: bool)
        ensures
            b == self.spec_has(name@),
    {
        self.primary.has_tool(name) || self.secondary.has_tool(name)
    }

    /// Returns the specifications of all exposed tools: the union of both
    /// registries' tools by name, deduplicated, the primary registry's
    /// definition winning on collision. Order carries no meaning.
    #[verifier::rlimit(50)]
    pub fn get_tools(&self) -> (r: Vec<Tool>)
        requires
            self.primary.wf(),
            self.secondary.wf(),
        ensures
            forall|k: int|
                0 <= k < r.deep_view().len() ==> self.spec_has(
                    #[trigger] r.deep_view()[k].function.name,
                ) && r.deep_view()[k] == self.spec_get(r.deep_view()[k].function.name),
            forall|n: Seq<char>|
                self.spec_has(n) ==> exists|k: int|
                    0 <= k < r.deep_view().len() && #[trigger] r.deep_view()[k].function.name == n,
            forall|k1: int, k2: int|
                0 <= k1 < k2 < r.deep_view().len() ==> r.deep_view()[k1].function.name
                    != r.deep_view()[k2].function.name,
    {
        let sec = self.secondary.get_tools();
        let prim = self.primary.get_tools();
        let ghost secs = self.secondary.spec_tools();
        let ghost prims = self.primary.spec_tools();
        let mut out: Vec<Tool> = Vec::new();
        let ghost mut src: Seq<int> = Seq::empty();
        let mut i: usize = 0;
        while i < sec.len()
            invariant
                i <= secs.len(),
                sec.deep_view() == secs,
                self.primary.wf(),
                self.secondary.wf(),
                src.len() == out@.len(),
                forall|k: int| 0 <= k < src.len() ==> 0 <= #[trigger] src[k] < i,
                forall|k1: int, k2: int| 0 <= k1 < k2 < src.len() ==> src[k1] < src[k2],
                forall|k: int| 0 <= k < src.len() ==> #[trigger] out@[k]@ == secs[src[k]],
                forall|k: int|
                    0 <= k < out@.len() ==> !self.primary.spec_has(
                        #[trigger] out@[k]@.function.name,
                    ),
                forall|j: int|
                    0 <= j < i && !self.primary.spec_has(#[trigger] secs[j].function.name)
                        ==> exists|k: int| 0 <= k < src.len() && #[trigger] src[k] == j,
            decreases secs.len() - i,
        {
            let ghost src0 = src;
            let name_owned = sec[i].function.name.clone();
            proof {
                assert(sec.deep_view()[i as int] == secs[i as int]);
                assert(name_owned@ == secs[i as int].function.name);
            }
            let in_primary = self.primary.has_tool(name_owned.as_str());
            if !in_primary {
                out.push(sec[i].clone());
                proof {
                    src = src.push(i as int);
                    assert(out@[out@.len() - 1]@ == secs[i as int]);
                    assert(src[src.len() - 1] == i as int);
                }
            }
            proof {
                assert forall|j: int|
                    0 <= j < i + 1 && !self.primary.spec_has(
                        #[trigger] secs[j].function.name,
                    ) implies exists|k: int| 0 <= k < src.len() && #[trigger] src[k] == j by {
                    if j < i {
                        let k = choose|k: int| 0 <= k < src0.len() && #[trigger] src0[k] == j;
                        assert(src[k] == j);
                    } else {
                        assert(src[src.len() - 1] == i as int);
                    }
                }
            }
            i = i + 1;
        }
        let ghost phase1 = out@.len() as int;
        let mut p: usize = 0;
        while p < prim.len()
            invariant
                p <= prims.len(),
                prim.deep_view() == prims,
                self.primary.wf(),
                self.secondary.wf(),
                out@.len() == phase1 + p,
                src.len() == phase1,
                forall|k: int| 0 <= k < src.len() ==> 0 <= #[trigger] src[k] < secs.len(),
                forall|k1: int, k2: int| 0 <= k1 < k2 < src.len() ==> src[k1] < src[k2],
                forall|k: int| 0 <= k < src.len() ==> #[trigger] out@[k]@ == secs[src[k]],
                forall|k: int|
                    0 <= k < phase1 ==> !self.primary.spec_has(
                        #[trigger] out@[k]@.function.name,
                    ),
                forall|j: int|
                    0 <= j < secs.len() && !self.primary.spec_has(
                        #[trigger] secs[j].function.name,
                    ) ==> exists|k: int| 0 <= k < src.len() && #[trigger] src[k] == j,
                forall|k: int| phase1 <= k < out@.len() ==> #[trigger] out@[k]@ == prims[
                    k - phase1
                ],
            decreases prims.len() - p,
        {
            out.push(prim[p].clone());
            p = p + 1;
        }
        proof {
            lemma_combined_get_tools(*self, out@.map_values(|t: Tool| t@), src, phase1);
            assert(out.deep_view() =~= out@.map_values(|t: Tool| t@));
        }
        out
    }

    /// Executes a tool by name: the call goes exclusively to the primary
    /// registry whenever it exposes the name, and falls through to the
    /// secondary registry only when the primary registry does not.
    pub fn execute_tool(&self, name: &str, arguments: &str) -> (r: Result<
        serde_json::Value,
        String,
    >)
        ensures
            !json_valid(arguments@) ==> r is Err && r->Err_0@ == parse_error_text(),
            json_valid(arguments@) && !self.spec_has(name@) ==> r is Err && r->Err_0@
                == tool_not_found_text(name@),
    {
        if self.primary.has_tool(name) {
            self.primary.execute_tool(name, arguments)
        } else {
            self.secondary.execute_tool(name, arguments)
        }
    }
}

/// The union, precedence, completeness and distinctness facts of the scoped
/// view's tool listing, given the shape its two collection passes establish.
#[verifier::rlimit(50)]
proof fn lemma_combined_get_tools<'b>(
    cv: CombinedToolRegistry<'b>,
    dv: Seq<ToolV>,
    src: Seq<int>,
    phase1: int,
)
    requires
        cv.primary.wf(),
        cv.secondary.wf(),
        0 <= phase1 <= dv.len(),
        src.len() == phase1,
        dv.len() == phase1 + cv.primary.spec_tools().len(),
        forall|k: int| 0 <= k < src.len() ==> 0 <= #[trigger] src[k] < cv.secondary.spec_tools().len(),
        forall|k1: int, k2: int| 0 <= k1 < k2 < src.len() ==> src[k1] < src[k2],
        forall|k: int| 0 <= k < phase1 ==> #[trigger] dv[k] == cv.secondary.spec_tools()[src[k]],
        forall|k: int|
            0 <= k < phase1 ==> !cv.primary.spec_has(#[trigger] dv[k].function.name),
        forall|j: int|
            0 <= j < cv.secondary.spec_tools().len() && !cv.primary.spec_has(
                #[trigger] cv.secondary.spec_tools()[j].function.name,
            ) ==> exists|k: int| 0 <= k < src.len() && #[trigger] src[k] == j,
        forall|k: int|
            phase1 <= k < dv.len() ==> #[trigger] dv[k] == cv.primary.spec_tools()[k - phase1],
    ensures
        forall|k: int|
            0 <= k < dv.len() ==> cv.spec_has(#[trigger] dv[k].function.name) && dv[k]
                == cv.spec_get(dv[k].function.name),
        forall|n: Seq<char>|
            cv.spec_has(n) ==> exists|k: int|
                0 <= k < dv.len() && #[trigger] dv[k].function.name == n,
        forall|k1: int, k2: int|
            0 <= k1 < k2 < dv.len() ==> dv[k1].function.name != dv[k2].function.name,
{
    let secs = cv.secondary.spec_tools();
    let prims = cv.primary.spec_tools();
    assert forall|k: int| 0 <= k < dv.len() implies cv.spec_has(#[trigger] dv[k].function.name)
        && dv[k] == cv.spec_get(dv[k].function.name) by {
        if k < phase1 {
            lemma_spec_get_at(*cv.secondary, dv[k].function.name, src[k]);
        } else {
            lemma_spec_get_at(*cv.primary, dv[k].function.name, k - phase1);
        }
    }
    assert forall|n: Seq<char>| cv.spec_has(n) implies exists|k: int|
        0 <= k < dv.len() && #[trigger] dv[k].function.name == n by {
        if cv.primary.spec_has(n) {
            let j = choose|j: int| 0 <= j < prims.len() && prims[j].function.name == n;
            assert(dv[phase1 + j].function.name == n);
        } else {
            let j = choose|j: int| 0 <= j < secs.len() && secs[j].function.name == n;
            let k = choose|k: int| 0 <= k < src.len() && src[k] == j;
            assert(dv[k].function.name == n);
        }
    }
    assert forall|k1: int, k2: int| 0 <= k1 < k2 < dv.len() implies dv[k1].function.name
        != dv[k2].function.name by {
        if k2 < phase1 {
            assert(src[k1] < src[k2]);
            assert(dv[k1] == secs[src[k1]]);
            assert(dv[k2] == secs[src[k2]]);
        } else if k1 < phase1 {
            assert(!cv.primary.spec_has(dv[k1].function.name));
            lemma_spec_get_at(*cv.primary, dv[k2].function.name, k2 - phase1);
        } else {
            assert(dv[k1] == prims[k1 - phase1]);
            assert(dv[k2] == prims[k2 - phase1]);
        }
    }
}


} // verus!
