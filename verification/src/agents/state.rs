//! The stateful wrapper: owns an exclusively held memory, and on every
//! invocation bumps its execution counter, appends the raw input to a
//! size-bounded history (evicting exactly the oldest entry when the bound is
//! exceeded), and then either hands control to a configured processor or
//! reports the counter and history size. The whole memory serializes to and
//! from one JSON snapshot as an atomic unit.

use vstd::prelude::*;
use vstd::string::StringExecFns;
use crate::errors::LLMGraphError;
use crate::graph::Agent;
use crate::json::{
    jv_view,
    from_json, json_text, jv_entry_views, jv_views, lemma_jv_entry_views, lemma_jv_views,
    parse_json_text, to_json, JsonV, JsonValue,
};
use crate::text::{dec_str, usize_to_string};
use crate::tools::CombinedToolRegistry;

verus! {

/// An ordered list of history entries, oldest first.
pub enum StrList {
    /// No entries.
    Nil,
    /// The oldest entry and those after it.
    Cons(String, Box<StrList>),
}

/// The entries of the list, oldest first.
pub open spec fn sl_view(l: StrList) -> Seq<Seq<char>>
    decreases l,
{
    match l {
        StrList::Nil => Seq::empty(),
        StrList::Cons(s, rest) => seq![s@] + sl_view(*rest),
    }
}

/// The list with one more entry at its end.
pub open spec fn sl_push(l: StrList, s: String) -> StrList
    decreases l,
{
    match l {
        StrList::Nil => StrList::Cons(s, Box::new(StrList::Nil)),
        StrList::Cons(h, rest) => StrList::Cons(h, Box::new(sl_push(*rest, s))),
    }
}

/// The list without its oldest entry.
pub open spec fn sl_tail(l: StrList) -> StrList {
    match l {
        StrList::Nil => StrList::Nil,
        StrList::Cons(h, rest) => *rest,
    }
}

/// Appending extends the entries by the new one.
pub proof fn lemma_sl_push_view(l: StrList, s: String)
    ensures
        sl_view(sl_push(l, s)) == sl_view(l).push(s@),
    decreases l,
{
    match l {
        StrList::Nil => {
            assert(sl_view(sl_push(l, s)) =~= sl_view(l).push(s@));
        },
        StrList::Cons(h, rest) => {
            lemma_sl_push_view(*rest, s);
            assert(sl_view(sl_push(l, s)) =~= sl_view(l).push(s@));
        },
    }
}

/// Dropping the oldest entry drops the first element of the view.
pub proof fn lemma_sl_tail_view(l: StrList)
    requires
        sl_view(l).len() > 0,
    ensures
        sl_view(sl_tail(l)) == sl_view(l).drop_first(),
{
    match l {
        StrList::Nil => {},
        StrList::Cons(h, rest) => {
            assert(sl_view(sl_tail(l)) =~= sl_view(l).drop_first());
        },
    }
}

impl StrList {
    /// How many entries the list holds, up to `usize::MAX`.
    pub fn len(&self) -> (r: usize)
        ensures
            r as nat == if sl_view(*self).len() <= usize::MAX as nat {
                sl_view(*self).len()
            } else {
                usize::MAX as nat
            },
        decreases *self,
    {
        match self {
            StrList::Nil => 0,
            StrList::Cons(_, rest) => {
                let n = rest.len();
                n.saturating_add(1)
            },
        }
    }
}

pub fn sl_push_x(l: StrList, s: String) -> (r: StrList)
    ensures
        r == sl_push(l, s),
    decreases l,
{
    match l {
        StrList::Nil => StrList::Cons(s, Box::new(StrList::Nil)),
        StrList::Cons(h, rest) => StrList::Cons(h, Box::new(sl_push_x(*rest, s))),
    }
}

pub fn sl_len_capped(l: &StrList, cap: usize) -> (r: usize)
    ensures
        r as nat == if sl_view(*l).len() <= cap as nat {
            sl_view(*l).len()
        } else {
            cap as nat
        },
    decreases *l,
{
    if cap == 0 {
        return 0;
    }
    match l {
        StrList::Nil => 0,
        StrList::Cons(_, rest) => {
            let n = sl_len_capped(rest, cap - 1);
            n + 1
        },
    }
}

fn sl_clone(l: &StrList) -> (r: StrList)
    ensures
        r == *l,
    decreases *l,
{
    match l {
        StrList::Nil => StrList::Nil,
        StrList::Cons(h, rest) => StrList::Cons(h.clone(), Box::new(sl_clone(rest))),
    }
}

/// An ordered key-value store for arbitrary JSON data.
pub enum DataList {
    /// No entries.
    Nil,
    /// A key, its value, and the entries after it.
    Cons(String, JsonValue, Box<DataList>),
}

/// The entries of the store, in insertion order.
pub open spec fn dl_view(l: DataList) -> Seq<(Seq<char>, JsonV)>
    decreases l,
{
    match l {
        DataList::Nil => Seq::empty(),
        DataList::Cons(k, v, rest) => seq![(k@, v@)] + dl_view(*rest),
    }
}

/// The value stored under this key.
pub open spec fn dl_get(l: DataList, key: Seq<char>) -> Option<JsonV>
    decreases l,
{
    match l {
        DataList::Nil => None,
        DataList::Cons(k, v, rest) => if k@ == key {
            Some(v@)
        } else {
            dl_get(*rest, key)
        },
    }
}

/// The store with `value` placed under `key`, replacing an earlier entry of
/// the same key.
pub open spec fn dl_set(l: DataList, key: String, value: JsonValue) -> DataList
    decreases l,
{
    match l {
        DataList::Nil => DataList::Cons(key, value, Box::new(DataList::Nil)),
        DataList::Cons(k, v, rest) => if k@ == key@ {
            DataList::Cons(key, value, rest)
        } else {
            DataList::Cons(k, v, Box::new(dl_set(*rest, key, value)))
        },
    }
}

/// After storing under `key`, a lookup of `key` finds the new value and any
/// other lookup is unchanged.
pub proof fn lemma_dl_set_get(l: DataList, key: String, value: JsonValue, name: Seq<char>)
    ensures
        dl_get(dl_set(l, key, value), name) == if name == key@ {
            Some(value@)
        } else {
            dl_get(l, name)
        },
    decreases l,
{
    match l {
        DataList::Nil => {},
        DataList::Cons(k, v, rest) => {
            if k@ != key@ {
                lemma_dl_set_get(*rest, key, value, name);
            }
        },
    }
}

fn dl_set_x(l: DataList, key: String, value: JsonValue) -> (r: DataList)
    ensures
        r == dl_set(l, key, value),
    decreases l,
{
    match l {
        DataList::Nil => DataList::Cons(key, value, Box::new(DataList::Nil)),
        DataList::Cons(k, v, rest) => {
            if k == key {
                DataList::Cons(key, value, rest)
            } else {
                DataList::Cons(k, v, Box::new(dl_set_x(*rest, key, value)))
            }
        },
    }
}

fn dl_get_x(l: &DataList, key: &String) -> (r: Option<JsonValue>)
    ensures
        match r {
            Some(v) => dl_get(*l, key@) == Some(v@),
            None => dl_get(*l, key@) is None,
        },
    decreases *l,
{
    match l {
        DataList::Nil => None,
        DataList::Cons(k, v, rest) => {
            if *k == *key {
                Some(v.clone())
            } else {
                dl_get_x(rest, key)
            }
        },
    }
}

fn dl_clone(l: &DataList) -> (r: DataList)
    ensures
        dl_view(r) == dl_view(*l),
    decreases *l,
{
    match l {
        DataList::Nil => DataList::Nil,
        DataList::Cons(k, v, rest) => {
            let r = DataList::Cons(k.clone(), v.clone(), Box::new(dl_clone(rest)));
            proof {
                assert(dl_view(r) =~= dl_view(*l));
            }
            r
        },
    }
}

/// Mathematical image of an agent's memory.
#[verifier::ext_equal]
pub ghost struct AgentStateV {
    pub data: Seq<(Seq<char>, JsonV)>,
    pub history: Seq<Seq<char>>,
    pub context: Option<Seq<char>>,
    pub execution_count: nat,
}

/// The memory a stateful agent keeps between invocations: an open key-value
/// store, the bounded history of prior inputs (oldest first), an optional
/// free-form context, and a monotonically increasing execution counter.
pub struct AgentState {
    /// The key-value store.
    pub data: DataList,
    /// Prior inputs, oldest first.
    pub history: StrList,
    /// Free-form context, if set.
    pub context: Option<String>,
    /// How many invocations have run against this memory.
    pub execution_count: usize,
}

impl View for AgentState {
    type V = AgentStateV;

    open spec fn view(&self) -> AgentStateV {
        AgentStateV {
            data: dl_view(self.data),
            history: sl_view(self.history),
            context: match self.context {
                Some(c) => Some(c@),
                None => None,
            },
            execution_count: self.execution_count as nat,
        }
    }
}

impl Default for AgentState {
    /// An empty memory: no data, no history, no context, a zero counter.
    fn default() -> (r: AgentState)
        ensures
            r@ == (AgentStateV {
                data: Seq::empty(),
                history: Seq::empty(),
                context: None,
                execution_count: 0,
            }),
    {
        let r = AgentState {
            data: DataList::Nil,
            history: StrList::Nil,
            context: None,
            execution_count: 0,
        };
        proof {
            assert(r@ =~= AgentStateV {
                data: Seq::empty(),
                history: Seq::empty(),
                context: None,
                execution_count: 0,
            });
        }
        r
    }
}

impl Clone for AgentState {
    /// Clones the memory; the clone has the same image.
    fn clone(&self) -> (r: Self)
        ensures
            r@ == self@,
    {
        AgentState {
            data: dl_clone(&self.data),
            history: sl_clone(&self.history),
            context: match &self.context {
                Some(c) => Some(c.clone()),
                None => None,
            },
            execution_count: self.execution_count,
        }
    }
}

} // verus!

verus! {

/// The snapshot document of a memory: data, history, context and counter as
/// one JSON object.
pub open spec fn snapshot_jv(s: AgentState) -> JsonV {
    JsonV::Obj(
        seq![
            ("data"@, JsonV::Obj(dl_view(s.data))),
            ("history"@, JsonV::Arr(sl_view(s.history).map_values(|t: Seq<char>| JsonV::Str(t)))),
            (
                "context"@,
                match s.context {
                    Some(c) => JsonV::Str(c@),
                    None => JsonV::Null,
                },
            ),
            ("execution_count"@, JsonV::Int(s.execution_count as int)),
        ],
    )
}

/// The value an object holds under this key, searching in order.
pub open spec fn obj_get(entries: Seq<(Seq<char>, JsonV)>, key: Seq<char>) -> Option<JsonV>
    decreases entries.len(),
{
    if entries.len() == 0 {
        None
    } else if entries[0].0 == key {
        Some(entries[0].1)
    } else {
        obj_get(entries.drop_first(), key)
    }
}

/// The texts of a sequence of JSON strings, or nothing if any item is not a
/// string.
pub open spec fn strs_of(items: Seq<JsonV>) -> Option<Seq<Seq<char>>>
    decreases items.len(),
{
    if items.len() == 0 {
        Some(Seq::empty())
    } else {
        match items[0] {
            JsonV::Str(s) => match strs_of(items.drop_first()) {
                Some(rest) => Some(seq![s] + rest),
                None => None,
            },
            _ => None,
        }
    }
}

/// The memory a snapshot document describes, when it has the snapshot shape:
/// an object whose "data" is an object, whose "history" is an array of
/// strings, whose "context" is null or a string, and whose "execution_count"
/// is a machine-representable non-negative integer.
pub open spec fn state_of_json(v: JsonV) -> Option<AgentStateV> {
    match v {
        JsonV::Obj(entries) => {
            let d = obj_get(entries, "data"@);
            let h = obj_get(entries, "history"@);
            let c = obj_get(entries, "context"@);
            let n = obj_get(entries, "execution_count"@);
            match (d, h, c, n) {
                (
                    Some(JsonV::Obj(data)),
                    Some(JsonV::Arr(items)),
                    Some(cv),
                    Some(JsonV::Int(k)),
                ) => {
                    match strs_of(items) {
                        Some(hist) => {
                            let ctx = match cv {
                                JsonV::Null => Some(None),
                                JsonV::Str(t) => Some(Some(t)),
                                _ => None,
                            };
                            match ctx {
                                Some(ctxv) => if 0 <= k <= usize::MAX as int {
                                    Some(
                                        AgentStateV {
                                            data,
                                            history: hist,
                                            context: ctxv,
                                            execution_count: k as nat,
                                        },
                                    )
                                } else {
                                    None
                                },
                                None => None,
                            }
                        },
                        None => None,
                    }
                },
                _ => None,
            }
        },
        _ => None,
    }
}

/// The texts of a sequence of strings wrapped as JSON strings are exactly
/// those strings.
proof fn lemma_strs_of_wrapped(hist: Seq<Seq<char>>)
    ensures
        strs_of(hist.map_values(|t: Seq<char>| JsonV::Str(t))) == Some(hist),
    decreases hist.len(),
{
    let wrapped = hist.map_values(|t: Seq<char>| JsonV::Str(t));
    if hist.len() == 0 {
        assert(strs_of(wrapped) == Some(Seq::<Seq<char>>::empty()));
        assert(Seq::<Seq<char>>::empty() =~= hist);
    } else {
        assert(wrapped.drop_first() =~= hist.drop_first().map_values(
            |t: Seq<char>| JsonV::Str(t),
        ));
        lemma_strs_of_wrapped(hist.drop_first());
        assert(wrapped[0] == JsonV::Str(hist[0]));
        assert(seq![hist[0]] + hist.drop_first() =~= hist);
    }
}

/// Reading a memory's snapshot document back yields exactly that memory: the
/// snapshot loses nothing. (The textual form is covered by the serializer's
/// and parser's own contracts.)
pub proof fn lemma_snapshot_faithful(s: AgentState)
    ensures
        state_of_json(snapshot_jv(s)) == Some(s@),
{
    reveal_strlit("data");
    reveal_strlit("history");
    reveal_strlit("context");
    reveal_strlit("execution_count");
    let entries = match snapshot_jv(s) {
        JsonV::Obj(e) => e,
        _ => Seq::empty(),
    };
    assert(entries.len() == 4);
    assert("data"@.len() == 4);
    assert("history"@.len() == 7);
    assert("context"@.len() == 7);
    assert("execution_count"@.len() == 15);
    assert("data"@ != "history"@);
    assert("data"@ != "context"@);
    assert("data"@ != "execution_count"@);
    assert("history"@ != "context"@) by {
        if "history"@ == "context"@ {
            assert("history"@[0] == "context"@[0]);
            assert("history"@[0] == 'h');
            assert("context"@[0] == 'c');
        }
    }
    assert("history"@ != "execution_count"@);
    assert("context"@ != "execution_count"@);
    let rest1 = entries.drop_first();
    let rest2 = rest1.drop_first();
    let rest3 = rest2.drop_first();
    assert(rest1[0] == entries[1]);
    assert(rest2[0] == entries[2]);
    assert(rest3[0] == entries[3]);
    assert(rest1.len() == 3 && rest2.len() == 2 && rest3.len() == 1);
    assert(obj_get(entries, "data"@) == Some(entries[0].1));
    assert(obj_get(rest1, "history"@) == Some(entries[1].1));
    assert(obj_get(entries, "history"@) == Some(entries[1].1));
    assert(obj_get(rest2, "context"@) == Some(entries[2].1));
    assert(obj_get(rest1, "context"@) == Some(entries[2].1));
    assert(obj_get(entries, "context"@) == Some(entries[2].1));
    assert(obj_get(rest3, "execution_count"@) == Some(entries[3].1));
    assert(obj_get(rest2, "execution_count"@) == Some(entries[3].1));
    assert(obj_get(rest1, "execution_count"@) == Some(entries[3].1));
    assert(obj_get(entries, "execution_count"@) == Some(entries[3].1));
    lemma_strs_of_wrapped(sl_view(s.history));
    assert(state_of_json(snapshot_jv(s))->Some_0 =~= s@);
}

fn dl_to_vec(l: &DataList) -> (r: Vec<(String, JsonValue)>)
    ensures
        jv_entry_views(r@, 0) == dl_view(*l),
    decreases *l,
{
    match l {
        DataList::Nil => {
            let r: Vec<(String, JsonValue)> = Vec::new();
            proof {
                assert(jv_entry_views(r@, 0) =~= dl_view(*l));
            }
            r
        },
        DataList::Cons(k, v, rest) => {
            let mut r: Vec<(String, JsonValue)> = Vec::new();
            let mut tail = dl_to_vec(rest);
            let ghost tail0 = tail@;
            r.push((k.clone(), v.clone()));
            r.append(&mut tail);
            proof {
                lemma_jv_entry_views(r@, 0);
                lemma_jv_entry_views(tail0, 0);
                assert(jv_entry_views(r@, 0) =~= dl_view(*l));
            }
            r
        },
    }
}

fn sl_to_items(l: &StrList) -> (r: Vec<JsonValue>)
    ensures
        jv_views(r@, 0) == sl_view(*l).map_values(|t: Seq<char>| JsonV::Str(t)),
    decreases *l,
{
    match l {
        StrList::Nil => {
            let r: Vec<JsonValue> = Vec::new();
            proof {
                assert(sl_view(*l) =~= Seq::<Seq<char>>::empty());
                assert(jv_views(r@, 0) =~= sl_view(*l).map_values(|t: Seq<char>| JsonV::Str(t)));
            }
            r
        },
        StrList::Cons(s, rest) => {
            let mut r: Vec<JsonValue> = Vec::new();
            let mut tail = sl_to_items(rest);
            let ghost tail0 = tail@;
            r.push(JsonValue::Str(s.clone()));
            r.append(&mut tail);
            proof {
                lemma_jv_views(r@, 0);
                lemma_jv_views(tail0, 0);
                assert(sl_view(*l) =~= seq![s@] + sl_view(**rest));
                assert(jv_views(r@, 0).len() == sl_view(*l).map_values(
                    |t: Seq<char>| JsonV::Str(t),
                ).len());
                assert forall|k: int| 0 <= k < r@.len() implies jv_views(r@, 0)[k] == sl_view(
                    *l,
                ).map_values(|t: Seq<char>| JsonV::Str(t))[k] by {
                    assert(jv_views(r@, 0)[k] == jv_view(r@[k]));
                    if k == 0 {
                        assert(r@[0]@ == JsonV::Str(s@));
                        assert(sl_view(*l)[0] == s@);
                    } else {
                        assert(r@[k] == tail0[k - 1]);
                        assert(jv_views(tail0, 0)[k - 1] == jv_view(tail0[k - 1]));
                        assert(jv_views(tail0, 0)[k - 1] == sl_view(**rest).map_values(
                            |t: Seq<char>| JsonV::Str(t),
                        )[k - 1]);
                        assert(sl_view(*l)[k] == sl_view(**rest)[k - 1]);
                    }
                }
                assert(jv_views(r@, 0) =~= sl_view(*l).map_values(|t: Seq<char>| JsonV::Str(t)));
            }
            r
        },
    }
}

fn dl_from_vec(v: Vec<(String, JsonValue)>) -> (r: DataList)
    ensures
        dl_view(r) == jv_entry_views(v@, 0),
    decreases v@.len(),
{
    let ghost v0 = v@;
    let mut v = v;
    if v.len() == 0 {
        proof {
            assert(dl_view(DataList::Nil) =~= jv_entry_views(v0, 0));
        }
        DataList::Nil
    } else {
        let first = v.remove(0);
        let rest = dl_from_vec(v);
        let r = DataList::Cons(first.0, first.1, Box::new(rest));
        proof {
            assert(v0.remove(0) =~= v0.drop_first());
            lemma_jv_entry_views(v0, 0);
            lemma_jv_entry_views(v0.drop_first(), 0);
            assert(dl_view(r) =~= jv_entry_views(v0, 0));
        }
        r
    }
}

fn sl_from_items(v: Vec<JsonValue>) -> (r: Option<StrList>)
    ensures
        match r {
            Some(l) => strs_of(jv_views(v@, 0)) == Some(sl_view(l)),
            None => strs_of(jv_views(v@, 0)) is None,
        },
    decreases v@.len(),
{
    let ghost v0 = v@;
    let mut v = v;
    if v.len() == 0 {
        proof {
            assert(jv_views(v0, 0) =~= Seq::<JsonV>::empty());
            assert(sl_view(StrList::Nil) =~= Seq::<Seq<char>>::empty());
        }
        Some(StrList::Nil)
    } else {
        let first = v.remove(0);
        match first {
            JsonValue::Str(s) => {
                match sl_from_items(v) {
                    Some(rest) => {
                        let r = StrList::Cons(s, Box::new(rest));
                        proof {
                            assert(v0.remove(0) =~= v0.drop_first());
                            lemma_jv_views(v0, 0);
                            lemma_jv_views(v0.drop_first(), 0);
                            assert(jv_views(v0, 0).drop_first() =~= jv_views(v0.drop_first(), 0));
                            assert(strs_of(jv_views(v0, 0)) == Some(sl_view(r))) by {
                                assert(jv_views(v0, 0)[0] == v0[0]@);
                                assert(sl_view(r) =~= seq![s@] + sl_view(rest));
                            }
                        }
                        Some(r)
                    },
                    None => {
                        proof {
                            assert(v0.remove(0) =~= v0.drop_first());
                            lemma_jv_views(v0, 0);
                            lemma_jv_views(v0.drop_first(), 0);
                            assert(jv_views(v0, 0).drop_first() =~= jv_views(v0.drop_first(), 0));
                            assert(jv_views(v0, 0)[0] == v0[0]@);
                        }
                        None
                    },
                }
            },
            _ => {
                proof {
                    lemma_jv_views(v0, 0);
                    assert(jv_views(v0, 0)[0] == v0[0]@);
                }
                None
            },
        }
    }
}

fn obj_get_x(entries: &Vec<(String, JsonValue)>, key: &String) -> (r: Option<JsonValue>)
    ensures
        match r {
            Some(v) => obj_get(jv_entry_views(entries@, 0), key@) == Some(v@),
            None => obj_get(jv_entry_views(entries@, 0), key@) is None,
        },
{
    proof {
        lemma_jv_entry_views(entries@, 0);
        assert(jv_entry_views(entries@, 0).skip(0) =~= jv_entry_views(entries@, 0));
    }
    let mut i: usize = 0;
    while i < entries.len()
        invariant
            i <= entries@.len(),
            jv_entry_views(entries@, 0).len() == entries@.len(),
            forall|k: int|
                0 <= k < entries@.len() ==> jv_entry_views(entries@, 0)[k] == (
                    entries@[k].0@,
                    jv_entry_views(entries@, 0)[k].1,
                ) && jv_entry_views(entries@, 0)[k].1 == entries@[k].1@,
            obj_get(jv_entry_views(entries@, 0), key@) == obj_get(
                jv_entry_views(entries@, 0).skip(i as int),
                key@,
            ),
        decreases entries@.len() - i,
    {
        proof {
            assert(jv_entry_views(entries@, 0).skip(i as int)[0] == jv_entry_views(entries@, 0)[
                i as int
            ]);
        }
        if entries[i].0 == *key {
            return Some(entries[i].1.clone());
        }
        proof {
            assert(jv_entry_views(entries@, 0).skip(i as int).drop_first() =~= jv_entry_views(
                entries@,
                0,
            ).skip(i + 1));
        }
        i = i + 1;
    }
    proof {
        assert(jv_entry_views(entries@, 0).skip(entries@.len() as int) =~= Seq::<
            (Seq<char>, JsonV),
        >::empty());
    }
    None
}

} // verus!

verus! {

/// A caller-supplied processing step over the agent's memory. It runs while
/// the memory is exclusively held, with the input and the already-updated
/// memory, and yields the output and the next node.
pub trait StateProcessor: Sized {
    /// The output for this input and memory.
    spec fn spec_output(&self, input: Seq<char>, state: AgentStateV) -> Seq<char>;

    /// The next node for this input and memory.
    spec fn spec_next(&self, input: Seq<char>, state: AgentStateV) -> Option<i32>;

    /// The memory after processing this input.
    spec fn spec_state(&self, input: Seq<char>, state: AgentStateV) -> AgentStateV;

    /// Processes the input against the memory.
    fn process(&self, input: &str, state: &mut AgentState) -> (r: (String, Option<i32>))
        ensures
            r.0@ == self.spec_output(input@, old(state)@),
            r.1 == self.spec_next(input@, old(state)@),
            final(state)@ == self.spec_state(input@, old(state)@),
    ;
}

/// The placeholder processor type of a wrapper built without one; it leaves
/// the memory alone and yields empty output.
pub struct NoProcessor;

impl StateProcessor for NoProcessor {
    open spec fn spec_output(&self, input: Seq<char>, state: AgentStateV) -> Seq<char> {
        Seq::empty()
    }

    open spec fn spec_next(&self, input: Seq<char>, state: AgentStateV) -> Option<i32> {
        None
    }

    open spec fn spec_state(&self, input: Seq<char>, state: AgentStateV) -> AgentStateV {
        state
    }

    fn process(&self, input: &str, state: &mut AgentState) -> (r: (String, Option<i32>)) {
        (String::new(), None)
    }
}

/// The memory after the bookkeeping every invocation performs: the counter
/// bumped, the input appended to the history, and the oldest entry evicted
/// when the history exceeds the bound.
pub open spec fn bumped_state(state: AgentStateV, input: Seq<char>, max_history: usize) -> AgentStateV {
    let pushed = state.history.push(input);
    let history = if max_history < usize::MAX && pushed.len() > max_history as nat {
        pushed.drop_first()
    } else {
        pushed
    };
    AgentStateV {
        data: state.data,
        history,
        context: state.context,
        execution_count: if state.execution_count < usize::MAX as nat {
            state.execution_count + 1
        } else {
            state.execution_count
        },
    }
}

/// Mathematical image of a stateful wrapper.
#[verifier::ext_equal]
pub ghost struct StatefulAgentV<P> {
    pub name: String,
    pub state: AgentStateV,
    pub processor: Option<P>,
    pub max_history: usize,
}

/// A length as a machine word: lengths beyond `usize::MAX` saturate, as no
/// machine-held history can reach them.
pub open spec fn sat_len(n: nat) -> nat {
    if n <= usize::MAX as nat {
        n
    } else {
        usize::MAX as nat
    }
}

/// The default report when no processor is configured.
pub open spec fn default_report(input: Seq<char>, count: nat, history_len: nat) -> Seq<char> {
    "Stateful agent processed: "@ + input + " (execution #"@ + dec_str(count) + ", history: "@
        + dec_str(history_len) + " items)"@
}

/// Wraps a memory and a processing step: every invocation updates the memory
/// and then either runs the configured processor or reports the execution
/// count and history size.
pub struct StatefulAgent<P> {
    /// The agent's name.
    pub name: String,
    /// The exclusively owned memory.
    pub state: AgentState,
    /// The processing step, if configured.
    pub processor: Option<P>,
    /// The history bound; the oldest entry is evicted once the history
    /// exceeds it.
    pub max_history: usize,
}

impl StatefulAgent<NoProcessor> {
    /// Creates a stateful agent with an empty memory, no processor, and a
    /// history bound of 100.
    pub fn new(name: &str) -> (r: StatefulAgent<NoProcessor>)
        ensures
            r.name@ == name@,
            r.state@ == (AgentStateV {
                data: Seq::empty(),
                history: Seq::empty(),
                context: None,
                execution_count: 0,
            }),
            r.processor is None,
            r.max_history == 100,
    {
        StatefulAgent {
            name: String::from_str(name),
            state: AgentState::default(),
            processor: None,
            max_history: 100,
        }
    }
}

impl<P: StateProcessor> StatefulAgent<P> {
    /// Sets the processing step.
    pub fn with_processor<P2: StateProcessor>(self, processor: P2) -> (r: StatefulAgent<P2>)
        ensures
            r.name == self.name,
            r.state == self.state,
            r.processor == Some(processor),
            r.max_history == self.max_history,
    {
        StatefulAgent {
            name: self.name,
            state: self.state,
            processor: Some(processor),
            max_history: self.max_history,
        }
    }

    /// Sets the history bound.
    pub fn with_max_history(self, max: usize) -> (r: Self)
        ensures
            r == (StatefulAgent { max_history: max, ..self }),
    {
        StatefulAgent { max_history: max, ..self }
    }

    /// A copy of the current memory.
    pub fn get_state(&self) -> (r: AgentState)
        ensures
            r@ == self.state@,
    {
        self.state.clone()
    }

    /// Replaces the whole memory.
    pub fn set_state(&mut self, state: AgentState)
        ensures
            final(self).state == state,
            final(self).name == old(self).name,
            final(self).processor == old(self).processor,
            final(self).max_history == old(self).max_history,
    {
        self.state = state;
    }

    /// Stores a value in the memory under a key, replacing an earlier value
    /// of the same key.
    pub fn store(&mut self, key: &str, value: JsonValue)
        ensures
            dl_get(final(self).state.data, key@) == Some(value@),
            forall|n: Seq<char>|
                n != key@ ==> dl_get(final(self).state.data, n) == dl_get(old(self).state.data, n),
            final(self).state.history == old(self).state.history,
            final(self).state.context == old(self).state.context,
            final(self).state.execution_count == old(self).state.execution_count,
            final(self).name == old(self).name,
            final(self).max_history == old(self).max_history,
            final(self).processor == old(self).processor,
    {
        let mut taken = DataList::Nil;
        core::mem::swap(&mut taken, &mut self.state.data);
        let owned = String::from_str(key);
        let ghost okey = owned;
        let updated = dl_set_x(taken, owned, value);
        self.state.data = updated;
        proof {
            lemma_dl_set_get(old(self).state.data, okey, value, key@);
            assert forall|n: Seq<char>| n != key@ implies dl_get(final(self).state.data, n)
                == dl_get(old(self).state.data, n) by {
                lemma_dl_set_get(old(self).state.data, okey, value, n);
            }
        }
    }

    /// The value stored under this key, if any.
    pub fn retrieve(&self, key: &str) -> (r: Option<JsonValue>)
        ensures
            match r {
                Some(v) => dl_get(self.state.data, key@) == Some(v@),
                None => dl_get(self.state.data, key@) is None,
            },
    {
        let owned = String::from_str(key);
        dl_get_x(&self.state.data, &owned)
    }

    /// Clears the whole memory.
    pub fn clear_state(&mut self)
        ensures
            final(self).state@ == (AgentStateV {
                data: Seq::empty(),
                history: Seq::empty(),
                context: None,
                execution_count: 0,
            }),
            final(self).name == old(self).name,
            final(self).processor == old(self).processor,
            final(self).max_history == old(self).max_history,
    {
        self.state = AgentState::default();
    }

    /// Serializes the whole memory to one JSON snapshot.
    pub fn save_state(&self) -> (r: String)
        requires
            self.state.execution_count <= 0x7fff_ffff_ffff_ffff,
        ensures
            r@ == json_text(snapshot_jv(self.state)),
    {
        let data = dl_to_vec(&self.state.data);
        let history = sl_to_items(&self.state.history);
        let context = match &self.state.context {
            Some(c) => JsonValue::Str(c.clone()),
            None => JsonValue::Null,
        };
        let mut entries: Vec<(String, JsonValue)> = Vec::new();
        entries.push((String::from_str("data"), JsonValue::Obj(data)));
        entries.push((String::from_str("history"), JsonValue::Arr(history)));
        entries.push((String::from_str("context"), context));
        entries.push((
            String::from_str("execution_count"),
            JsonValue::Int(self.state.execution_count as i64),
        ));
        let doc = JsonValue::Obj(entries);
        proof {
            lemma_jv_entry_views(entries@, 0);
            assert(jv_entry_views(entries@, 0) =~= match snapshot_jv(self.state) {
                JsonV::Obj(e) => e,
                _ => Seq::empty(),
            });
        }
        to_json(&doc)
    }

    /// Restores the whole memory from one JSON snapshot, atomically: on any
    /// parse or shape failure the memory is unchanged and an error is
    /// returned.
    pub fn load_state(&mut self, json: &str) -> (r: Result<(), LLMGraphError>)
        ensures
            r is Ok <==> (parse_json_text(json@) is Some && state_of_json(
                parse_json_text(json@)->Some_0,
            ) is Some),
            r is Ok ==> final(self).state@ == state_of_json(
                parse_json_text(json@)->Some_0,
            )->Some_0,
            r is Err ==> *final(self) == *old(self) && (r->Err_0 matches
                LLMGraphError::SerializationError(m) && m@ == "invalid agent state snapshot"@),
            final(self).name == old(self).name,
            final(self).processor == old(self).processor,
            final(self).max_history == old(self).max_history,
    {
        let parsed = from_json(json);
        match parsed {
            None => Err(
                LLMGraphError::SerializationError(String::from_str("invalid agent state snapshot")),
            ),
            Some(doc) => {
                match doc {
                    JsonValue::Obj(entries) => {
                        let dkey = String::from_str("data");
                        let hkey = String::from_str("history");
                        let ckey = String::from_str("context");
                        let nkey = String::from_str("execution_count");
                        let d = obj_get_x(&entries, &dkey);
                        let h = obj_get_x(&entries, &hkey);
                        let c = obj_get_x(&entries, &ckey);
                        let n = obj_get_x(&entries, &nkey);
                        match (d, h, c, n) {
                            (
                                Some(JsonValue::Obj(data)),
                                Some(JsonValue::Arr(items)),
                                Some(cv),
                                Some(JsonValue::Int(k)),
                            ) => {
                                let hist = sl_from_items(items);
                                let ctx: Option<Option<String>> = match cv {
                                    JsonValue::Null => Some(None),
                                    JsonValue::Str(t) => Some(Some(t)),
                                    _ => None,
                                };
                                match (hist, ctx) {
                                    (Some(history), Some(context)) => {
                                        if k >= 0 && (k as u64) <= (usize::MAX as u64) {
                                            let new_state = AgentState {
                                                data: dl_from_vec(data),
                                                history,
                                                context,
                                                execution_count: k as usize,
                                            };
                                            proof {
                                                assert(new_state@ =~= state_of_json(
                                                    parse_json_text(json@)->Some_0,
                                                )->Some_0);
                                            }
                                            self.state = new_state;
                                            Ok(())
                                        } else {
                                            Err(
                                                LLMGraphError::SerializationError(
                                                    String::from_str("invalid agent state snapshot"),
                                                ),
                                            )
                                        }
                                    },
                                    _ => Err(
                                        LLMGraphError::SerializationError(
                                            String::from_str("invalid agent state snapshot"),
                                        ),
                                    ),
                                }
                            },
                            _ => Err(
                                LLMGraphError::SerializationError(
                                    String::from_str("invalid agent state snapshot"),
                                ),
                            ),
                        }
                    },
                    _ => Err(
                        LLMGraphError::SerializationError(
                            String::from_str("invalid agent state snapshot"),
                        ),
                    ),
                }
            },
        }
    }
}

impl<P: StateProcessor> View for StatefulAgent<P> {
    type V = StatefulAgentV<P>;

    open spec fn view(&self) -> StatefulAgentV<P> {
        StatefulAgentV {
            name: self.name,
            state: self.state@,
            processor: self.processor,
            max_history: self.max_history,
        }
    }
}

impl<P: StateProcessor> Agent for StatefulAgent<P> {
    open spec fn spec_output(v: StatefulAgentV<P>, input: Seq<char>) -> Seq<char> {
        let bumped = bumped_state(v.state, input, v.max_history);
        match v.processor {
            Some(p) => p.spec_output(input, bumped),
            None => default_report(input, bumped.execution_count, sat_len(bumped.history.len())),
        }
    }

    open spec fn spec_next(v: StatefulAgentV<P>, input: Seq<char>) -> Option<i32> {
        let bumped = bumped_state(v.state, input, v.max_history);
        match v.processor {
            Some(p) => p.spec_next(input, bumped),
            None => None,
        }
    }

    open spec fn spec_step(v: StatefulAgentV<P>, input: Seq<char>) -> StatefulAgentV<P> {
        let bumped = bumped_state(v.state, input, v.max_history);
        StatefulAgentV {
            name: v.name,
            state: match v.processor {
                Some(p) => p.spec_state(input, bumped),
                None => bumped,
            },
            processor: v.processor,
            max_history: v.max_history,
        }
    }

    open spec fn spec_name(&self) -> Seq<char> {
        self.name@
    }

    fn run(&mut self, input: &str, tools: &CombinedToolRegistry) -> (r: (String, Option<i32>)) {
        let ghost v0 = self@;
        let owned = String::from_str(input);
        let mut hist = StrList::Nil;
        core::mem::swap(&mut hist, &mut self.state.history);
        let ghost hist0 = hist;
        let mut hist = sl_push_x(hist, owned);
        proof {
            lemma_sl_push_view(hist0, owned);
        }
        let over = if self.max_history < usize::MAX {
            sl_len_capped(&hist, self.max_history + 1) > self.max_history
        } else {
            false
        };
        if over {
            proof {
                lemma_sl_tail_view(hist);
            }
            let tail = match hist {
                StrList::Nil => StrList::Nil,
                StrList::Cons(_, rest) => *rest,
            };
            hist = tail;
        }
        self.state.history = hist;
        proof {
            assert(sl_view(hist) == bumped_state(v0.state, input@, v0.max_history).history);
        }
        if self.state.execution_count < usize::MAX {
            self.state.execution_count = self.state.execution_count + 1;
        }
        proof {
            assert(self.state@ =~= bumped_state(v0.state, input@, v0.max_history));
        }
        match &self.processor {
            Some(p) => p.process(input, &mut self.state),
            None => {
                let mut msg = String::from_str("Stateful agent processed: ");
                msg.append(input);
                msg.append(" (execution #");
                msg.append(usize_to_string(self.state.execution_count).as_str());
                msg.append(", history: ");
                let hl = self.state.history.len();
                msg.append(usize_to_string(hl).as_str());
                msg.append(" items)");
                (msg, None)
            },
        }
    }

    fn get_name(&self) -> (r: &str) {
        self.name.as_str()
    }
}

/// Every invocation's bookkeeping keeps the history within the bound and
/// appends the newest input: when the history was full, exactly the oldest
/// entry leaves; otherwise nothing leaves.
pub proof fn lemma_history_step(state: AgentStateV, input: Seq<char>, max_history: usize)
    requires
        state.history.len() <= max_history as nat,
        max_history < usize::MAX,
    ensures
        bumped_state(state, input, max_history).history.len() <= max_history as nat,
        bumped_state(state, input, max_history).history == if state.history.len() < max_history
            as nat {
            state.history.push(input)
        } else {
            state.history.push(input).drop_first()
        },
{
}

} // verus!
