//! A small JSON document model with a verified serializer and parser, used
//! for the agent-memory snapshot format and for combining parallel results
//! into a JSON array. Numbers are integers: the snapshot format needs no
//! others.

use vstd::prelude::*;
use vstd::string::StringExecFns;
use crate::bridge::push_char;
use crate::text::{chars_of, dec_str_int, i64_to_string};

verus! {

/// Mathematical image of a JSON document.
#[verifier::ext_equal]
pub ghost enum JsonV {
    Null,
    Bool(bool),
    Int(int),
    Str(Seq<char>),
    Arr(Seq<JsonV>),
    Obj(Seq<(Seq<char>, JsonV)>),
}

/// A JSON document: null, a boolean, an integer, a string, an array, or an
/// object with ordered keys.
pub enum JsonValue {
    /// JSON null.
    Null,
    /// A JSON boolean.
    Bool(bool),
    /// A JSON integer.
    Int(i64),
    /// A JSON string.
    Str(String),
    /// A JSON array.
    Arr(Vec<JsonValue>),
    /// A JSON object, as ordered key-value pairs.
    Obj(Vec<(String, JsonValue)>),
}

/// The view of a document, field for field.
pub open spec fn jv_view(v: JsonValue) -> JsonV
    decreases v, 0int,
{
    match v {
        JsonValue::Null => JsonV::Null,
        JsonValue::Bool(b) => JsonV::Bool(b),
        JsonValue::Int(i) => JsonV::Int(i as int),
        JsonValue::Str(s) => JsonV::Str(s@),
        JsonValue::Arr(items) => JsonV::Arr(jv_views(items@, 0)),
        JsonValue::Obj(entries) => JsonV::Obj(jv_entry_views(entries@, 0)),
    }
}

/// The views of the items from position `i` on.
pub open spec fn jv_views(items: Seq<JsonValue>, i: int) -> Seq<JsonV>
    decreases items, items.len() - i, 1int,
{
    if i < 0 || i >= items.len() {
        Seq::empty()
    } else {
        seq![jv_view(items[i])] + jv_views(items, i + 1)
    }
}

/// The views of the entries from position `i` on.
pub open spec fn jv_entry_views(entries: Seq<(String, JsonValue)>, i: int) -> Seq<
    (Seq<char>, JsonV),
>
    decreases entries, entries.len() - i, 1int,
{
    if i < 0 || i >= entries.len() {
        Seq::empty()
    } else {
        seq![(entries[i].0@, jv_view(entries[i].1))] + jv_entry_views(entries, i + 1)
    }
}

impl View for JsonValue {
    type V = JsonV;

    open spec fn view(&self) -> JsonV {
        jv_view(*self)
    }
}

/// The hexadecimal digit character for `d`.
pub open spec fn hex_char(d: nat) -> char {
    if d == 0 {
        '0'
    } else if d == 1 {
        '1'
    } else if d == 2 {
        '2'
    } else if d == 3 {
        '3'
    } else if d == 4 {
        '4'
    } else if d == 5 {
        '5'
    } else if d == 6 {
        '6'
    } else if d == 7 {
        '7'
    } else if d == 8 {
        '8'
    } else if d == 9 {
        '9'
    } else if d == 10 {
        'a'
    } else if d == 11 {
        'b'
    } else if d == 12 {
        'c'
    } else if d == 13 {
        'd'
    } else if d == 14 {
        'e'
    } else {
        'f'
    }
}

/// How one character is written inside a JSON string literal: quotes and
/// backslashes are escaped, the common control characters use their short
/// escapes, other control characters a `\u00XX` escape, and everything else
/// stands as itself.
pub open spec fn escape_char(c: char) -> Seq<char> {
    if c == '"' {
        seq!['\\', '"']
    } else if c == '\\' {
        seq!['\\', '\\']
    } else if c == '\n' {
        seq!['\\', 'n']
    } else if c == '\r' {
        seq!['\\', 'r']
    } else if c == '\t' {
        seq!['\\', 't']
    } else if (c as u32) < 0x20 {
        seq!['\\', 'u', '0', '0', hex_char((c as u32 / 16) as nat), hex_char((c as u32 % 16) as nat)]
    } else {
        seq![c]
    }
}

/// A string's characters, each escaped.
pub open spec fn escape_str(s: Seq<char>) -> Seq<char>
    decreases s.len(),
{
    if s.len() == 0 {
        Seq::empty()
    } else {
        escape_char(s[0]) + escape_str(s.drop_first())
    }
}

/// A JSON string literal: the escaped characters between quotes.
pub open spec fn json_string_text(s: Seq<char>) -> Seq<char> {
    seq!['"'] + escape_str(s) + seq!['"']
}

/// The serialized text of a document.
pub open spec fn json_text(v: JsonV) -> Seq<char>
    decreases v, 0int,
{
    match v {
        JsonV::Null => "null"@,
        JsonV::Bool(b) => if b {
            "true"@
        } else {
            "false"@
        },
        JsonV::Int(i) => dec_str_int(i),
        JsonV::Str(s) => json_string_text(s),
        JsonV::Arr(items) => seq!['['] + json_items_text(items, 0) + seq![']'],
        JsonV::Obj(entries) => seq!['{'] + json_entries_text(entries, 0) + seq!['}'],
    }
}

/// The serialized items from position `i` on, comma-separated.
pub open spec fn json_items_text(items: Seq<JsonV>, i: int) -> Seq<char>
    decreases items, items.len() - i, 1int,
{
    if i < 0 || i >= items.len() {
        Seq::empty()
    } else if i == items.len() - 1 {
        json_text(items[i])
    } else {
        json_text(items[i]) + seq![','] + json_items_text(items, i + 1)
    }
}

/// The serialized `"key":value` entries from position `i` on,
/// comma-separated.
pub open spec fn json_entries_text(entries: Seq<(Seq<char>, JsonV)>, i: int) -> Seq<char>
    decreases entries, entries.len() - i, 1int,
{
    if i < 0 || i >= entries.len() {
        Seq::empty()
    } else if i == entries.len() - 1 {
        json_string_text(entries[i].0) + seq![':'] + json_text(entries[i].1)
    } else {
        json_string_text(entries[i].0) + seq![':'] + json_text(entries[i].1) + seq![',']
            + json_entries_text(entries, i + 1)
    }
}

fn hex_str(d: u32) -> (r: &'static str)
    requires
        d < 16,
    ensures
        r@ == seq![hex_char(d as nat)],
{
    let r: &'static str = if d == 0 {
        "0"
    } else if d == 1 {
        "1"
    } else if d == 2 {
        "2"
    } else if d == 3 {
        "3"
    } else if d == 4 {
        "4"
    } else if d == 5 {
        "5"
    } else if d == 6 {
        "6"
    } else if d == 7 {
        "7"
    } else if d == 8 {
        "8"
    } else if d == 9 {
        "9"
    } else if d == 10 {
        "a"
    } else if d == 11 {
        "b"
    } else if d == 12 {
        "c"
    } else if d == 13 {
        "d"
    } else if d == 14 {
        "e"
    } else {
        "f"
    };
    proof {
        reveal_strlit("0");
        reveal_strlit("1");
        reveal_strlit("2");
        reveal_strlit("3");
        reveal_strlit("4");
        reveal_strlit("5");
        reveal_strlit("6");
        reveal_strlit("7");
        reveal_strlit("8");
        reveal_strlit("9");
        reveal_strlit("a");
        reveal_strlit("b");
        reveal_strlit("c");
        reveal_strlit("d");
        reveal_strlit("e");
        reveal_strlit("f");
        assert(r@ =~= seq![hex_char(d as nat)]);
    }
    r
}

/// Appends the escaped form of `s` to `out`.
fn append_escaped(out: &mut String, s: &str)
    ensures
        final(out)@ == old(out)@ + escape_str(s@),
{
    let cs = chars_of(s);
    let mut i: usize = 0;
    while i < cs.len()
        invariant
            i <= cs@.len(),
            cs@ == s@,
            out@ == old(out)@ + escape_str(s@.take(i as int)),
        decreases cs@.len() - i,
    {
        let c = cs[i];
        proof {
            reveal_strlit("\\\"");
            reveal_strlit("\\\\");
            reveal_strlit("\\n");
            reveal_strlit("\\r");
            reveal_strlit("\\t");
            reveal_strlit("\\u00");
        }
        if c == '"' {
            out.append("\\\"");
            proof {
                assert("\\\""@ =~= escape_char('"'));
            }
        } else if c == '\\' {
            out.append("\\\\");
            proof {
                assert("\\\\"@ =~= escape_char('\\'));
            }
        } else if c == '\n' {
            out.append("\\n");
            proof {
                assert("\\n"@ =~= escape_char('\n'));
            }
        } else if c == '\r' {
            out.append("\\r");
            proof {
                assert("\\r"@ =~= escape_char('\r'));
            }
        } else if c == '\t' {
            out.append("\\t");
            proof {
                assert("\\t"@ =~= escape_char('\t'));
            }
        } else if (c as u32) < 0x20 {
            let code = c as u32;
            out.append("\\u00");
            out.append(hex_str(code / 16));
            out.append(hex_str(code % 16));
            proof {
                assert("\\u00"@ + seq![hex_char((code / 16) as nat)] + seq![
                    hex_char((code % 16) as nat),
                ] =~= escape_char(c));
            }
        } else {
            push_char(out, c);
            proof {
                assert(seq![c] =~= escape_char(c));
            }
        }
        proof {
            lemma_escape_take_step(s@, i as int);
        }
        i = i + 1;
    }
    proof {
        assert(s@.take(s@.len() as int) =~= s@);
    }
}

/// Escaping one more character extends the escaped prefix by that
/// character's escape.
proof fn lemma_escape_take_step(s: Seq<char>, i: int)
    requires
        0 <= i < s.len(),
    ensures
        escape_str(s.take(i + 1)) == escape_str(s.take(i)) + escape_char(s[i]),
    decreases i,
{
    if i == 0 {
        assert(s.take(1).drop_first() =~= Seq::<char>::empty());
        assert(s.take(0) =~= Seq::<char>::empty());
        assert(s.take(1).len() == 1);
        assert(s.take(1)[0] == s[0]);
        assert(escape_str(Seq::<char>::empty()) == Seq::<char>::empty());
        assert(escape_str(s.take(1)) == escape_char(s[0]) + Seq::<char>::empty());
        assert(escape_char(s[0]) + Seq::<char>::empty() =~= escape_char(s[0]));
        assert(escape_str(s.take(0)) + escape_char(s[0]) =~= escape_char(s[0]));
    } else {
        lemma_escape_take_step(s.drop_first(), i - 1);
        assert(s.take(i + 1).drop_first() =~= s.drop_first().take(i));
        assert(s.take(i).drop_first() =~= s.drop_first().take(i - 1));
        assert(escape_str(s.take(i + 1)) == escape_char(s[0]) + escape_str(s.drop_first().take(i)));
        assert(escape_str(s.take(i)) == escape_char(s[0]) + escape_str(s.drop_first().take(i - 1)));
        assert(escape_char(s[0]) + (escape_str(s.drop_first().take(i - 1)) + escape_char(s[i]))
            =~= (escape_char(s[0]) + escape_str(s.drop_first().take(i - 1))) + escape_char(s[i]));
    }
}

/// Appends the JSON string literal for `s` to `out`.
fn append_json_string(out: &mut String, s: &str)
    ensures
        final(out)@ == old(out)@ + json_string_text(s@),
{
    proof {
        reveal_strlit("\"");
        assert("\""@ =~= seq!['"']);
    }
    out.append("\"");
    append_escaped(out, s);
    out.append("\"");
    proof {
        assert(old(out)@ + json_string_text(s@) =~= ((old(out)@ + seq!['"']) + escape_str(s@))
            + seq!['"']);
    }
}

/// `jv_views` holds, at position `k`, the view of the item at `i + k`.
pub proof fn lemma_jv_views(items: Seq<JsonValue>, i: int)
    requires
        0 <= i <= items.len(),
    ensures
        jv_views(items, i).len() == items.len() - i,
        forall|k: int|
            0 <= k < items.len() - i ==> jv_views(items, i)[k] == jv_view(items[i + k]),
    decreases items.len() - i,
{
    if i < items.len() {
        lemma_jv_views(items, i + 1);
    }
}

/// `jv_entry_views` holds, at position `k`, the key and view of the entry at
/// `i + k`.
pub proof fn lemma_jv_entry_views(entries: Seq<(String, JsonValue)>, i: int)
    requires
        0 <= i <= entries.len(),
    ensures
        jv_entry_views(entries, i).len() == entries.len() - i,
        forall|k: int|
            0 <= k < entries.len() - i ==> jv_entry_views(entries, i)[k] == (
                entries[i + k].0@,
                jv_view(entries[i + k].1),
            ),
    decreases entries.len() - i,
{
    if i < entries.len() {
        lemma_jv_entry_views(entries, i + 1);
    }
}

/// Serializes the document: exactly the text `json_text` describes.
pub fn to_json(v: &JsonValue) -> (r: String)
    ensures
        r@ == json_text(v@),
    decreases v, 0int,
{
    match v {
        JsonValue::Null => String::from_str("null"),
        JsonValue::Bool(b) => {
            if *b {
                String::from_str("true")
            } else {
                String::from_str("false")
            }
        },
        JsonValue::Int(i) => i64_to_string(*i),
        JsonValue::Str(s) => {
            let mut out = String::new();
            append_json_string(&mut out, s.as_str());
            proof {
                assert(Seq::<char>::empty() + json_string_text(s@) =~= json_string_text(s@));
            }
            out
        },
        JsonValue::Arr(items) => {
            let mut out = String::from_str("[");
            proof {
                reveal_strlit("[");
                reveal_strlit("]");
                assert("["@ =~= seq!['[']);
                assert("]"@ =~= seq![']']);
            }
            if items.len() > 0 {
                items_to_json(items, 0, &mut out);
            }
            out.append("]");
            proof {
                if items@.len() == 0 {
                    lemma_jv_views(items@, 0);
                    assert(jv_views(items@, 0).len() == 0);
                    assert(json_items_text(jv_views(items@, 0), 0) =~= Seq::<char>::empty());
                }
                assert(out@ =~= seq!['['] + json_items_text(jv_views(items@, 0), 0) + seq![']']);
            }
            out
        },
        JsonValue::Obj(entries) => {
            let mut out = String::from_str("{");
            proof {
                reveal_strlit("{");
                reveal_strlit("}");
                assert("{"@ =~= seq!['{']);
                assert("}"@ =~= seq!['}']);
            }
            if entries.len() > 0 {
                entries_to_json(entries, 0, &mut out);
            }
            out.append("}");
            proof {
                if entries@.len() == 0 {
                    lemma_jv_entry_views(entries@, 0);
                    assert(json_entries_text(jv_entry_views(entries@, 0), 0) =~= Seq::<
                        char,
                    >::empty());
                }
                assert(out@ =~= seq!['{'] + json_entries_text(jv_entry_views(entries@, 0), 0)
                    + seq!['}']);
            }
            out
        },
    }
}

fn items_to_json(items: &Vec<JsonValue>, i: usize, out: &mut String)
    requires
        i < items@.len(),
    ensures
        final(out)@ == old(out)@ + json_items_text(jv_views(items@, 0), i as int),
    decreases *items, items@.len() - i, 0int,
{
    proof {
        lemma_jv_views(items@, 0);
        reveal_strlit(",");
        assert(","@ =~= seq![',']);
    }
    let piece = to_json(&items[i]);
    out.append(piece.as_str());
    let n = items.len();
    if i < n - 1 {
        out.append(",");
        items_to_json(items, i + 1, out);
        proof {
            let views = jv_views(items@, 0);
            assert(json_items_text(views, i as int) == json_text(views[i as int]) + seq![',']
                + json_items_text(views, i + 1));
            assert(final(out)@ =~= old(out)@ + json_items_text(views, i as int));
        }
    } else {
        proof {
            let views = jv_views(items@, 0);
            assert(json_items_text(views, i as int) == json_text(views[i as int]));
        }
    }
}

fn entries_to_json(entries: &Vec<(String, JsonValue)>, i: usize, out: &mut String)
    requires
        i < entries@.len(),
    ensures
        final(out)@ == old(out)@ + json_entries_text(jv_entry_views(entries@, 0), i as int),
    decreases *entries, entries@.len() - i, 0int,
{
    proof {
        lemma_jv_entry_views(entries@, 0);
        reveal_strlit(",");
        reveal_strlit(":");
        assert(","@ =~= seq![',']);
        assert(":"@ =~= seq![':']);
    }
    let entry = &entries[i];
    append_json_string(out, entry.0.as_str());
    out.append(":");
    let piece = to_json(&entry.1);
    out.append(piece.as_str());
    let n = entries.len();
    if i < n - 1 {
        out.append(",");
        entries_to_json(entries, i + 1, out);
        proof {
            let views = jv_entry_views(entries@, 0);
            assert(json_entries_text(views, i as int) == json_string_text(views[i as int].0)
                + seq![':'] + json_text(views[i as int].1) + seq![','] + json_entries_text(
                views,
                i + 1,
            ));
            assert(final(out)@ =~= old(out)@ + json_entries_text(views, i as int));
        }
    } else {
        proof {
            let views = jv_entry_views(entries@, 0);
            assert(json_entries_text(views, i as int) == json_string_text(views[i as int].0)
                + seq![':'] + json_text(views[i as int].1));
            assert(final(out)@ =~= old(out)@ + json_entries_text(views, i as int));
        }
    }
}

/// The JSON array holding the given strings, in order.
pub open spec fn json_string_array_text(items: Seq<Seq<char>>) -> Seq<char> {
    json_text(JsonV::Arr(items.map_values(|s: Seq<char>| JsonV::Str(s))))
}

/// Serializes the strings as a JSON array, in order.
pub fn json_string_array(items: &Vec<String>) -> (r: String)
    ensures
        r@ == json_string_array_text(items.deep_view()),
{
    let mut docs: Vec<JsonValue> = Vec::new();
    let mut i: usize = 0;
    while i < items.len()
        invariant
            i <= items@.len(),
            docs@.len() == i,
            forall|k: int| 0 <= k < i ==> docs@[k] == JsonValue::Str(items@[k]),
        decreases items@.len() - i,
    {
        docs.push(JsonValue::Str(items[i].clone()));
        i = i + 1;
    }
    let r = to_json(&JsonValue::Arr(docs));
    proof {
        lemma_jv_views(docs@, 0);
        assert(jv_views(docs@, 0) =~= items.deep_view().map_values(|s: Seq<char>| JsonV::Str(s)));
    }
    r
}

/// JSON whitespace.
pub open spec fn is_ws(c: char) -> bool {
    c == ' ' || c == '\t' || c == '\n' || c == '\r'
}

/// A decimal digit.
pub open spec fn is_digit(c: char) -> bool {
    48 <= c as u32 <= 57
}

/// The value of a hexadecimal digit, or -1.
pub open spec fn hex_val(c: char) -> int {
    let u = c as u32;
    if 48 <= u <= 57 {
        u - 48
    } else if 97 <= u <= 102 {
        u - 87
    } else if 65 <= u <= 70 {
        u - 55
    } else {
        -1
    }
}

/// The first position at or after `i` that holds no whitespace.
pub open spec fn skip_ws(s: Seq<char>, i: int) -> int
    decreases s.len() - i,
{
    if i < 0 || i >= s.len() {
        i
    } else if is_ws(s[i]) {
        skip_ws(s, i + 1)
    } else {
        i
    }
}

/// `lit` stands in `s` at position `i`.
pub open spec fn match_lit(s: Seq<char>, i: int, lit: Seq<char>) -> bool {
    0 <= i && i + lit.len() <= s.len() && s.subrange(i, i + lit.len()) == lit
}

/// Parses a JSON string body starting at `i` (after the opening quote):
/// yields the decoded characters and the position after the closing quote.
/// The short escapes and `\u00XX` escapes are accepted; raw control
/// characters, other `\u` escapes and unterminated strings are not.
pub open spec fn parse_string_body(s: Seq<char>, i: int) -> Option<(Seq<char>, int)>
    decreases s.len() - i,
{
    if i < 0 || i >= s.len() {
        None
    } else if s[i] == '"' {
        Some((Seq::empty(), i + 1))
    } else if s[i] == '\\' {
        if i + 2 > s.len() {
            None
        } else {
            let e = s[i + 1];
            if e == '"' || e == '\\' || e == '/' {
                match parse_string_body(s, i + 2) {
                    Some((rest, j)) => Some((seq![e] + rest, j)),
                    None => None,
                }
            } else if e == 'n' || e == 'r' || e == 't' || e == 'b' || e == 'f' {
                let c = if e == 'n' {
                    '\n'
                } else if e == 'r' {
                    '\r'
                } else if e == 't' {
                    '\t'
                } else if e == 'b' {
                    8u8 as char
                } else {
                    12u8 as char
                };
                match parse_string_body(s, i + 2) {
                    Some((rest, j)) => Some((seq![c] + rest, j)),
                    None => None,
                }
            } else if e == 'u' {
                if i + 6 > s.len() {
                    None
                } else if s[i + 2] == '0' && s[i + 3] == '0' && hex_val(s[i + 4]) >= 0 && hex_val(
                    s[i + 5],
                ) >= 0 {
                    let code = hex_val(s[i + 4]) * 16 + hex_val(s[i + 5]);
                    match parse_string_body(s, i + 6) {
                        Some((rest, j)) => Some((seq![(code as u8) as char] + rest, j)),
                        None => None,
                    }
                } else {
                    None
                }
            } else {
                None
            }
        }
    } else if (s[i] as u32) < 0x20 {
        None
    } else {
        match parse_string_body(s, i + 1) {
            Some((rest, j)) => Some((seq![s[i]] + rest, j)),
            None => None,
        }
    }
}

/// The first position at or after `i` that holds no decimal digit.
pub open spec fn digits_end(s: Seq<char>, i: int) -> int
    decreases s.len() - i,
{
    if i < 0 || i >= s.len() {
        i
    } else if is_digit(s[i]) {
        digits_end(s, i + 1)
    } else {
        i
    }
}

/// The value of the digits of `s` between `i` and `j`.
pub open spec fn digits_val(s: Seq<char>, i: int, j: int) -> int
    decreases j - i,
{
    if i >= j {
        0
    } else {
        digits_val(s, i, j - 1) * 10 + (s[j - 1] as u32 - 48)
    }
}

/// Parses a JSON integer at `i`: an optional minus sign and then digits,
/// without leading zeros, of a value an `i64` can hold; yields the value and
/// the position after the digits.
pub open spec fn parse_int_at(s: Seq<char>, i: int) -> Option<(int, int)> {
    if i < 0 || i >= s.len() {
        None
    } else {
        let neg = s[i] == '-';
        let d0 = if neg {
            i + 1
        } else {
            i
        };
        let e = digits_end(s, d0);
        if e == d0 {
            None
        } else if e - d0 > 1 && s[d0] == '0' {
            None
        } else if e - d0 > 19 {
            None
        } else {
            let v = digits_val(s, d0, e);
            let sv = if neg {
                -v
            } else {
                v
            };
            if -0x8000_0000_0000_0000 <= sv <= 0x7fff_ffff_ffff_ffff {
                Some((sv, e))
            } else {
                None
            }
        }
    }
}

/// Parses one JSON document at `i`, after skipping whitespace; yields its
/// image and the position after it. The fuel bounds the recursion; one unit
/// is spent per nested value and per list element, so the length of the text
/// always suffices.
pub open spec fn parse_value_at(s: Seq<char>, i: int, fuel: nat) -> Option<(JsonV, int)>
    decreases fuel, 0int,
{
    if fuel == 0 {
        None
    } else {
        let i = skip_ws(s, i);
        if i >= s.len() {
            None
        } else if s[i] == 'n' {
            if match_lit(s, i, "null"@) {
                Some((JsonV::Null, i + 4))
            } else {
                None
            }
        } else if s[i] == 't' {
            if match_lit(s, i, "true"@) {
                Some((JsonV::Bool(true), i + 4))
            } else {
                None
            }
        } else if s[i] == 'f' {
            if match_lit(s, i, "false"@) {
                Some((JsonV::Bool(false), i + 5))
            } else {
                None
            }
        } else if s[i] == '"' {
            match parse_string_body(s, i + 1) {
                Some((text, j)) => Some((JsonV::Str(text), j)),
                None => None,
            }
        } else if s[i] == '-' || is_digit(s[i]) {
            match parse_int_at(s, i) {
                Some((v, j)) => Some((JsonV::Int(v), j)),
                None => None,
            }
        } else if s[i] == '[' {
            let j = skip_ws(s, i + 1);
            if j < s.len() && s[j] == ']' {
                Some((JsonV::Arr(Seq::empty()), j + 1))
            } else {
                match parse_items_at(s, i + 1, (fuel - 1) as nat) {
                    Some((items, j)) => Some((JsonV::Arr(items), j)),
                    None => None,
                }
            }
        } else if s[i] == '{' {
            let j = skip_ws(s, i + 1);
            if j < s.len() && s[j] == '}' {
                Some((JsonV::Obj(Seq::empty()), j + 1))
            } else {
                match parse_entries_at(s, i + 1, (fuel - 1) as nat) {
                    Some((entries, j)) => Some((JsonV::Obj(entries), j)),
                    None => None,
                }
            }
        } else {
            None
        }
    }
}

/// Parses the remaining comma-separated items of an array, up to and past
/// the closing bracket.
pub open spec fn parse_items_at(s: Seq<char>, i: int, fuel: nat) -> Option<(Seq<JsonV>, int)>
    decreases fuel, 1int,
{
    match parse_value_at(s, i, fuel) {
        None => None,
        Some((v, j)) => {
            let k = skip_ws(s, j);
            if k < s.len() && s[k] == ',' {
                if fuel == 0 {
                    None
                } else {
                    match parse_items_at(s, k + 1, (fuel - 1) as nat) {
                        Some((rest, m)) => Some((seq![v] + rest, m)),
                        None => None,
                    }
                }
            } else if k < s.len() && s[k] == ']' {
                Some((seq![v], k + 1))
            } else {
                None
            }
        },
    }
}

/// Parses the remaining comma-separated `"key": value` entries of an object,
/// up to and past the closing brace.
pub open spec fn parse_entries_at(s: Seq<char>, i: int, fuel: nat) -> Option<
    (Seq<(Seq<char>, JsonV)>, int),
>
    decreases fuel, 1int,
{
    let i = skip_ws(s, i);
    if i >= s.len() || s[i] != '"' {
        None
    } else {
        match parse_string_body(s, i + 1) {
            None => None,
            Some((key, j)) => {
                let j = skip_ws(s, j);
                if j >= s.len() || s[j] != ':' {
                    None
                } else {
                    match parse_value_at(s, j + 1, fuel) {
                        None => None,
                        Some((v, k)) => {
                            let m = skip_ws(s, k);
                            if m < s.len() && s[m] == ',' {
                                if fuel == 0 {
                                    None
                                } else {
                                    match parse_entries_at(s, m + 1, (fuel - 1) as nat) {
                                        Some((rest, e)) => Some((seq![(key, v)] + rest, e)),
                                        None => None,
                                    }
                                }
                            } else if m < s.len() && s[m] == '}' {
                                Some((seq![(key, v)], m + 1))
                            } else {
                                None
                            }
                        },
                    }
                }
            },
        }
    }
}

/// The document a JSON text holds: one value, surrounded by nothing but
/// whitespace.
pub open spec fn parse_json_text(s: Seq<char>) -> Option<JsonV> {
    match parse_value_at(s, 0, s.len()) {
        None => None,
        Some((v, j)) => if skip_ws(s, j) == s.len() {
            Some(v)
        } else {
            None
        },
    }
}

fn skip_ws_x(cs: &Vec<char>, i: usize) -> (r: usize)
    requires
        i <= cs@.len(),
    ensures
        r as int == skip_ws(cs@, i as int),
        i <= r <= cs@.len(),
    decreases cs@.len() - i,
{
    if i < cs.len() {
        let c = cs[i];
        if c == ' ' || c == '\t' || c == '\n' || c == '\r' {
            return skip_ws_x(cs, i + 1);
        }
    }
    i
}

fn digits_end_x(cs: &Vec<char>, i: usize) -> (r: usize)
    requires
        i <= cs@.len(),
    ensures
        r as int == digits_end(cs@, i as int),
        i <= r <= cs@.len(),
    decreases cs@.len() - i,
{
    if i < cs.len() {
        let u = cs[i] as u32;
        if 48 <= u && u <= 57 {
            return digits_end_x(cs, i + 1);
        }
    }
    i
}

fn hex_val_x(c: char) -> (r: i32)
    ensures
        r as int == hex_val(c),
{
    let u = c as u32;
    if 48 <= u && u <= 57 {
        (u - 48) as i32
    } else if 97 <= u && u <= 102 {
        (u - 87) as i32
    } else if 65 <= u && u <= 70 {
        (u - 55) as i32
    } else {
        -1
    }
}

fn parse_string_x(cs: &Vec<char>, i: usize) -> (r: Option<(String, usize)>)
    requires
        i <= cs@.len(),
    ensures
        ({
            let sp = parse_string_body(cs@, i as int);
            match r {
                Some((t, j)) => sp is Some && sp->Some_0.0 == t@ && sp->Some_0.1 == j as int && j
                    <= cs@.len(),
                None => sp is None,
            }
        }),
    decreases cs@.len() - i,
{
    let len = cs.len();
    if i >= len {
        return None;
    }
    let c = cs[i];
    if c == '"' {
        return Some((String::new(), i + 1));
    }
    if c == '\\' {
        if len - i < 2 {
            return None;
        }
        let e = cs[i + 1];
        if e == '"' || e == '\\' || e == '/' {
            match parse_string_x(cs, i + 2) {
                Some((rest, j)) => {
                    let mut out = String::new();
                    crate::bridge::push_char(&mut out, e);
                    out.append(rest.as_str());
                    proof {
                        assert(out@ =~= seq![e] + rest@);
                    }
                    Some((out, j))
                },
                None => None,
            }
        } else if e == 'n' || e == 'r' || e == 't' || e == 'b' || e == 'f' {
            let c2: char = if e == 'n' {
                '\n'
            } else if e == 'r' {
                '\r'
            } else if e == 't' {
                '\t'
            } else if e == 'b' {
                8u8 as char
            } else {
                12u8 as char
            };
            match parse_string_x(cs, i + 2) {
                Some((rest, j)) => {
                    let mut out = String::new();
                    crate::bridge::push_char(&mut out, c2);
                    out.append(rest.as_str());
                    proof {
                        assert(out@ =~= seq![c2] + rest@);
                    }
                    Some((out, j))
                },
                None => None,
            }
        } else if e == 'u' {
            if len - i < 6 {
                return None;
            }
            if cs[i + 2] == '0' && cs[i + 3] == '0' {
                let h1 = hex_val_x(cs[i + 4]);
                let h2 = hex_val_x(cs[i + 5]);
                if h1 >= 0 && h2 >= 0 {
                    let code: u32 = (h1 as u32) * 16 + (h2 as u32);
                    let c2: char = (code as u8) as char;
                    match parse_string_x(cs, i + 6) {
                        Some((rest, j)) => {
                            let mut out = String::new();
                            crate::bridge::push_char(&mut out, c2);
                            out.append(rest.as_str());
                            proof {
                                assert(out@ =~= seq![c2] + rest@);
                            }
                            Some((out, j))
                        },
                        None => None,
                    }
                } else {
                    None
                }
            } else {
                None
            }
        } else {
            None
        }
    } else if (c as u32) < 0x20 {
        None
    } else {
        match parse_string_x(cs, i + 1) {
            Some((rest, j)) => {
                let mut out = String::new();
                crate::bridge::push_char(&mut out, c);
                out.append(rest.as_str());
                proof {
                    assert(out@ =~= seq![c] + rest@);
                }
                Some((out, j))
            },
            None => None,
        }
    }
}

/// Ten to the nineteenth, spelled out.
proof fn lemma_pow10_19()
    ensures
        pow10(19) == 10000000000000000000,
{
    assert(pow10(0) == 1);
    assert(pow10(1) == 10);
    assert(pow10(2) == 100);
    assert(pow10(3) == 1000);
    assert(pow10(4) == 10000);
    assert(pow10(5) == 100000);
    assert(pow10(6) == 1000000);
    assert(pow10(7) == 10000000);
    assert(pow10(8) == 100000000);
    assert(pow10(9) == 1000000000);
    assert(pow10(10) == 10000000000);
    assert(pow10(11) == 100000000000);
    assert(pow10(12) == 1000000000000);
    assert(pow10(13) == 10000000000000);
    assert(pow10(14) == 100000000000000);
    assert(pow10(15) == 1000000000000000);
    assert(pow10(16) == 10000000000000000);
    assert(pow10(17) == 100000000000000000);
    assert(pow10(18) == 1000000000000000000);
    assert(pow10(19) == 10000000000000000000);
}

/// Ten to the power `e`.
pub open spec fn pow10(e: nat) -> nat
    decreases e,
{
    if e == 0 {
        1
    } else {
        10 * pow10((e - 1) as nat)
    }
}

/// Powers of ten grow with the exponent.
proof fn lemma_pow10_mono(a: nat, b: nat)
    requires
        a <= b,
    ensures
        pow10(a) <= pow10(b),
    decreases b,
{
    if a < b {
        lemma_pow10_mono(a, (b - 1) as nat);
        assert(10 * pow10((b - 1) as nat) >= pow10((b - 1) as nat)) by (nonlinear_arith)
            requires
                pow10((b - 1) as nat) >= 0,
        ;
    }
}

fn parse_int_x(cs: &Vec<char>, i: usize) -> (r: Option<(i64, usize)>)
    requires
        i <= cs@.len(),
    ensures
        ({
            let sp = parse_int_at(cs@, i as int);
            match r {
                Some((v, j)) => sp is Some && sp->Some_0.0 == v as int && sp->Some_0.1 == j as int
                    && j <= cs@.len(),
                None => sp is None,
            }
        }),
{
    let len = cs.len();
    if i >= len {
        return None;
    }
    let neg = cs[i] == '-';
    let d0 = if neg {
        i + 1
    } else {
        i
    };
    let e = digits_end_x(cs, d0);
    if e == d0 {
        return None;
    }
    if e - d0 > 1 && cs[d0] == '0' {
        return None;
    }
    if e - d0 > 19 {
        return None;
    }
    let mut acc: u64 = 0;
    let mut k = d0;
    proof {
        lemma_pow10_19();
        lemma_digits_end_all_digits_range(cs@, d0 as int, e as int);
    }
    while k < e
        invariant
            d0 <= k <= e <= cs@.len(),
            e - d0 <= 19,
            e as int == digits_end(cs@, d0 as int),
            digits_end(cs@, d0 as int) == e as int,
            forall|m: int| d0 <= m < e ==> is_digit(cs@[m]),
            acc as int == digits_val(cs@, d0 as int, k as int),
            acc < pow10((k - d0) as nat),
            pow10(19) == 10000000000000000000,
        decreases e - k,
    {
        let u = cs[k] as u32;
        proof {
            lemma_pow10_mono(((k - d0) as nat) + 1, 19);
            assert(acc * 10 + 9 < pow10(((k - d0) as nat) + 1)) by (nonlinear_arith)
                requires
                    acc < pow10((k - d0) as nat),
                    pow10(((k - d0) as nat) + 1) == 10 * pow10((k - d0) as nat),
            ;
        }
        let d = (u - 48) as u64;
        acc = acc * 10 + d;
        k = k + 1;
    }
    if neg {
        if acc > 9223372036854775808u64 {
            None
        } else if acc == 9223372036854775808u64 {
            Some((i64::MIN, e))
        } else {
            Some((-(acc as i64), e))
        }
    } else {
        if acc > 9223372036854775807u64 {
            None
        } else {
            Some((acc as i64, e))
        }
    }
}

/// Every position between `i` and its digit run's end holds a digit.
proof fn lemma_digits_end_all_digits(s: Seq<char>, i: int, m: int)
    requires
        0 <= i <= m < digits_end(s, i),
    ensures
        is_digit(s[m]),
    decreases m - i,
{
    if i < m {
        lemma_digits_end_all_digits(s, i + 1, m);
    }
}

/// The digit run between `i` and `digits_end` lies within the text.
proof fn lemma_digits_end_all_digits_range(s: Seq<char>, i: int, e: int)
    requires
        0 <= i,
        e == digits_end(s, i),
    ensures
        i <= e <= if i <= s.len() {
            s.len() as int
        } else {
            i
        },
        forall|m: int| i <= m < e ==> is_digit(s[m]),
    decreases e - i,
{
    assert forall|m: int| i <= m < e implies is_digit(s[m]) by {
        lemma_digits_end_all_digits(s, i, m);
    }
    lemma_digits_end_le(s, i);
}

/// A digit run ends within the text.
proof fn lemma_digits_end_le(s: Seq<char>, i: int)
    requires
        0 <= i,
    ensures
        i <= digits_end(s, i),
        i <= s.len() ==> digits_end(s, i) <= s.len(),
    decreases s.len() - i,
{
    if i < s.len() && is_digit(s[i]) {
        lemma_digits_end_le(s, i + 1);
    }
}

fn match4(cs: &Vec<char>, i: usize, c0: char, c1: char, c2: char, c3: char) -> (b: bool)
    requires
        i <= cs@.len(),
    ensures
        b == (i + 4 <= cs@.len() && cs@.subrange(i as int, i as int + 4) == seq![c0, c1, c2, c3]),
{
    let len = cs.len();
    if len < 4 || i > len - 4 {
        proof {
            assert(i + 4 > cs@.len());
        }
        return false;
    }
    let b = cs[i] == c0 && cs[i + 1] == c1 && cs[i + 2] == c2 && cs[i + 3] == c3;
    proof {
        if b {
            assert(cs@.subrange(i as int, i as int + 4) =~= seq![c0, c1, c2, c3]);
        } else {
            if cs@.subrange(i as int, i as int + 4) == seq![c0, c1, c2, c3] {
                assert(cs@.subrange(i as int, i as int + 4)[0] == c0);
                assert(cs@.subrange(i as int, i as int + 4)[1] == c1);
                assert(cs@.subrange(i as int, i as int + 4)[2] == c2);
                assert(cs@.subrange(i as int, i as int + 4)[3] == c3);
            }
        }
    }
    b
}

fn parse_value_x(cs: &Vec<char>, start: usize, fuel: usize) -> (r: Option<(JsonValue, usize)>)
    requires
        start <= cs@.len(),
    ensures
        ({
            let sp = parse_value_at(cs@, start as int, fuel as nat);
            match r {
                Some((v, j)) => sp is Some && sp->Some_0.0 == v@ && sp->Some_0.1 == j as int && j
                    <= cs@.len(),
                None => sp is None,
            }
        }),
    decreases fuel, 0int,
{
    if fuel == 0 {
        return None;
    }
    let i = skip_ws_x(cs, start);
    let len = cs.len();
    if i >= len {
        return None;
    }
    let c = cs[i];
    if c == 'n' {
        proof {
            reveal_strlit("null");
            assert("null"@ =~= seq!['n', 'u', 'l', 'l']);
        }
        if match4(cs, i, 'n', 'u', 'l', 'l') {
            Some((JsonValue::Null, i + 4))
        } else {
            None
        }
    } else if c == 't' {
        proof {
            reveal_strlit("true");
            assert("true"@ =~= seq!['t', 'r', 'u', 'e']);
        }
        if match4(cs, i, 't', 'r', 'u', 'e') {
            Some((JsonValue::Bool(true), i + 4))
        } else {
            None
        }
    } else if c == 'f' {
        proof {
            reveal_strlit("false");
            assert("false"@ =~= seq!['f', 'a', 'l', 's', 'e']);
        }
        let tail_ok = match4(cs, i + 1, 'a', 'l', 's', 'e');
        proof {
            if tail_ok {
                assert(cs@.subrange(i as int, i as int + 5) =~= seq![cs@[i as int]]
                    + cs@.subrange(i as int + 1, i as int + 5));
                assert(cs@.subrange(i as int, i as int + 5) =~= seq!['f', 'a', 'l', 's', 'e']);
                assert(match_lit(cs@, i as int, "false"@));
            } else {
                if match_lit(cs@, i as int, "false"@) {
                    assert(cs@.subrange(i as int + 1, i as int + 5) =~= cs@.subrange(
                        i as int,
                        i as int + 5,
                    ).subrange(1, 5));
                    assert(cs@.subrange(i as int + 1, i as int + 5) =~= seq!['a', 'l', 's', 'e']);
                }
            }
        }
        if tail_ok {
            Some((JsonValue::Bool(false), i + 5))
        } else {
            None
        }
    } else if c == '"' {
        match parse_string_x(cs, i + 1) {
            Some((t, j)) => Some((JsonValue::Str(t), j)),
            None => None,
        }
    } else if c == '-' || (48 <= c as u32 && c as u32 <= 57) {
        match parse_int_x(cs, i) {
            Some((v, j)) => Some((JsonValue::Int(v), j)),
            None => None,
        }
    } else if c == '[' {
        let j = skip_ws_x(cs, i + 1);
        if j < len && cs[j] == ']' {
            let empty: Vec<JsonValue> = Vec::new();
            proof {
                assert(jv_views(empty@, 0) =~= Seq::<JsonV>::empty());
            }
            Some((JsonValue::Arr(empty), j + 1))
        } else {
            match parse_items_x(cs, i + 1, fuel - 1) {
                Some((vs, j2)) => Some((JsonValue::Arr(vs), j2)),
                None => None,
            }
        }
    } else if c == '{' {
        let j = skip_ws_x(cs, i + 1);
        if j < len && cs[j] == '}' {
            let empty: Vec<(String, JsonValue)> = Vec::new();
            proof {
                assert(jv_entry_views(empty@, 0) =~= Seq::<(Seq<char>, JsonV)>::empty());
            }
            Some((JsonValue::Obj(empty), j + 1))
        } else {
            match parse_entries_x(cs, i + 1, fuel - 1) {
                Some((es, j2)) => Some((JsonValue::Obj(es), j2)),
                None => None,
            }
        }
    } else {
        None
    }
}

fn parse_items_x(cs: &Vec<char>, i: usize, fuel: usize) -> (r: Option<(Vec<JsonValue>, usize)>)
    requires
        i <= cs@.len(),
    ensures
        ({
            let sp = parse_items_at(cs@, i as int, fuel as nat);
            match r {
                Some((vs, j)) => sp is Some && jv_views(vs@, 0) == sp->Some_0.0 && sp->Some_0.1 == j
                    as int && j <= cs@.len(),
                None => sp is None,
            }
        }),
    decreases fuel, 1int,
{
    let first = parse_value_x(cs, i, fuel);
    match first {
        None => None,
        Some((v, j)) => {
            let k = skip_ws_x(cs, j);
            let len = cs.len();
            if k < len && cs[k] == ',' {
                if fuel == 0 {
                    return None;
                }
                match parse_items_x(cs, k + 1, fuel - 1) {
                    Some((rest, m)) => {
                        let ghost rest0 = rest@;
                        let mut out: Vec<JsonValue> = Vec::new();
                        out.push(v);
                        let mut rest_mut = rest;
                        out.append(&mut rest_mut);
                        proof {
                            lemma_jv_views(out@, 0);
                            lemma_jv_views(rest0, 0);
                            assert(jv_views(out@, 0) =~= seq![out@[0]@] + jv_views(rest0, 0));
                        }
                        Some((out, m))
                    },
                    None => None,
                }
            } else if k < len && cs[k] == ']' {
                let mut out: Vec<JsonValue> = Vec::new();
                out.push(v);
                proof {
                    lemma_jv_views(out@, 0);
                    assert(jv_views(out@, 0) =~= seq![out@[0]@]);
                }
                Some((out, k + 1))
            } else {
                None
            }
        },
    }
}

fn parse_entries_x(cs: &Vec<char>, start: usize, fuel: usize) -> (r: Option<
    (Vec<(String, JsonValue)>, usize),
>)
    requires
        start <= cs@.len(),
    ensures
        ({
            let sp = parse_entries_at(cs@, start as int, fuel as nat);
            match r {
                Some((es, j)) => sp is Some && jv_entry_views(es@, 0) == sp->Some_0.0
                    && sp->Some_0.1 == j as int && j <= cs@.len(),
                None => sp is None,
            }
        }),
    decreases fuel, 1int,
{
    let i = skip_ws_x(cs, start);
    let len = cs.len();
    if i >= len {
        return None;
    }
    if cs[i] != '"' {
        return None;
    }
    let parsed_key = parse_string_x(cs, i + 1);
    match parsed_key {
        None => None,
        Some((key, j)) => {
            let j2 = skip_ws_x(cs, j);
            if j2 >= len {
                return None;
            }
            if cs[j2] != ':' {
                return None;
            }
            let parsed = parse_value_x(cs, j2 + 1, fuel);
            match parsed {
                None => None,
                Some((v, k)) => {
                    let m = skip_ws_x(cs, k);
                    if m < len && cs[m] == ',' {
                        if fuel == 0 {
                            return None;
                        }
                        match parse_entries_x(cs, m + 1, fuel - 1) {
                            Some((rest, e)) => {
                                let ghost rest0 = rest@;
                                let mut out: Vec<(String, JsonValue)> = Vec::new();
                                out.push((key, v));
                                let mut rest_mut = rest;
                                out.append(&mut rest_mut);
                                proof {
                                    lemma_jv_entry_views(out@, 0);
                                    lemma_jv_entry_views(rest0, 0);
                                    assert(jv_entry_views(out@, 0) =~= seq![
                                        (out@[0].0@, out@[0].1@),
                                    ] + jv_entry_views(rest0, 0));
                                }
                                Some((out, e))
                            },
                            None => None,
                        }
                    } else if m < len && cs[m] == '}' {
                        let mut out: Vec<(String, JsonValue)> = Vec::new();
                        out.push((key, v));
                        proof {
                            lemma_jv_entry_views(out@, 0);
                            assert(jv_entry_views(out@, 0) =~= seq![(out@[0].0@, out@[0].1@)]);
                        }
                        Some((out, m + 1))
                    } else {
                        None
                    }
                },
            }
        },
    }
}

/// Parses a JSON text into a document: exactly the document `parse_json_text`
/// describes, when the text holds one.
pub fn from_json(s: &str) -> (r: Option<JsonValue>)
    ensures
        match r {
            Some(v) => parse_json_text(s@) == Some(v@),
            None => parse_json_text(s@) is None,
        },
{
    let cs = chars_of(s);
    let fuel = cs.len();
    match parse_value_x(&cs, 0, fuel) {
        Some((v, j)) => {
            let k = skip_ws_x(&cs, j);
            if k == cs.len() {
                Some(v)
            } else {
                None
            }
        },
        None => None,
    }
}

impl Clone for JsonValue {
    /// Clones the document; the clone has the same image.
    fn clone(&self) -> (r: Self)
        ensures
            r@ == self@,
        decreases *self, 0int,
    {
        match self {
            JsonValue::Null => JsonValue::Null,
            JsonValue::Bool(b) => JsonValue::Bool(*b),
            JsonValue::Int(i) => JsonValue::Int(*i),
            JsonValue::Str(s) => JsonValue::Str(s.clone()),
            JsonValue::Arr(items) => {
                let out = clone_items(items);
                proof {
                    lemma_jv_views(out@, 0);
                    lemma_jv_views(items@, 0);
                    assert(jv_views(out@, 0) =~= jv_views(items@, 0));
                }
                JsonValue::Arr(out)
            },
            JsonValue::Obj(entries) => {
                let out = clone_entries(entries);
                proof {
                    lemma_jv_entry_views(out@, 0);
                    lemma_jv_entry_views(entries@, 0);
                    assert(jv_entry_views(out@, 0) =~= jv_entry_views(entries@, 0));
                }
                JsonValue::Obj(out)
            },
        }
    }
}

fn clone_items(items: &Vec<JsonValue>) -> (r: Vec<JsonValue>)
    ensures
        r@.len() == items@.len(),
        forall|k: int| 0 <= k < items@.len() ==> r@[k]@ == items@[k]@,
    decreases *items, 1int,
{
    let mut out: Vec<JsonValue> = Vec::new();
    let mut i: usize = 0;
    while i < items.len()
        invariant
            i <= items@.len(),
            out@.len() == i,
            forall|k: int| 0 <= k < i ==> out@[k]@ == items@[k]@,
        decreases items@.len() - i,
    {
        let c = items[i].clone();
        out.push(c);
        i = i + 1;
    }
    out
}

fn clone_entries(entries: &Vec<(String, JsonValue)>) -> (r: Vec<(String, JsonValue)>)
    ensures
        r@.len() == entries@.len(),
        forall|k: int|
            0 <= k < entries@.len() ==> r@[k].0@ == entries@[k].0@ && r@[k].1@ == entries@[k].1@,
    decreases *entries, 1int,
{
    let mut out: Vec<(String, JsonValue)> = Vec::new();
    let mut i: usize = 0;
    while i < entries.len()
        invariant
            i <= entries@.len(),
            out@.len() == i,
            forall|k: int|
                0 <= k < i ==> out@[k].0@ == entries@[k].0@ && out@[k].1@ == entries@[k].1@,
        decreases entries@.len() - i,
    {
        let e = &entries[i];
        let c = e.1.clone();
        out.push((e.0.clone(), c));
        i = i + 1;
    }
    out
}

} // verus!
