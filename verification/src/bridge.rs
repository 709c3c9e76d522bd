//! The narrow bridge to the outside crates: declared outside types, named
//! results, and the trusted wrappers through which all calls into serde_json,
//! regex and std's case folding go. Everything else in the crate is verified
//! against the contracts stated here.

use vstd::prelude::*;

verus! {

#[verifier::external_type_specification]
#[verifier::external_body]
pub struct ExValue(serde_json::Value);

/// Whether `s` is a JSON document that serde_json accepts.
pub uninterp spec fn json_valid(s: Seq<char>) -> bool;

/// Relies on serde_json::from_str::<Value>: parses a JSON document; whether it
/// succeeds depends on the text alone.
#[verifier::external_body]
pub fn parse_json(s: &str) -> (r: Option<serde_json::Value>)
    ensures
        r is Some <==> json_valid(s@),
{
    match serde_json::from_str::<serde_json::Value>(s) {
        Ok(v) => Some(v),
        Err(_) => None,
    }
}

/// The case folding str::to_lowercase performs.
pub uninterp spec fn lower_of(s: Seq<char>) -> Seq<char>;

/// Relies on str::to_lowercase: the result depends on the characters alone.
#[verifier::external_body]
pub fn lowercase(s: &str) -> (r: String)
    ensures
        r@ == lower_of(s@),
        s@.len() == 0 ==> r@.len() == 0,
{
    s.to_lowercase()
}

/// Whether `pattern` is a regular expression that regex::Regex::new accepts.
pub uninterp spec fn regex_valid(pattern: Seq<char>) -> bool;

/// Whether the regular expression `pattern` matches somewhere in `text`,
/// as regex::Regex::is_match decides it.
pub uninterp spec fn regex_matches(pattern: Seq<char>, text: Seq<char>) -> bool;

/// Relies on regex::Regex::new and regex::Regex::is_match: the pattern is
/// compiled fresh and matched against the text in one step, because nothing
/// can be stated of the compiled value in between; whether compilation
/// succeeds depends on the pattern alone, and the match result on the pattern
/// and the text alone.
#[verifier::external_body]
pub fn regex_is_match(pattern: &str, text: &str) -> (r: Option<bool>)
    ensures
        r is Some <==> regex_valid(pattern@),
        r matches Some(b) ==> b == regex_matches(pattern@, text@),
{
    match regex::Regex::new(pattern) {
        Ok(re) => Some(re.is_match(text)),
        Err(_) => None,
    }
}

/// Relies on std's String::push: appends exactly the given character.
#[verifier::external_body]
pub fn push_char(out: &mut String, c: char)
    ensures
        final(out)@ == old(out)@ + seq![c],
{
    out.push(c);
}

/// Holds the caller-supplied callable of a registered tool. A registry must
/// store callables of many different types, which takes a boxed trait object,
/// and the verifier does not accept trait objects in a visible field; so the
/// whole struct is opaque. The callable is equally opaque in contracts:
/// nothing is assumed of what it returns, and every verified caller must hold
/// for every outcome.
#[verifier::external_body]
pub struct ToolCallable {
    f: Box<dyn Fn(serde_json::Value) -> Result<serde_json::Value, String> + Send + Sync>,
}

impl ToolCallable {
    /// Relies on Box::new: stores the callable unchanged.
    #[verifier::external_body]
    pub fn new<F: Fn(serde_json::Value) -> Result<serde_json::Value, String> + Send + Sync + 'static>(
        f: F,
    ) -> ToolCallable {
        ToolCallable { f: Box::new(f) }
    }

    /// Relies on the stored callable alone; its result is returned as-is and
    /// nothing is assumed of it.
    #[verifier::external_body]
    pub fn call(&self, args: serde_json::Value) -> Result<serde_json::Value, String> {
        (self.f)(args)
    }
}

} // verus!
