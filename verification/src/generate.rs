//! The verified compute half of talking to a remote completion service: what
//! the core reads out of a completion response. The HTTP request itself is
//! outside work and stays with the caller.

use vstd::prelude::*;
use crate::tools::LLMResponse;

verus! {

/// The text of a response: the first choice's content, or empty text when
/// the response has no choices or the first choice carries no content.
pub open spec fn spec_first_choice_content(resp: LLMResponse) -> Seq<char> {
    if resp.choices@.len() > 0 {
        match resp.choices@[0].message.content {
            Some(c) => c@,
            None => Seq::empty(),
        }
    } else {
        Seq::empty()
    }
}

/// Extracts the first choice's content from a completion response, or empty
/// text when there is none.
pub fn first_choice_content(resp: &LLMResponse) -> (r: String)
    ensures
        r@ == spec_first_choice_content(*resp),
{
    if resp.choices.len() > 0 {
        match &resp.choices[0].message.content {
            Some(c) => c.clone(),
            None => String::new(),
        }
    } else {
        String::new()
    }
}

} // verus!
