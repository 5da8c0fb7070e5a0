//! Decoding a full (non-streaming) reply body and selecting its turn.

use vstd::prelude::*;
use crate::errors::ChatError;

verus! {

/// What the JSON reply decoder returns for the given body text: the content
/// of each choice's message, in order, if the text parses as JSON with that
/// shape, and nothing otherwise. A function of the body text alone.
pub uninterp spec fn full_choices(body: Seq<char>) -> Option<Seq<Seq<char>>>;

/// Relies on `serde_json::from_str` and `serde_json::Value::{get, as_array,
/// as_str}`: for a body that parses as a JSON object whose `choices` is an
/// array of objects each carrying a string at `message.content`, the result
/// is those strings in order, and nothing otherwise. A function of the body
/// text alone.
#[verifier::external_body]
fn full_choices_of(body: &str) -> (r: Option<Vec<String>>)
    ensures
        match r {
            Some(v) => full_choices(body@) == Some(v.deep_view()),
            None => full_choices(body@) is None,
        },
{
    let v: serde_json::Value = match serde_json::from_str(body) {
        Ok(v) => v,
        Err(_) => return None,
    };
    let arr = match v.get("choices").and_then(|c| c.as_array()) {
        Some(cs) => cs,
        None => return None,
    };
    arr.iter().map(
        |c| c.get("message").and_then(|m| m.get("content")).and_then(|t| t.as_str()).map(|t| t.to_owned()),
    ).collect()
}

/// Pick the reply out of the decoded choices: the first one. An empty list
/// is surfaced as an explicit error, never indexed into or defaulted.
pub fn select_reply(choices: &Vec<String>) -> (r: Result<String, ChatError>)
    ensures
        match r {
            Ok(c) => choices@.len() > 0 && c@ == choices.deep_view()[0],
            Err(e) => choices@.len() == 0 && e == ChatError::EmptyChoices,
        },
{
    if choices.len() == 0 {
        Err(ChatError::EmptyChoices)
    } else {
        Ok(choices[0].clone())
    }
}

/// Decode a complete reply body: a body that does not decode is a
/// `Decode` error, one that decodes to no choices is an `EmptyChoices`
/// error, and otherwise the first choice's content is the reply.
pub fn decode_full_reply(body: &str) -> (r: Result<String, ChatError>)
    ensures
        match r {
            Ok(c) => full_choices(body@) matches Some(cs) && cs.len() > 0 && c@ == cs[0],
            Err(e) => match full_choices(body@) {
                Some(cs) => cs.len() == 0 && e == ChatError::EmptyChoices,
                None => e == ChatError::Decode,
            },
        },
{
    match full_choices_of(body) {
        Some(choices) => select_reply(&choices),
        None => Err(ChatError::Decode),
    }
}

} // verus!
