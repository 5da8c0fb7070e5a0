//! The error taxonomy: every fatal condition the client can surface.

use vstd::prelude::*;
use vstd::string::StringExecFns;

verus! {

/// A fatal failure. There is no retry policy: each of these aborts the run.
#[derive(Clone, Copy, Debug, PartialEq, Eq, Structural)]
pub enum ChatError {
    /// The credential is missing or empty; no request may be attempted.
    Config,
    /// The network call itself failed.
    Transport,
    /// A well-formed reply was required and the body did not decode.
    Decode,
    /// A full reply arrived with no choice in it.
    EmptyChoices,
}

impl ChatError {
    /// The message reported for this error.
    pub fn describe(&self) -> (r: String)
        ensures
            r@ == match *self {
                ChatError::Config => "Please set the environment variable CHATGPT_APIKEY"@,
                ChatError::Transport => "the request could not be completed"@,
                ChatError::Decode => "the response body was malformed"@,
                ChatError::EmptyChoices => "the response contained no choices"@,
            },
    {
        match self {
            ChatError::Config => String::from_str(
                "Please set the environment variable CHATGPT_APIKEY",
            ),
            ChatError::Transport => String::from_str("the request could not be completed"),
            ChatError::Decode => String::from_str("the response body was malformed"),
            ChatError::EmptyChoices => String::from_str("the response contained no choices"),
        }
    }
}

/// Accept the credential read at startup: anything present and non-empty
/// passes unchanged, and nothing else does.
pub fn check_api_key(value: Option<String>) -> (r: Result<String, ChatError>)
    ensures
        match r {
            Ok(k) => value matches Some(v) && k@ == v@ && k@.len() > 0,
            Err(e) => e == ChatError::Config && match value {
                Some(v) => v@.len() == 0,
                None => true,
            },
        },
{
    match value {
        Some(key) => {
            if key.as_str().is_empty() {
                Err(ChatError::Config)
            } else {
                Ok(key)
            }
        },
        None => Err(ChatError::Config),
    }
}

} // verus!
