//! Building the wire request: a fixed model identifier, the full ordered
//! transcript, and the delivery-mode flag.

use vstd::prelude::*;
use vstd::string::StringExecFns;
use crate::transcript::{Message, MessageView, Transcript};

verus! {

/// Whether a reply arrives as one complete payload or as an incremental
/// sequence of fragments.
#[derive(Clone, Copy, Debug, PartialEq, Eq, Structural)]
pub enum Mode {
    Full,
    Streaming,
}

/// The model identifier sent with a request in each delivery mode.
pub open spec fn model_id(mode: Mode) -> Seq<char> {
    match mode {
        Mode::Full => "gpt-4o"@,
        Mode::Streaming => "gpt-4"@,
    }
}

/// The body of one completion request.
pub struct RequestBody {
    pub model: String,
    pub messages: Vec<Message>,
    pub stream: bool,
}

/// A request carries its mode's model identifier, exactly the given turns in
/// order, and the streaming flag of its mode.
pub open spec fn request_for(r: RequestBody, turns: Seq<MessageView>, mode: Mode) -> bool {
    &&& r.model@ == model_id(mode)
    &&& r.messages.deep_view() == turns
    &&& r.stream == (mode == Mode::Streaming)
}

/// Compose the transcript and the delivery mode into a request.
pub fn build_request(t: &Transcript, mode: Mode) -> (r: RequestBody)
    ensures
        request_for(r, t@, mode),
{
    let model = match mode {
        Mode::Full => String::from_str("gpt-4o"),
        Mode::Streaming => String::from_str("gpt-4"),
    };
    RequestBody { model, messages: t.snapshot(), stream: mode == Mode::Streaming }
}

/// The fixed completion endpoint.
pub fn api_endpoint() -> (r: &'static str)
    ensures
        r@ == "https://api.openai.com/v1/chat/completions"@,
{
    "https://api.openai.com/v1/chat/completions"
}

/// The value of the `Authorization` header for the given credential.
pub fn bearer_value(api_key: &str) -> (r: String)
    ensures
        r@ == "Bearer "@ + api_key@,
{
    let mut r = String::from_str("Bearer ");
    r.append(api_key);
    r
}

} // verus!
