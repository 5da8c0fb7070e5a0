//! A minimal chat-completion client library: an append-only conversation
//! transcript, a request builder, an incremental streaming-response decoder,
//! and the decision logic of the interactive loop, all verified.

pub mod decode;
pub mod errors;
pub mod reply;
pub mod request;
pub mod session;
pub mod transcript;

