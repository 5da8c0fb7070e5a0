use chat_client::errors::{check_api_key, ChatError};
use chat_client::request::Mode;
use chat_client::session::Session;
use chat_client::transcript::Role;

#[test]
fn transcript_grows_by_one_pair_per_exchange() {
    let mut s = Session::new(Mode::Streaming);
    assert_eq!(s.transcript_len(), 1);
    assert_eq!(s.turn(0).role, Role::System);
    assert_eq!(s.turn(0).content, "You are a helpful assistant.");
    let inputs = ["first question", "second question", "third question"];
    let replies = ["first answer", "second answer", "third answer"];
    for (n, (i, r)) in inputs.iter().zip(replies.iter()).enumerate() {
        let req = s.on_input(i.to_string());
        assert!(req.is_some());
        s.on_reply(r.to_string());
        assert_eq!(s.transcript_len(), 1 + 2 * (n + 1));
    }
    // Strict chronological order: seed, then user/assistant pairs.
    for (n, (i, r)) in inputs.iter().zip(replies.iter()).enumerate() {
        let user = s.turn(2 * n + 1);
        assert_eq!(user.role, Role::User);
        assert_eq!(user.content, *i);
        let assistant = s.turn(2 * n + 2);
        assert_eq!(assistant.role, Role::Assistant);
        assert_eq!(assistant.content, *r);
    }
}

#[test]
fn sentinel_quit_terminates_without_request() {
    let mut s = Session::new(Mode::Streaming);
    s.on_input("hello".to_string());
    s.on_reply("world".to_string());
    let before = s.transcript_len();
    let req = s.on_input("quit".to_string());
    assert!(req.is_none());
    assert!(s.is_terminated());
    assert_eq!(s.transcript_len(), before);
}

#[test]
fn sentinel_q_terminates_without_request() {
    let mut s = Session::new(Mode::Full);
    let req = s.on_input("q".to_string());
    assert!(req.is_none());
    assert!(s.is_terminated());
    assert_eq!(s.transcript_len(), 1);
}

#[test]
fn request_carries_model_transcript_and_flag() {
    let mut s = Session::new(Mode::Streaming);
    let req = s.on_input("hello".to_string()).expect("a request");
    assert_eq!(req.model, "gpt-4");
    assert!(req.stream);
    assert_eq!(req.messages.len(), 2);
    assert_eq!(req.messages[0].role, Role::System);
    assert_eq!(req.messages[1].role, Role::User);
    assert_eq!(req.messages[1].content, "hello");

    let mut f = Session::new(Mode::Full);
    let req = f.on_input("hi".to_string()).expect("a request");
    assert_eq!(req.model, "gpt-4o");
    assert!(!req.stream);
}

#[test]
fn missing_key_is_a_config_error() {
    assert_eq!(check_api_key(None), Err(ChatError::Config));
}

#[test]
fn empty_key_is_a_config_error() {
    assert_eq!(check_api_key(Some(String::new())), Err(ChatError::Config));
}

#[test]
fn present_key_passes_unchanged() {
    assert_eq!(check_api_key(Some("a-key".to_string())), Ok("a-key".to_string()));
}

#[test]
fn error_messages_name_the_failure() {
    assert_eq!(
        ChatError::Config.describe(),
        "Please set the environment variable CHATGPT_APIKEY"
    );
    assert_eq!(ChatError::Transport.describe(), "the request could not be completed");
    assert_eq!(ChatError::Decode.describe(), "the response body was malformed");
    assert_eq!(ChatError::EmptyChoices.describe(), "the response contained no choices");
}
