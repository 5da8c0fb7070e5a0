use chat_client::errors::ChatError;
use chat_client::reply::{decode_full_reply, select_reply};
use chat_client::request::{api_endpoint, bearer_value};

#[test]
fn empty_choices_surface_an_explicit_error() {
    assert_eq!(decode_full_reply("{\"choices\":[]}"), Err(ChatError::EmptyChoices));
    assert_eq!(select_reply(&Vec::new()), Err(ChatError::EmptyChoices));
}

#[test]
fn first_choice_content_is_the_reply() {
    let body = "{\"id\":\"x\",\"choices\":[\
                {\"index\":0,\"message\":{\"role\":\"assistant\",\"content\":\"first\"},\"finish_reason\":\"stop\"},\
                {\"index\":1,\"message\":{\"role\":\"assistant\",\"content\":\"second\"},\"finish_reason\":\"stop\"}]}";
    assert_eq!(decode_full_reply(body), Ok("first".to_string()));
}

#[test]
fn malformed_body_is_a_decode_error() {
    assert_eq!(decode_full_reply("not json at all"), Err(ChatError::Decode));
    assert_eq!(decode_full_reply("{\"nothing\":true}"), Err(ChatError::Decode));
    assert_eq!(
        decode_full_reply("{\"choices\":[{\"message\":{\"role\":\"assistant\"}}]}"),
        Err(ChatError::Decode)
    );
}

#[test]
fn select_reply_takes_the_first() {
    let choices = vec!["a".to_string(), "b".to_string()];
    assert_eq!(select_reply(&choices), Ok("a".to_string()));
}

#[test]
fn header_and_endpoint_values() {
    assert_eq!(bearer_value("abc"), "Bearer abc");
    assert_eq!(api_endpoint(), "https://api.openai.com/v1/chat/completions");
}
