use chat_client::decode::{decode_line, StreamDecoder};

fn line(s: &str) -> Vec<u8> {
    s.as_bytes().to_vec()
}

#[test]
fn single_frame_yields_increment() {
    let r = decode_line(&line("data: {\"choices\":[{\"delta\":{\"content\":\"hi\"}}]}"));
    assert_eq!(r, Some("hi".to_string()));
}

#[test]
fn non_json_line_yields_nothing() {
    assert_eq!(decode_line(&line("data: [DONE]")), None);
}

#[test]
fn unprefixed_line_yields_nothing() {
    assert_eq!(decode_line(&line("{\"choices\":[{\"delta\":{\"content\":\"hi\"}}]}")), None);
}

#[test]
fn empty_line_yields_nothing() {
    assert_eq!(decode_line(&line("")), None);
    assert_eq!(decode_line(&line("   ")), None);
}

#[test]
fn missing_delta_shape_yields_nothing() {
    assert_eq!(decode_line(&line("data: {\"choices\":[]}")), None);
    assert_eq!(decode_line(&line("data: {\"choices\":[{\"delta\":{}}]}")), None);
    assert_eq!(decode_line(&line("data: {}")), None);
}

#[test]
fn surrounding_whitespace_is_trimmed() {
    let r = decode_line(&line("  data: {\"choices\":[{\"delta\":{\"content\":\"hi\"}}]}\r\n"));
    assert_eq!(r, Some("hi".to_string()));
}

#[test]
fn prefix_strip_is_anchored_to_line_start() {
    // The literal `data: ` inside the content must come through untouched.
    let r = decode_line(&line("data: {\"choices\":[{\"delta\":{\"content\":\"data: x\"}}]}"));
    assert_eq!(r, Some("data: x".to_string()));
}

#[test]
fn three_line_stream_reassembles_reply() {
    let body = "data: {\"choices\":[{\"delta\":{\"content\":\"He\"}}]}\n\
                data: {\"choices\":[{\"delta\":{\"content\":\"llo\"}}]}\n\
                data: [DONE]\n";
    let mut d = StreamDecoder::new();
    let incs = d.feed(body.as_bytes());
    assert_eq!(incs, vec!["He".to_string(), "llo".to_string()]);
    assert_eq!(d.finish(), "Hello");
}

#[test]
fn invalid_line_does_not_halt_later_lines() {
    let mut d = StreamDecoder::new();
    assert_eq!(d.feed(b"data: [DONE]\n"), Vec::<String>::new());
    assert_eq!(d.feed(b"not a frame at all\n"), Vec::<String>::new());
    let incs = d.feed(b"data: {\"choices\":[{\"delta\":{\"content\":\"still here\"}}]}\n");
    assert_eq!(incs, vec!["still here".to_string()]);
    assert_eq!(d.finish(), "still here");
}

#[test]
fn last_line_without_newline_still_counts() {
    let mut d = StreamDecoder::new();
    let incs = d.feed(b"data: {\"choices\":[{\"delta\":{\"content\":\"tail\"}}]}");
    assert_eq!(incs, Vec::<String>::new());
    assert_eq!(d.finish(), "tail");
}

#[test]
fn multibyte_character_split_across_chunks_decodes_intact() {
    // "é" is two bytes in UTF-8; cut the line between them.
    let full = "data: {\"choices\":[{\"delta\":{\"content\":\"caf\u{e9}\"}}]}\n";
    let bytes = full.as_bytes();
    let cut = bytes.len() - 7;
    assert!(!full.is_char_boundary(cut));
    let mut d = StreamDecoder::new();
    assert_eq!(d.feed(&bytes[..cut]), Vec::<String>::new());
    let incs = d.feed(&bytes[cut..]);
    assert_eq!(incs, vec!["caf\u{e9}".to_string()]);
    assert_eq!(d.finish(), "caf\u{e9}");
}

#[test]
fn chunk_boundaries_do_not_change_the_reply() {
    let body = "data: {\"choices\":[{\"delta\":{\"content\":\"one \"}}]}\n\
                data: {\"choices\":[{\"delta\":{\"content\":\"two\"}}]}\n";
    let bytes = body.as_bytes();
    let mut whole = StreamDecoder::new();
    whole.feed(bytes);
    let mut pieces = StreamDecoder::new();
    for b in bytes {
        pieces.feed(std::slice::from_ref(b));
    }
    assert_eq!(whole.finish(), "one two");
    assert_eq!(pieces.finish(), "one two");
}

#[test]
fn genuinely_invalid_bytes_are_replaced_not_fatal() {
    let mut d = StreamDecoder::new();
    let mut bad = b"data: {\"choices\":[{\"delta\":{\"content\":\"ok\"}}]}".to_vec();
    bad.push(b'\n');
    // A lone 0xFF is not valid UTF-8 anywhere; a line made of it is skipped,
    // while the well-formed line around it still decodes.
    d.feed(&[0xFF, b'\n']);
    d.feed(&bad);
    assert_eq!(d.finish(), "ok");
}
