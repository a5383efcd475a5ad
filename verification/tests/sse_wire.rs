use nagisa_core::wire::{http_action_envelope, ActionError, Envelope};
use nagisa_core::sse::SseParser;
use nagisa_core::wire::base64_encode;

#[test]
fn sse_single_event() {
    let mut p = SseParser::new();
    let out = p.feed(b"data: hello\n\n");
    assert_eq!(out, vec!["hello".to_string()]);
}

#[test]
fn sse_multi_line_data_joined_with_newline() {
    let mut p = SseParser::new();
    let out = p.feed(b"data: a\ndata:b\n\n");
    assert_eq!(out, vec!["a\nb".to_string()]);
}

#[test]
fn sse_ignores_other_fields_and_strips_cr() {
    let mut p = SseParser::new();
    let out = p.feed(b"event: msg\r\nid: 7\r\n: comment\r\ndata: x\r\n\r\n");
    assert_eq!(out, vec!["x".to_string()]);
}

#[test]
fn sse_blank_line_without_data_is_no_event() {
    let mut p = SseParser::new();
    let out = p.feed(b"\n\nevent: ping\n\n");
    assert!(out.is_empty());
}

#[test]
fn sse_chunking_does_not_matter() {
    let stream: &[u8] = b"data: {\"a\":1}\n\ndata: second\ndata:  two spaces\n\nda";
    let mut whole = SseParser::new();
    let all = whole.feed(stream);
    for cut in 0..stream.len() {
        let mut p = SseParser::new();
        let mut got = p.feed(&stream[..cut]);
        got.extend(p.feed(&stream[cut..]));
        assert_eq!(got, all, "cut at {}", cut);
    }
    assert_eq!(all, vec!["{\"a\":1}".to_string(), "second\n two spaces".to_string()]);
}

#[test]
fn sse_partial_line_waits_for_newline() {
    let mut p = SseParser::new();
    assert!(p.feed(b"data: par").is_empty());
    assert!(p.feed(b"tial\n").is_empty());
    assert_eq!(p.feed(b"\n"), vec!["partial".to_string()]);
}

#[test]
fn sse_invalid_utf8_is_replaced() {
    let mut p = SseParser::new();
    let out = p.feed(b"data: a\xffb\n\n");
    assert_eq!(out, vec!["a\u{FFFD}b".to_string()]);
}

#[test]
fn base64_rfc4648_vectors() {
    assert_eq!(base64_encode(b""), "");
    assert_eq!(base64_encode(b"f"), "Zg==");
    assert_eq!(base64_encode(b"fo"), "Zm8=");
    assert_eq!(base64_encode(b"foo"), "Zm9v");
    assert_eq!(base64_encode(b"foob"), "Zm9vYg==");
    assert_eq!(base64_encode(b"fooba"), "Zm9vYmE=");
    assert_eq!(base64_encode(b"foobar"), "Zm9vYmFy");
}

#[test]
fn base64_uses_plus_and_slash() {
    assert_eq!(base64_encode(&[0xfb, 0xff, 0xbf]), "+/+/");
    assert_eq!(base64_encode(&[0, 0, 0]), "AAAA");
}

#[test]
fn base64_length_is_four_per_started_group() {
    for n in 0..20usize {
        let data = vec![7u8; n];
        assert_eq!(base64_encode(&data).len(), 4 * ((n + 2) / 3));
    }
}

fn env(status: &str, retcode: i64, data: Option<i32>, message: Option<&str>) -> Envelope<i32, &'static str> {
    Envelope { status: status.to_string(), retcode, data, message: message.map(|m| m.to_string()), classify: "kind" }
}

#[test]
fn http_action_envelope_outcomes() {
    let unsupported: Result<Option<i32>, ActionError<&str, String>> =
        http_action_envelope("get_x", 404, "", |_| -> Result<Envelope<i32, &str>, String> { panic!("no parse on 404") });
    assert!(matches!(unsupported, Err(ActionError::Unsupported(a)) if a == "get_x"));
    let ok = http_action_envelope("a", 200, "{}", |_| Ok::<_, String>(env("ok", 0, Some(7), None)));
    assert!(matches!(ok, Ok(Some(7))));
    let null = http_action_envelope("a", 200, "{}", |_| Ok::<_, String>(env("ok", 0, None, None)));
    assert!(matches!(null, Ok(None)));
    let failed = http_action_envelope("a", 500, "{}", |_| Ok::<_, String>(env("failed", 100, None, Some("bad"))));
    match failed {
        Err(ActionError::Action { retcode, message, kind }) => assert_eq!((retcode, message.as_str(), kind), (100, "bad", "kind")),
        _ => panic!("expected an action error"),
    }
    let no_text = http_action_envelope("a", 200, "{}", |_| Ok::<_, String>(env("ok", 3, None, None)));
    assert!(matches!(no_text, Err(ActionError::Action { retcode: 3, ref message, .. }) if message.is_empty()));
    let bad = http_action_envelope("a", 200, "x", |b: &str| Err::<Envelope<i32, &str>, String>(format!("cannot parse {b}")));
    assert!(matches!(bad, Err(ActionError::Parse(e)) if e == "cannot parse x"));
}
