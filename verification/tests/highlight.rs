//! Colours of commands and answers, and of JSON payloads.

use tower_cli::highlight::{command, response};
use tower_cli::json_view::json_spans;
use tower_cli::style::Span;

fn text(spans: &[Span]) -> String {
    spans.iter().map(|s| s.text.as_str()).collect()
}

#[test]
fn command_paints_path_and_kv() {
    let spans = command("/system/settings set addr=random");
    assert_eq!(text(&spans), "/system/settings set addr=random");
    // The key/value split produced distinct spans.
    assert!(spans.iter().any(|s| s.text == "addr"));
    assert!(spans.iter().any(|s| s.text == "random"));
}

#[test]
fn response_splits_key_value_and_passes_raw() {
    let kv = response("temp-period = 60");
    assert_eq!(text(&kv), "temp-period = 60");
    assert!(kv.len() >= 3, "key / sep / value");
    // A plain line with no separator survives verbatim as one raw span.
    let raw = response("just some text");
    assert_eq!(text(&raw), "just some text");
}

#[test]
fn painting_keeps_every_character() {
    for l in ["", " ", "a  b", "/led on", "x=1 =2 y=", "→ ž=π"] {
        assert_eq!(text(&command(l)), l);
    }
    for l in ["", "a = b = c", "key: value", "ž = π"] {
        assert_eq!(text(&response(l)), l);
    }
}

#[test]
fn json_lexer_shapes() {
    let spans = json_spans(br#"{"k":"v","n":-1.5e3,"b":true,"z":null}"#);
    let texts: Vec<&str> = spans.iter().map(|s| s.text.as_str()).collect();
    assert!(texts.contains(&"\"k\""));
    assert!(texts.contains(&"\"v\""));
    assert!(texts.contains(&"-1.5e3"));
    assert!(texts.contains(&"true"));
    assert!(texts.contains(&"null"));
    let key = spans.iter().find(|s| s.text == "\"k\"").unwrap();
    let value = spans.iter().find(|s| s.text == "\"v\"").unwrap();
    assert_ne!(key.style, value.style);
    // The whole payload survives the lexer verbatim.
    assert_eq!(texts.concat(), r#"{"k":"v","n":-1.5e3,"b":true,"z":null}"#);
    // An empty payload clears a retained topic.
    let spans = json_spans(b"");
    assert_eq!(spans[0].text, "(cleared)");
    // Non-UTF-8 stays safe.
    let spans = json_spans(&[0xFF, 0xFE]);
    assert!(spans[0].text.contains("binary"));
}

#[test]
fn payloads_are_shown_verbatim() {
    for p in ["{}", "[1,2, 3 ]", "not json at all", "\"open", "{\"a\" : {\"b\":[null]}}", "ž"] {
        assert_eq!(text(&json_spans(p.as_bytes())), p);
    }
}
