use orchustr::anchor::AnchorPipeline;
use orchustr::bridge::{
    dyn_state_from_json, get_field, get_str, invocation, required_str, required_u64, BridgeError,
};
use orchustr::json::{object_get, to_json_text, JsonValue};
use orchustr::prompt::{find_pair, sanitize_chars, trim_bounds};
use orchustr::text::{char_is_ascii_alphanumeric, char_is_control, char_is_whitespace, str_chars};

fn text(s: &str) -> JsonValue {
    JsonValue::Str(s.to_string())
}

fn num(s: &str) -> JsonValue {
    JsonValue::Number(s.to_string())
}

fn members(items: Vec<(&str, JsonValue)>) -> Vec<(String, JsonValue)> {
    items.into_iter().map(|(k, v)| (k.to_string(), v)).collect()
}

fn chars(s: &str) -> Vec<char> {
    s.chars().collect()
}

#[test]
fn character_classes() {
    assert!(char_is_control('\0'));
    assert!(char_is_control('\u{1f}'));
    assert!(char_is_control('\u{7f}'));
    assert!(char_is_control('\u{9f}'));
    assert!(!char_is_control(' '));
    assert!(!char_is_control('\u{a0}'));
    assert!(char_is_whitespace('\u{3000}'));
    assert!(char_is_whitespace('\u{85}'));
    assert!(char_is_whitespace('\u{a0}'));
    assert!(!char_is_whitespace('\u{200b}'));
    assert!(char_is_ascii_alphanumeric('Z'));
    assert!(!char_is_ascii_alphanumeric('é'));
    assert_eq!(str_chars("aé🌍"), vec!['a', 'é', '🌍']);
}

#[test]
fn json_text_is_compact_and_escaped() {
    let value = JsonValue::Object(members(vec![
        ("n", num("-1.5e3")),
        ("t", JsonValue::Bool(true)),
        ("s", text("tab\there \u{1f} é 🌍 /")),
        ("a", JsonValue::Array(vec![JsonValue::Null, JsonValue::Array(vec![])])),
    ]));
    assert_eq!(
        to_json_text(&value),
        "{\"n\":-1.5e3,\"t\":true,\"s\":\"tab\\there \\u001f é 🌍 /\",\"a\":[null,[]]}"
    );
    assert_eq!(to_json_text(&text("\u{8}\u{c}\r")), "\"\\b\\f\\r\"");
}

#[test]
fn members_are_looked_up_by_key() {
    let m = members(vec![("a", num("1")), ("b", text("x")), ("a", num("2"))]);
    assert_eq!(object_get(&m, "a"), Some(&num("1")));
    assert_eq!(object_get(&m, "c"), None);
    assert_eq!(get_str(&m, "b"), Some(&"x".to_string()));
    assert_eq!(get_str(&m, "a"), None);
}

#[test]
fn payload_members_by_kind() {
    let payload = JsonValue::Object(members(vec![
        ("name", text("n")),
        ("count", num("42")),
        ("big", num("18446744073709551616")),
        ("neg", num("-1")),
        ("frac", num("1.0")),
    ]));
    assert_eq!(get_field(&payload, "count"), Some(&num("42")));
    assert_eq!(get_field(&text("x"), "count"), None);
    assert_eq!(required_str(&payload, "name", "c", "o"), Ok(&"n".to_string()));
    assert_eq!(
        required_str(&payload, "count", "c", "o"),
        Err(BridgeError::InvalidInput("missing string `count` for `c` / `o`".to_string()))
    );
    assert_eq!(required_u64(&payload, "count", "c", "o"), Ok(42));
    for key in ["big", "neg", "frac", "name", "absent"] {
        assert_eq!(
            required_u64(&payload, key, "c", "o"),
            Err(BridgeError::InvalidInput(format!("missing integer `{key}` for `c` / `o`")))
        );
    }
    assert_eq!(
        required_u64(&JsonValue::Object(members(vec![("m", num("18446744073709551615"))])), "m", "c", "o"),
        Ok(u64::MAX)
    );
}

#[test]
fn state_must_be_an_object() {
    let state = JsonValue::Object(members(vec![("k", num("1"))]));
    assert_eq!(dyn_state_from_json(&state), Ok(&members(vec![("k", num("1"))])));
    assert_eq!(dyn_state_from_json(&num("1")), Err(BridgeError::InvalidState));
}

#[test]
fn invocation_errors_carry_their_reason() {
    assert_eq!(
        invocation("or-core", "next_retry_delay", "boom").message(),
        "bridge invocation failed for `or-core` / `next_retry_delay`: boom"
    );
}

#[test]
fn character_helpers_of_templates() {
    let s = chars("a {{ x }} {{y}}");
    assert_eq!(find_pair(&s, '{', '{', 0), Some(2));
    assert_eq!(find_pair(&s, '{', '{', 3), Some(10));
    assert_eq!(find_pair(&s, '}', '}', 0), Some(7));
    assert_eq!(find_pair(&s, '{', '{', 11), None);
    assert_eq!(trim_bounds(&s, 4, 7), (5, 6));
    assert_eq!(trim_bounds(&s, 3, 4), (3, 4));
    let (start, end) = trim_bounds(&s, 4, 5);
    assert_eq!(start, end);
    assert_eq!(sanitize_chars(&chars("a\u{0}\nb\u{9f}")), chars("a\nb"));
}

#[test]
fn pipeline_cuts_documents_by_its_chunk_size() {
    let pipeline = AnchorPipeline::new();
    assert_eq!(pipeline.chunk_size(), 32);
    assert_eq!(AnchorPipeline::default().chunk_size(), 32);
    let small = AnchorPipeline::new().with_chunk_size(2);
    assert_eq!(small.chunk_size(), 2);
    let chunks = small.document_chunks("doc", "one two three");
    assert_eq!(chunks.len(), 2);
    assert_eq!(chunks[0].id, "doc:0");
    assert_eq!(chunks[0].text, "one two");
    assert_eq!(chunks[1].id, "doc:1");
    assert_eq!(chunks[1].text, "three");
    assert!(AnchorPipeline::new().document_chunks("doc", " \n ").is_empty());
}
