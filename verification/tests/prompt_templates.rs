use orchustr::json::JsonValue;
use orchustr::prompt::{
    extract_variables, sanitize_text, BeaconError, PromptBuilder, PromptOrchestrator,
};

fn object(members: &[(&str, JsonValue)]) -> JsonValue {
    JsonValue::Object(
        members
            .iter()
            .map(|(k, v)| (k.to_string(), clone_value(v)))
            .collect(),
    )
}

fn clone_value(v: &JsonValue) -> JsonValue {
    match v {
        JsonValue::Null => JsonValue::Null,
        JsonValue::Bool(b) => JsonValue::Bool(*b),
        JsonValue::Number(n) => JsonValue::Number(n.clone()),
        JsonValue::Str(s) => JsonValue::Str(s.clone()),
        JsonValue::Array(items) => JsonValue::Array(items.iter().map(clone_value).collect()),
        JsonValue::Object(m) => {
            JsonValue::Object(m.iter().map(|(k, v)| (k.clone(), clone_value(v))).collect())
        }
    }
}

fn text(s: &str) -> JsonValue {
    JsonValue::Str(s.to_string())
}

#[test]
fn build_template_extracts_variables() {
    let template = PromptOrchestrator.build_template("Summarize {{text}}").unwrap();
    assert_eq!(template.variables, vec!["text"]);
}

#[test]
fn build_template_rejects_invalid_variables() {
    let result = PromptOrchestrator.build_template("Summarize {{bad var}}");
    assert_eq!(
        result,
        Err(BeaconError::InvalidTemplate(
            "invalid variable name: bad var".to_owned()
        ))
    );
}

#[test]
fn render_template_injects_sanitized_values() {
    let template = PromptBuilder::new()
        .template("Summarize {{text}}")
        .build()
        .unwrap();
    let rendered = PromptOrchestrator
        .render_template(&template, &object(&[("text", text("hi\u{0000}there"))]))
        .unwrap();
    assert_eq!(rendered, "Summarize hithere");
}

#[test]
fn render_template_rejects_missing_values() {
    let template = PromptBuilder::new()
        .template("Summarize {{text}}")
        .build()
        .unwrap();
    let result = PromptOrchestrator.render_template(&template, &object(&[]));
    assert_eq!(result, Err(BeaconError::MissingVariable("text".to_owned())));
}

#[test]
fn null_byte_injection_is_sanitized() {
    let template = PromptBuilder::new()
        .template("User said: {{input}}")
        .build()
        .unwrap();
    let rendered = PromptOrchestrator
        .render_template(&template, &object(&[("input", text("hi\0DROP TABLE"))]))
        .unwrap();
    assert!(!rendered.contains('\0'), "null bytes must be stripped");
    assert!(rendered.contains("DROP TABLE"), "text content is preserved");
}

#[test]
fn template_injection_via_variable_value_does_not_expand() {
    let template = PromptBuilder::new()
        .template("Echo: {{msg}}")
        .build()
        .unwrap();
    let rendered = PromptOrchestrator
        .render_template(&template, &object(&[("msg", text("{{secret}}"))]))
        .unwrap();
    assert_eq!(
        rendered, "Echo: {{secret}}",
        "template placeholders in values must not re-expand"
    );
}

#[test]
fn missing_template_is_rejected() {
    let result = PromptBuilder::new().build();
    assert!(
        result.is_err(),
        "building without template should be rejected"
    );
}

#[test]
fn empty_template_with_no_vars_is_valid() {
    let template = PromptOrchestrator.build_template("").unwrap();
    assert!(template.variables.is_empty());
}

#[test]
fn unicode_variables_are_handled() {
    let template = PromptBuilder::new()
        .template("Translate: {{text}}")
        .build()
        .unwrap();
    let rendered = PromptOrchestrator
        .render_template(&template, &object(&[("text", text("こんにちは 🌍"))]))
        .unwrap();
    assert_eq!(rendered, "Translate: こんにちは 🌍");
}

#[test]
fn multiple_variables_all_substituted() {
    let template = PromptBuilder::new()
        .template("{{a}} and {{b}} and {{c}}")
        .build()
        .unwrap();
    let rendered = PromptOrchestrator
        .render_template(
            &template,
            &object(&[("a", text("x")), ("b", text("y")), ("c", text("z"))]),
        )
        .unwrap();
    assert_eq!(rendered, "x and y and z");
}

#[test]
fn missing_one_of_multiple_variables_fails() {
    let template = PromptBuilder::new()
        .template("{{a}} and {{b}}")
        .build()
        .unwrap();
    let result = PromptOrchestrator.render_template(&template, &object(&[("a", text("x"))]));
    assert_eq!(result, Err(BeaconError::MissingVariable("b".to_owned())));
}

#[test]
fn missing_template_error_is_missing_template() {
    assert_eq!(PromptBuilder::new().build(), Err(BeaconError::MissingTemplate));
    assert_eq!(PromptBuilder::default().build(), Err(BeaconError::MissingTemplate));
}

#[test]
fn unclosed_placeholder_is_rejected() {
    assert_eq!(
        extract_variables("Hello {{name"),
        Err(BeaconError::InvalidTemplate(
            "unclosed template variable".to_owned()
        ))
    );
}

#[test]
fn empty_placeholder_is_rejected() {
    assert_eq!(
        extract_variables("Hello {{  }}"),
        Err(BeaconError::InvalidTemplate("invalid variable name: ".to_owned()))
    );
}

#[test]
fn variables_are_trimmed_deduplicated_and_ordered() {
    let vars = extract_variables("{{ b }} {{a}} {{b}} {{user.name-2_x}}").unwrap();
    assert_eq!(vars, vec!["b", "a", "user.name-2_x"]);
}

#[test]
fn text_between_placeholders_is_ignored() {
    let vars = extract_variables("}} { {x}} {{y}}}").unwrap();
    assert_eq!(vars, vec!["y"]);
}

#[test]
fn sanitize_keeps_newlines_tabs_and_returns() {
    assert_eq!(sanitize_text("a\nb\tc\rd\u{7}e\u{1b}f\u{85}g\u{7f}h"), "a\nb\tc\rdefgh");
    assert_eq!(sanitize_text("plain text é"), "plain text é");
}

#[test]
fn build_sanitizes_template_text() {
    let template = PromptBuilder::new().template("a\u{0}b {{x}}").build().unwrap();
    assert_eq!(template.template, "ab {{x}}");
    assert_eq!(template.variables, vec!["x"]);
}

#[test]
fn builder_keeps_last_template() {
    let template = PromptBuilder::new().template("{{a}}").template("{{b}}").build().unwrap();
    assert_eq!(template.variables, vec!["b"]);
}

#[test]
fn non_string_values_render_as_json() {
    let template = PromptBuilder::new()
        .template("{{n}}|{{b}}|{{z}}|{{o}}")
        .build()
        .unwrap();
    let rendered = template
        .render(&object(&[
            ("n", JsonValue::Number("42".to_string())),
            ("b", JsonValue::Bool(true)),
            ("z", JsonValue::Null),
            (
                "o",
                object(&[(
                    "k",
                    JsonValue::Array(vec![text("a\"b"), JsonValue::Number("1.5".to_string())]),
                )]),
            ),
        ]))
        .unwrap();
    assert_eq!(rendered, "42|true|null|{\"k\":[\"a\\\"b\",1.5]}");
}

#[test]
fn non_object_context_is_rejected() {
    let template = PromptBuilder::new().template("{{a}}").build().unwrap();
    assert_eq!(
        template.render(&JsonValue::Array(vec![])),
        Err(BeaconError::InvalidContext(
            "prompt context must serialize to a JSON object".to_owned()
        ))
    );
}

#[test]
fn placeholder_with_spaces_is_not_replaced() {
    let template = PromptBuilder::new().template("Hi {{ name }}").build().unwrap();
    assert_eq!(template.variables, vec!["name"]);
    let rendered = template.render(&object(&[("name", text("Ann"))])).unwrap();
    assert_eq!(rendered, "Hi {{ name }}");
}

#[test]
fn every_occurrence_is_replaced() {
    let template = PromptBuilder::new().template("{{a}}{{a}}-{{a}}").build().unwrap();
    let rendered = template.render(&object(&[("a", text("x"))])).unwrap();
    assert_eq!(rendered, "xx-x");
}

#[test]
fn values_are_sanitized_when_inserted() {
    let template = PromptBuilder::new().template("[{{v}}]").build().unwrap();
    let rendered = template.render(&object(&[("v", text("a\u{1}b\nc"))])).unwrap();
    assert_eq!(rendered, "[ab\nc]");
}

#[test]
fn beacon_error_messages() {
    assert_eq!(BeaconError::MissingTemplate.message(), "template is required");
    assert_eq!(
        BeaconError::InvalidTemplate("x".to_owned()).message(),
        "invalid template: x"
    );
    assert_eq!(
        BeaconError::MissingVariable("b".to_owned()).message(),
        "missing template variable: b"
    );
    assert_eq!(
        BeaconError::InvalidContext("c".to_owned()).message(),
        "invalid context: c"
    );
}

#[test]
fn values_stay_verbatim_between_braces() {
    let template = PromptBuilder::new()
        .template("set { {{msg}} } and {{ msg }}")
        .build()
        .unwrap();
    let rendered = PromptOrchestrator
        .render_template(&template, &object(&[("msg", text("{{msg}} {x}"))]))
        .unwrap();
    assert_eq!(rendered, "set { {{msg}} {x} } and {{ msg }}");
}

#[test]
fn values_spelling_later_placeholders_stay_literal() {
    let template = PromptBuilder::new()
        .template("{{a}} {{b}}")
        .build()
        .unwrap();
    let rendered = PromptOrchestrator
        .render_template(&template, &object(&[("a", text("{{b}}")), ("b", text("x"))]))
        .unwrap();
    assert_eq!(rendered, "{{b}} x");
}
