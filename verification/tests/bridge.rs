use orchustr::bridge::{
    crate_bindings, invoke_crate_json, normalize_state_json, render_prompt_json,
    unsupported_provider, workspace_catalog_json, BridgeError, InvokeOutcome, ToolCrate,
};
use orchustr::json::JsonValue;

fn text(s: &str) -> JsonValue {
    JsonValue::Str(s.to_string())
}

fn object(members: Vec<(&str, JsonValue)>) -> JsonValue {
    JsonValue::Object(members.into_iter().map(|(k, v)| (k.to_string(), v)).collect())
}

#[test]
fn render_prompt_json_renders_template_with_json_context() {
    let result =
        render_prompt_json("Hello {{name}}", &object(vec![("name", text("Ralph"))])).unwrap();
    assert_eq!(result, "Hello Ralph");
}

#[test]
fn render_prompt_json_rejects_invalid_json_context() {
    let result = render_prompt_json("Hello {{name}}", &JsonValue::Array(vec![]));
    assert_eq!(result, Err(BridgeError::InvalidState));
}

#[test]
fn normalize_state_json_preserves_object_payloads() {
    let result =
        normalize_state_json(&object(vec![("count", JsonValue::Number("1".to_string()))]))
            .unwrap();
    assert!(result.contains("\"count\":1"));
}

#[test]
fn normalize_state_json_rejects_non_object_payloads() {
    let result = normalize_state_json(&JsonValue::Array(vec![
        JsonValue::Number("1".to_string()),
        JsonValue::Number("2".to_string()),
        JsonValue::Number("3".to_string()),
    ]));
    assert_eq!(result, Err(BridgeError::InvalidState));
}

#[test]
fn normalize_writes_compact_json() {
    let state = object(vec![
        ("a", JsonValue::Array(vec![JsonValue::Null, JsonValue::Bool(false)])),
        ("b", object(vec![("c", text("line\nbreak \u{1} \\ \"q\""))])),
    ]);
    assert_eq!(
        normalize_state_json(&state).unwrap(),
        "{\"a\":[null,false],\"b\":{\"c\":\"line\\nbreak \\u0001 \\\\ \\\"q\\\"\"}}"
    );
    assert_eq!(normalize_state_json(&object(vec![])).unwrap(), "{}");
}

#[test]
fn render_prompt_json_reports_template_errors_as_prompt_errors() {
    let result = render_prompt_json("Hello {{bad name}}", &object(vec![]));
    assert_eq!(
        result,
        Err(BridgeError::Prompt(
            "invalid template: invalid variable name: bad name".to_owned()
        ))
    );
    let result = render_prompt_json("Hello {{name}}", &object(vec![]));
    assert_eq!(
        result,
        Err(BridgeError::Prompt(
            "missing template variable: name".to_owned()
        ))
    );
}

#[test]
fn state_error_message_matches_the_bindings() {
    assert_eq!(
        BridgeError::InvalidState.message(),
        "state must serialize to a JSON object"
    );
    assert_eq!(
        BridgeError::UnsupportedOperation {
            crate_name: "or-core".to_owned(),
            operation: "x".to_owned()
        }
        .message(),
        "unsupported operation `x` for crate `or-core`"
    );
    assert_eq!(
        BridgeError::Invocation {
            crate_name: "or-beacon".to_owned(),
            operation: "render_template".to_owned(),
            reason: "boom".to_owned()
        }
        .message(),
        "bridge invocation failed for `or-beacon` / `render_template`: boom"
    );
    assert_eq!(
        BridgeError::InvalidJson("eof".to_owned()).message(),
        "invalid JSON payload: eof"
    );
    assert_eq!(
        BridgeError::UnsupportedCrate("or-x".to_owned()).message(),
        "unsupported crate binding: or-x"
    );
    assert_eq!(
        BridgeError::InvalidInput("bad".to_owned()).message(),
        "invalid bridge input: bad"
    );
    assert_eq!(BridgeError::Prompt("p".to_owned()).message(), "prompt render failed: p");
}

#[test]
fn unsupported_provider_names_provider_and_crate() {
    assert_eq!(
        unsupported_provider("or-tools-search", "nope"),
        BridgeError::InvalidInput("unsupported provider `nope` for `or-tools-search`".to_owned())
    );
}

#[test]
fn catalog_lists_every_crate_in_order() {
    let bindings = crate_bindings();
    assert_eq!(bindings.len(), 25);
    assert_eq!(bindings[0].crate_name, "or-core");
    assert_eq!(bindings[24].crate_name, "or-tools-productivity");
    assert_eq!(bindings[24].operations.len(), 10);
    let json = workspace_catalog_json().unwrap();
    assert!(json.starts_with(
        "[{\"crate_name\":\"or-core\",\"binding_mode\":\"native\",\"description\":\"Core orchestration utilities for token budgets and retry planning.\",\"operations\":[\"enforce_completion_budget\",\"next_retry_delay\"]},"
    ));
    assert!(json.ends_with("\"search_messages\"]}]"));
}

#[test]
fn invoke_beacon_renders_template() {
    let payload = object(vec![
        ("template", text("Hi {{who}}")),
        ("context", object(vec![("who", text("Bo"))])),
    ]);
    assert_eq!(
        invoke_crate_json("or-beacon", "render_template", &payload),
        InvokeOutcome::Done(Ok("{\"text\":\"Hi Bo\"}".to_owned()))
    );
}

#[test]
fn invoke_beacon_errors() {
    assert_eq!(
        invoke_crate_json("or-beacon", "nope", &object(vec![])),
        InvokeOutcome::Done(Err(BridgeError::UnsupportedOperation {
            crate_name: "or-beacon".to_owned(),
            operation: "nope".to_owned()
        }))
    );
    assert_eq!(
        invoke_crate_json("or-beacon", "render_template", &object(vec![])),
        InvokeOutcome::Done(Err(BridgeError::InvalidInput(
            "missing string `template` for `or-beacon` / `render_template`".to_owned()
        )))
    );
    assert_eq!(
        invoke_crate_json(
            "or-beacon",
            "render_template",
            &object(vec![("template", text("Hi {{who}}"))])
        ),
        InvokeOutcome::Done(Err(BridgeError::Invocation {
            crate_name: "or-beacon".to_owned(),
            operation: "render_template".to_owned(),
            reason: "missing template variable: who".to_owned()
        }))
    );
    assert_eq!(
        invoke_crate_json(
            "or-beacon",
            "render_template",
            &object(vec![("template", text("Hi")), ("context", text("x"))])
        ),
        InvokeOutcome::Done(Err(BridgeError::Invocation {
            crate_name: "or-beacon".to_owned(),
            operation: "render_template".to_owned(),
            reason: "invalid context: prompt context must serialize to a JSON object".to_owned()
        }))
    );
}

#[test]
fn invoke_bridge_operations() {
    let payload = object(vec![
        ("template", text("{{x}}!")),
        ("context", object(vec![("x", JsonValue::Number("7".to_string()))])),
    ]);
    assert_eq!(
        invoke_crate_json("or-bridge", "render_prompt_json", &payload),
        InvokeOutcome::Done(Ok("{\"text\":\"7!\"}".to_owned()))
    );
    let payload = object(vec![("state", object(vec![("k", JsonValue::Bool(true))]))]);
    assert_eq!(
        invoke_crate_json("or-bridge", "normalize_state_json", &payload),
        InvokeOutcome::Done(Ok("{\"state\":{\"k\":true}}".to_owned()))
    );
    assert_eq!(
        invoke_crate_json("or-bridge", "normalize_state_json", &object(vec![])),
        InvokeOutcome::Done(Ok("{\"state\":{}}".to_owned()))
    );
    assert_eq!(
        invoke_crate_json(
            "or-bridge",
            "normalize_state_json",
            &object(vec![("state", JsonValue::Null)])
        ),
        InvokeOutcome::Done(Err(BridgeError::InvalidState))
    );
    assert_eq!(
        invoke_crate_json("or-bridge", "other", &object(vec![])),
        InvokeOutcome::Done(Err(BridgeError::UnsupportedOperation {
            crate_name: "or-bridge".to_owned(),
            operation: "other".to_owned()
        }))
    );
}

#[test]
fn invoke_routes_tool_crates_and_refuses_unknown_ones() {
    assert_eq!(
        invoke_crate_json("or-tools-search", "search", &JsonValue::Null),
        InvokeOutcome::Delegated(ToolCrate::Search)
    );
    assert_eq!(
        invoke_crate_json("or-core", "next_retry_delay", &JsonValue::Null),
        InvokeOutcome::Delegated(ToolCrate::Core)
    );
    assert_eq!(
        invoke_crate_json("or-nothing", "x", &JsonValue::Null),
        InvokeOutcome::Done(Err(BridgeError::UnsupportedCrate("or-nothing".to_owned())))
    );
}
