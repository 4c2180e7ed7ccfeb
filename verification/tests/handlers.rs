use fxpipe::config::{AppConfig, LlmConfig};
use fxpipe::extract::Provenance;
use fxpipe::handlers::{
    assemble_response, call_from_strings, chat_completions, classify_reply, decode_function_call,
    error_response, forward_request, get_models, normalize_message, shape_message,
    upstream_headers, UpstreamError,
};
use fxpipe::models::{ChatCompletionRequest, FunctionCall, Message, MessageResponse, Model};

fn mock_config(api_key: Option<&str>) -> AppConfig {
    AppConfig {
        exposed_model_name: "test-model".to_string(),
        host: "0.0.0.0".to_string(),
        port: 0,
        llm_config: LlmConfig {
            endpoint: "http://example.com".to_string(),
            api_key: api_key.map(|k| k.to_string()),
            passthrough_model_name: "backend-model".to_string(),
        },
    }
}

fn text(content: &str) -> MessageResponse {
    MessageResponse {
        role: "assistant".to_string(),
        content: Some(content.to_string()),
        function_call: None,
    }
}

fn call(name: &str, arguments: &str) -> MessageResponse {
    MessageResponse {
        role: "assistant".to_string(),
        content: None,
        function_call: Some(FunctionCall {
            name: name.to_string(),
            arguments: arguments.to_string(),
        }),
    }
}

#[test]
fn listing_shows_the_exposed_model_only() {
    let listing = get_models(&mock_config(None));
    assert_eq!(listing.data, vec![Model { id: "test-model".to_string() }]);
}

#[test]
fn forwarded_request_carries_the_upstream_model_name() {
    let config = mock_config(None);
    let request = ChatCompletionRequest {
        model: "gpt-4".to_string(),
        messages: vec![
            Message { role: "system".to_string(), content: "Be brief.".to_string() },
            Message { role: "user".to_string(), content: "Hello".to_string() },
        ],
    };
    let forwarded = forward_request(request, &config.llm_config);
    assert_eq!(forwarded.model, "backend-model");
    assert_eq!(
        forwarded.messages,
        vec![
            Message { role: "system".to_string(), content: "Be brief.".to_string() },
            Message { role: "user".to_string(), content: "Hello".to_string() },
        ]
    );
    assert_eq!(get_models(&config).data[0].id, "test-model");
}

#[test]
fn headers_carry_the_credential_where_there_is_one() {
    let content_type = ("Content-Type".to_string(), "application/json".to_string());
    assert_eq!(upstream_headers(&mock_config(None).llm_config), vec![content_type.clone()]);
    assert_eq!(upstream_headers(&mock_config(Some("")).llm_config), vec![content_type.clone()]);
    assert_eq!(
        upstream_headers(&mock_config(Some("s3")).llm_config),
        vec![content_type, ("Authorization".to_string(), "Bearer s3".to_string())]
    );
}

#[test]
fn a_call_needs_a_name_and_arguments() {
    assert_eq!(
        call_from_strings(Some("f".to_string()), Some("{}".to_string())),
        Some(FunctionCall { name: "f".to_string(), arguments: "{}".to_string() })
    );
    assert_eq!(
        call_from_strings(Some("f".to_string()), Some(String::new())),
        Some(FunctionCall { name: "f".to_string(), arguments: String::new() })
    );
    assert_eq!(call_from_strings(Some(String::new()), Some("{}".to_string())), None);
    assert_eq!(call_from_strings(None, Some("{}".to_string())), None);
    assert_eq!(call_from_strings(Some("f".to_string()), None), None);
    assert_eq!(call_from_strings(None, None), None);
}

#[test]
fn calls_are_read_from_both_payload_forms() {
    assert_eq!(
        decode_function_call(r#"{"name":"f","arguments":"{\"a\": 1}"}"#),
        Some(FunctionCall { name: "f".to_string(), arguments: r#"{"a": 1}"#.to_string() })
    );
    assert_eq!(
        decode_function_call(r#"{"function_call": {"name": "g", "arguments": "[]"}}"#),
        Some(FunctionCall { name: "g".to_string(), arguments: "[]".to_string() })
    );
    assert_eq!(
        decode_function_call(
            r#"{"name":"top","arguments":"1","function_call":{"name":"g","arguments":"2"}}"#
        ),
        Some(FunctionCall { name: "top".to_string(), arguments: "1".to_string() })
    );
    assert_eq!(
        decode_function_call(
            r#"{"name":"","arguments":"1","function_call":{"name":"g","arguments":"2"}}"#
        ),
        Some(FunctionCall { name: "g".to_string(), arguments: "2".to_string() })
    );
}

#[test]
fn payloads_without_a_call_give_none() {
    assert_eq!(decode_function_call(r#"{"key": "value"}"#), None);
    assert_eq!(decode_function_call(r#"{"name": "f"}"#), None);
    assert_eq!(decode_function_call(r#"{"name": "f", "arguments": {"a": 1}}"#), None);
    assert_eq!(decode_function_call(r#"{"name": 1, "arguments": "x"}"#), None);
    assert_eq!(decode_function_call("[1, 2]"), None);
    assert_eq!(decode_function_call("/name"), None);
    assert_eq!(decode_function_call("not json"), None);
    assert_eq!(decode_function_call(""), None);
}

#[test]
fn message_is_shaped_by_provenance_and_call() {
    let f = || Some(FunctionCall { name: "f".to_string(), arguments: "{}".to_string() });
    assert_eq!(shape_message("raw", Provenance::Strict, f()), call("f", "{}"));
    assert_eq!(shape_message("raw", Provenance::Scanned, f()), call("f", "{}"));
    assert_eq!(shape_message("raw", Provenance::Passthrough, f()), text("raw"));
    assert_eq!(shape_message("raw", Provenance::Strict, None), text("raw"));
    assert_eq!(shape_message("raw", Provenance::Scanned, None), text("raw"));
    assert_eq!(shape_message("", Provenance::Passthrough, None), text(""));
}

#[test]
fn reply_with_a_strict_call_becomes_a_call_message() {
    let reply = r#"Calling: {"function_call": {"name": "my_func", "arguments": "{\"arg1\": \"value1\"}"}}"#;
    assert_eq!(normalize_message(reply), call("my_func", r#"{"arg1": "value1"}"#));
}

#[test]
fn reply_with_a_scanned_call_becomes_a_call_message() {
    let reply = r#"Here: {"function_call": {"arguments": "{}", "name": "g"}} ok"#;
    assert_eq!(normalize_message(reply), call("g", "{}"));
    let flat = r#"Here: {"name": "h", "arguments": "[1]", "extra": true}"#;
    assert_eq!(normalize_message(flat), call("h", "[1]"));
}

#[test]
fn reply_without_a_call_stays_text() {
    assert_eq!(normalize_message("Hello there"), text("Hello there"));
    assert_eq!(normalize_message(""), text(""));
    let other = r#"The value is {"key": "value"}."#;
    assert_eq!(normalize_message(other), text(other));
    let flat = r#"{"name": "f", "arguments": "{}"}"#;
    assert_eq!(normalize_message(flat), call("f", "{}"));
    let not_json = r#"{name: f, arguments: {}}"#;
    assert_eq!(normalize_message(not_json), text(not_json));
}

#[test]
fn response_has_one_choice_for_each_reply() {
    let contents = vec![
        "Hello".to_string(),
        r#"{"function_call": {"name": "f", "arguments": "{}"}}"#.to_string(),
    ];
    let response = assemble_response(&contents, 17);
    assert_eq!(response.id, "chatcmpl-123");
    assert_eq!(response.object, "chat.completion");
    assert_eq!(response.created, 17);
    assert_eq!(response.choices.len(), 2);
    assert_eq!(response.choices[0].index, 0);
    assert_eq!(response.choices[0].message, text("Hello"));
    assert_eq!(response.choices[0].finish_reason, "stop");
    assert_eq!(response.choices[1].index, 1);
    assert_eq!(response.choices[1].message, call("f", "{}"));
    assert_eq!(response.choices[1].finish_reason, "stop");
    let none = assemble_response(&Vec::new(), 0);
    assert!(none.choices.is_empty());
}

#[test]
fn upstream_reply_becomes_one_choice() {
    let response = chat_completions(Ok("Hello".to_string()), 5);
    assert!(response.id.starts_with("chatcmpl-"));
    assert_eq!(response.object, "chat.completion");
    assert_eq!(response.created, 5);
    assert_eq!(response.choices.len(), 1);
    assert_eq!(response.choices[0].index, 0);
    assert_eq!(response.choices[0].message, text("Hello"));
    assert_eq!(response.choices[0].finish_reason, "stop");
}

#[test]
fn upstream_failure_becomes_an_error_response() {
    for failure in [UpstreamError::Transport, UpstreamError::Decode] {
        let response = chat_completions(Err(failure), 9);
        assert_eq!(response, error_response(9));
        assert!(response.id.starts_with("chatcmpl-"));
        assert_eq!(response.id, "chatcmpl-error");
        assert_eq!(response.object, "error");
        assert_eq!(response.created, 9);
        assert_eq!(response.choices.len(), 1);
        assert_eq!(response.choices[0].index, 0);
        assert_eq!(
            response.choices[0].message,
            text("An error occurred calling the upstream LLM.")
        );
        assert_eq!(response.choices[0].finish_reason, "error");
    }
}

#[test]
fn reply_is_the_body_unless_it_is_missing_or_empty_on_failure() {
    assert_eq!(classify_reply(true, Some("Hello".to_string())), Ok("Hello".to_string()));
    assert_eq!(classify_reply(true, Some(String::new())), Ok(String::new()));
    assert_eq!(
        classify_reply(false, Some("upstream says no".to_string())),
        Ok("upstream says no".to_string())
    );
    assert_eq!(classify_reply(false, Some(String::new())), Err(UpstreamError::Transport));
    assert_eq!(classify_reply(true, None), Err(UpstreamError::Decode));
    assert_eq!(classify_reply(false, None), Err(UpstreamError::Decode));
}
