use typomorph::cloud::{
    anthropic_reply_from, managed_reply_from, BlockLookup, anthropic_request_body, managed_request_body, parse_anthropic_response,
    parse_managed_response, Backend, CloudError, CloudTransport, PromptCloudClient,
    ANTHROPIC_ENDPOINT, DEFAULT_MANAGED_ENDPOINT,
};
use typomorph::improver::improve_rule_based;

struct MockTransport {
    response: String,
}

impl CloudTransport for MockTransport {
    fn post_json(&self, _endpoint: &str, _headers: &[(&str, &str)], _body: &str) -> Result<String, CloudError> {
        Ok(self.response.clone())
    }
}

struct FailingTransport;

impl CloudTransport for FailingTransport {
    fn post_json(&self, _endpoint: &str, _headers: &[(&str, &str)], _body: &str) -> Result<String, CloudError> {
        Err(CloudError::Network("offline".to_string()))
    }
}

#[test]
fn byok_parses_anthropic_text_block() {
    let client = PromptCloudClient::with_transport(MockTransport {
        response: r#"{"content":[{"text":"Improved prompt text.","type":"text"}]}"#.to_string(),
    });
    let result = client
        .improve("original", Backend::BringYourOwnKey { api_key: "sk-test" }, false)
        .unwrap();
    assert_eq!(result, "Improved prompt text.");
}

#[test]
fn byok_requires_a_non_empty_key() {
    let client = PromptCloudClient::with_transport(MockTransport { response: String::new() });
    let error = client
        .improve("original", Backend::BringYourOwnKey { api_key: "" }, false)
        .unwrap_err();
    assert!(matches!(error, CloudError::MissingApiKey));
}

#[test]
fn managed_backend_requires_pro_entitlement() {
    let client = PromptCloudClient::with_transport(MockTransport { response: String::new() });
    let error = client.improve("original", Backend::Managed, false).unwrap_err();
    assert!(matches!(error, CloudError::NotEntitled));
}

#[test]
fn managed_backend_parses_improved_field_when_entitled() {
    let client = PromptCloudClient::with_transport(MockTransport {
        response: r#"{"improved":"Better prompt."}"#.to_string(),
    });
    let result = client.improve("original", Backend::Managed, true).unwrap();
    assert_eq!(result, "Better prompt.");
}

#[test]
fn anthropic_error_response_surfaces_as_network_error() {
    let client = PromptCloudClient::with_transport(MockTransport {
        response: r#"{"error":{"message":"invalid x-api-key"}}"#.to_string(),
    });
    let error = client
        .improve("original", Backend::BringYourOwnKey { api_key: "bad" }, false)
        .unwrap_err();
    assert!(matches!(error, CloudError::Network(_)));
}

#[test]
fn falls_back_to_local_rule_based_improver_on_any_cloud_error() {
    let client = PromptCloudClient::with_transport(MockTransport { response: String::new() });
    let improved = client.improve_or_fallback("pls fix this", Backend::BringYourOwnKey { api_key: "" }, false);
    assert_eq!(improved, improve_rule_based("pls fix this"));
}

#[test]
fn anthropic_reply_takes_the_first_text_block_trimmed() {
    let raw = r#"{"content":[{"type":"tool_use","text":"no"},{"type":"text","text":"  first  "},{"type":"text","text":"second"}]}"#;
    assert_eq!(parse_anthropic_response(raw).unwrap(), "first");
}

#[test]
fn anthropic_reply_without_text_block_is_malformed() {
    for raw in [r#"{"content":[]}"#, r#"{"content":[{"type":"image"}]}"#, r#"{}"#, "not json"] {
        assert!(matches!(parse_anthropic_response(raw), Err(CloudError::MalformedResponse(_))), "{raw}");
    }
    match parse_anthropic_response(r#"{"content":[]}"#) {
        Err(CloudError::MalformedResponse(message)) => assert_eq!(message, "no text content block in response"),
        other => panic!("unexpected {other:?}"),
    }
}

#[test]
fn anthropic_error_message_is_passed_on() {
    match parse_anthropic_response(r#"{"error":{"message":"overloaded"}}"#) {
        Err(CloudError::Network(message)) => assert_eq!(message, "overloaded"),
        other => panic!("unexpected {other:?}"),
    }
}

#[test]
fn managed_reply_needs_the_improved_field() {
    match parse_managed_response(r#"{"other":1}"#) {
        Err(CloudError::MalformedResponse(message)) => assert_eq!(message, "missing 'improved' field"),
        other => panic!("unexpected {other:?}"),
    }
    assert_eq!(parse_managed_response(r#"{"improved":"  x  "}"#).unwrap(), "x");
}

#[test]
fn request_bodies_are_compact_json_with_escaped_text() {
    let body = anthropic_request_body("say \"hi\"\n", "test-model");
    let value: serde_json::Value = serde_json::from_str(&body).expect("valid json");
    assert_eq!(value["messages"][0]["content"], "say \"hi\"\n");
    assert_eq!(value["messages"][0]["role"], "user");
    assert_eq!(value["max_tokens"], 4096);
    assert_eq!(value["model"], "test-model");
    assert_eq!(value["output_config"]["effort"], "low");
    assert!(body.starts_with("{\"max_tokens\":4096,\"messages\":[{\"content\":\"say \\\"hi\\\"\\n\""));
    assert_eq!(managed_request_body("a\"b"), "{\"text\":\"a\\\"b\"}");
}

#[test]
fn transport_failure_is_passed_on_and_fallback_improves_locally() {
    let client = PromptCloudClient::with_transport(FailingTransport);
    let error = client.improve("x", Backend::Managed, true).unwrap_err();
    assert!(matches!(error, CloudError::Network(_)));
    assert_eq!(client.improve_or_fallback("pls go", Backend::Managed, true), "please go.");
}

#[test]
fn default_client_uses_the_default_endpoints() {
    let _ = PromptCloudClient::new();
    assert_eq!(ANTHROPIC_ENDPOINT, "https://api.anthropic.com/v1/messages");
    assert_eq!(DEFAULT_MANAGED_ENDPOINT, "https://cloud.typomorph.com/v1/improve-prompt");
}

struct CheckingTransport;

impl CloudTransport for CheckingTransport {
    fn post_json(&self, endpoint: &str, headers: &[(&str, &str)], body: &str) -> Result<String, CloudError> {
        assert_eq!(endpoint, "https://anthropic.test/v1/messages");
        assert_eq!(
            headers,
            [("Content-Type", "application/json"), ("x-api-key", "sk-9"), ("anthropic-version", "2023-06-01")]
        );
        let value: serde_json::Value = serde_json::from_str(body).unwrap();
        assert_eq!(value["model"], "test-model");
        assert_eq!(value["messages"][0]["content"], "hi");
        Ok(r#"{"content":[{"type":"text","text":"ok"}]}"#.to_string())
    }
}

#[test]
fn byok_sends_the_key_version_and_model_to_the_configured_endpoint() {
    let client = PromptCloudClient::with_endpoints(
        CheckingTransport,
        "https://anthropic.test/v1/messages",
        "https://managed.test",
    )
    .with_model("test-model");
    assert_eq!(client.improve("hi", Backend::BringYourOwnKey { api_key: "sk-9" }, false).unwrap(), "ok");
    let request = client.anthropic_request("hi", "sk-9");
    assert_eq!(request.endpoint, "https://anthropic.test/v1/messages");
    let managed = client.managed_request("hi");
    assert_eq!(managed.endpoint, "https://managed.test");
    assert_eq!(managed.body, "{\"text\":\"hi\"}");
    assert_eq!(managed.headers, vec![("Content-Type".to_string(), "application/json".to_string())]);
}

#[test]
fn request_text_is_escaped_like_serde_json() {
    let text = "a\u{1}b\t\"\\\u{1f}é";
    assert_eq!(managed_request_body(text), format!("{{\"text\":{}}}", serde_json::to_string(text).unwrap()));
    assert_eq!(managed_request_body("\u{1}\u{8}"), "{\"text\":\"\\u0001\\b\"}");
}

fn block(block_type: Option<&str>, text: Option<&str>) -> BlockLookup {
    BlockLookup { block_type: block_type.map(|t| t.to_string()), text: text.map(|t| t.to_string()) }
}

#[test]
fn lookups_give_first_text_block_trimmed() {
    let blocks = vec![block(Some("tool_use"), Some("skip me")), block(Some("text"), Some("  Better prompt. \n")), block(Some("text"), Some("second"))];
    let r = anthropic_reply_from(Ok(None), Ok(Some(blocks)));
    assert_eq!(r.unwrap(), "Better prompt.");
}

#[test]
fn lookups_with_error_message_give_network_error() {
    let r = anthropic_reply_from(Ok(Some("overloaded".to_string())), Ok(Some(vec![block(Some("text"), Some("x"))])));
    assert!(matches!(r, Err(CloudError::Network(m)) if m == "overloaded"));
}

#[test]
fn lookups_with_parser_failure_give_malformed() {
    let r = anthropic_reply_from(Err("expected value".to_string()), Ok(None));
    assert!(matches!(r, Err(CloudError::MalformedResponse(m)) if m == "expected value"));
    let r = anthropic_reply_from(Ok(None), Err("bad".to_string()));
    assert!(matches!(r, Err(CloudError::MalformedResponse(m)) if m == "bad"));
}

#[test]
fn lookups_without_text_block_give_malformed() {
    let r = anthropic_reply_from(Ok(None), Ok(None));
    assert!(matches!(r, Err(CloudError::MalformedResponse(m)) if m == "no text content block in response"));
    let r = anthropic_reply_from(Ok(None), Ok(Some(vec![block(Some("image"), Some("x")), block(None, Some("y"))])));
    assert!(matches!(r, Err(CloudError::MalformedResponse(m)) if m == "no text content block in response"));
    let r = anthropic_reply_from(Ok(None), Ok(Some(vec![block(Some("text"), None), block(Some("text"), Some("later"))])));
    assert!(matches!(r, Err(CloudError::MalformedResponse(m)) if m == "no text content block in response"));
}

#[test]
fn managed_lookup_gives_improved_field() {
    assert_eq!(managed_reply_from(Ok(Some("  Clear prompt.  ".to_string()))).unwrap(), "Clear prompt.");
    assert!(matches!(managed_reply_from(Ok(None)), Err(CloudError::MalformedResponse(m)) if m == "missing 'improved' field"));
    assert!(matches!(managed_reply_from(Err("eof".to_string())), Err(CloudError::MalformedResponse(m)) if m == "eof"));
}
