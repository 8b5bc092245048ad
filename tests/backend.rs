use immich_describe::backend::{
    accept_description, assemble_body, bearer_header, call_result, description_from_json,
    endpoint_url, image_field, request_body, request_deadline_secs, CallOutcome,
};
use immich_describe::config::Interface;
use immich_describe::error::ImageAnalysisError;
use immich_describe::json::JsonValue;
use immich_describe::llamacpp::LlamaCppResponse;
use immich_describe::ollama::ChatResponse;

fn response(status: u16, body: &str) -> CallOutcome {
    CallOutcome::Response { status, body: body.to_string() }
}

#[test]
fn empty_image_body() {
    let body = request_body(Interface::Ollama, "m", "p", b"");
    let v: serde_json::Value = serde_json::from_str(&body).unwrap();
    assert_eq!(v["messages"][0]["images"][0], "");
}

#[test]
fn image_field_per_backend() {
    assert_eq!(image_field(Interface::Ollama, "QUJD"), "QUJD");
    assert_eq!(image_field(Interface::Llamacpp, "QUJD"), "data:image/jpeg;base64,QUJD");
}

#[test]
fn assembled_body_text() {
    assert_eq!(
        assemble_body(Interface::Ollama, "\"m\"", "\"p\"", "\"i\""),
        r#"{"model":"m","messages":[{"role":"user","content":"p","images":["i"]}],"stream":false}"#
    );
    assert_eq!(
        assemble_body(Interface::Llamacpp, "\"m\"", "\"p\"", "\"u\""),
        r#"{"model":"m","messages":[{"role":"user","content":[{"type":"text","text":"p"},{"type":"image_url","image_url":{"url":"u"}}]}],"stream":false}"#
    );
}

#[test]
fn endpoint_urls() {
    assert_eq!(endpoint_url(Interface::Ollama, "http://h:11434/"), "http://h:11434/api/chat");
    assert_eq!(endpoint_url(Interface::Ollama, "http://h:11434"), "http://h:11434/api/chat");
    assert_eq!(
        endpoint_url(Interface::Llamacpp, "http://h:8080//"),
        "http://h:8080/v1/chat/completions"
    );
}

#[test]
fn ollama_body_shape() {
    let body = request_body(Interface::Ollama, "m1", "describe \"it\"", b"hello");
    let v: serde_json::Value = serde_json::from_str(&body).unwrap();
    assert_eq!(v["model"], "m1");
    assert_eq!(v["stream"], false);
    assert_eq!(v["messages"][0]["role"], "user");
    assert_eq!(v["messages"][0]["content"], "describe \"it\"");
    assert_eq!(v["messages"][0]["images"][0], "aGVsbG8=");
}

#[test]
fn llamacpp_body_shape() {
    let body = request_body(Interface::Llamacpp, "m2", "prompt", b"hello");
    let v: serde_json::Value = serde_json::from_str(&body).unwrap();
    assert_eq!(v["model"], "m2");
    assert_eq!(v["stream"], false);
    let content = &v["messages"][0]["content"];
    assert_eq!(content[0]["type"], "text");
    assert_eq!(content[0]["text"], "prompt");
    assert_eq!(content[1]["type"], "image_url");
    assert_eq!(content[1]["image_url"]["url"], "data:image/jpeg;base64,aGVsbG8=");
}

#[test]
fn bearer_only_for_llamacpp_with_key() {
    let key = Some("secret".to_string());
    assert_eq!(bearer_header(Interface::Llamacpp, &key), Some("Bearer secret".to_string()));
    assert_eq!(bearer_header(Interface::Llamacpp, &None), None);
    assert_eq!(bearer_header(Interface::Ollama, &key), None);
}

#[test]
fn deadline_is_one_second_longer() {
    assert_eq!(request_deadline_secs(30), 31);
    assert_eq!(request_deadline_secs(u64::MAX), u64::MAX);
}

#[test]
fn ollama_success_is_trimmed() {
    let r = call_result(
        Interface::Ollama,
        "f.jpg",
        response(200, r#"{"model":"m","message":{"role":"assistant","content":"  A cat. \n"}}"#),
    );
    assert_eq!(r.unwrap(), "A cat.");
}

#[test]
fn llamacpp_success_reads_first_choice() {
    let r = call_result(
        Interface::Llamacpp,
        "f.jpg",
        response(200, r#"{"choices":[{"message":{"content":"A dog"}},{"message":{"content":"x"}}]}"#),
    );
    assert_eq!(r.unwrap(), "A dog");
}

#[test]
fn llamacpp_tolerates_malformed_later_choices() {
    let r = call_result(
        Interface::Llamacpp,
        "f.jpg",
        response(200, r#"{"choices":[{"message":{"content":"ok"}},{"message":5}],"extra":[1,2]}"#),
    );
    assert_eq!(r.unwrap(), "ok");
}

#[test]
fn empty_content_is_empty_response() {
    let r = call_result(Interface::Ollama, "f.jpg", response(200, r#"{"message":{"content":"   "}}"#));
    assert!(matches!(r, Err(ImageAnalysisError::EmptyResponse { filename }) if filename == "f.jpg"));
}

#[test]
fn missing_content_is_empty_response() {
    let r = call_result(Interface::Llamacpp, "f.jpg", response(200, r#"{"choices":[]}"#));
    assert!(matches!(r, Err(ImageAnalysisError::EmptyResponse { .. })));
    let r = call_result(Interface::Ollama, "f.jpg", response(200, r#"{"message":{"content":7}}"#));
    assert!(matches!(r, Err(ImageAnalysisError::EmptyResponse { .. })));
}

#[test]
fn invalid_json_is_parse_error() {
    let r = call_result(Interface::Ollama, "f.jpg", response(200, "not json"));
    assert!(matches!(r, Err(ImageAnalysisError::JsonParsing { filename, .. }) if filename == "f.jpg"));
}

#[test]
fn error_status_is_http_error() {
    let r = call_result(Interface::Ollama, "f.jpg", response(500, "boom"));
    match r {
        Err(ImageAnalysisError::HttpError { status, filename, response }) => {
            assert_eq!(status, 500);
            assert_eq!(filename, "f.jpg");
            assert_eq!(response, "boom");
        }
        other => panic!("unexpected {:?}", other),
    }
}

#[test]
fn transport_failure_is_status_zero() {
    let r = call_result(
        Interface::Llamacpp,
        "f.jpg",
        CallOutcome::Transport { error: "refused".to_string() },
    );
    assert!(matches!(r, Err(ImageAnalysisError::HttpError { status: 0, .. })));
}

#[test]
fn timeouts_name_the_backend() {
    assert!(matches!(
        call_result(Interface::Ollama, "f", CallOutcome::TimedOut),
        Err(ImageAnalysisError::OllamaRequestTimeout)
    ));
    assert!(matches!(
        call_result(Interface::Llamacpp, "f", CallOutcome::TimedOut),
        Err(ImageAnalysisError::LlamaCppRequestTimeout)
    ));
}

#[test]
fn unreadable_body_is_processing_error() {
    let r = call_result(
        Interface::Ollama,
        "f.jpg",
        CallOutcome::Unreadable { error: "eof".to_string() },
    );
    assert!(matches!(r, Err(ImageAnalysisError::ProcessingError { .. })));
}

fn text(s: &str) -> JsonValue {
    JsonValue::Text(s.to_string())
}

fn object(fields: Vec<(&str, JsonValue)>) -> JsonValue {
    JsonValue::Object(fields.into_iter().map(|(k, v)| (k.to_string(), v)).collect())
}

#[test]
fn json_tree_lookup() {
    let v = object(vec![("a", object(vec![("b", JsonValue::Array(vec![JsonValue::Bool(true), text("t")]))]))]);
    let b = v.member("a").unwrap().member("b").unwrap();
    assert!(matches!(b.element(0), Some(JsonValue::Bool(true))));
    assert_eq!(b.element(1).unwrap().as_text().unwrap(), "t");
    assert!(b.element(2).is_none());
    assert!(v.member("zz").is_none());
    assert!(text("x").member("a").is_none());
}

#[test]
fn strict_chat_shape() {
    let good = object(vec![("message", object(vec![("content", text("hi"))]))]);
    assert_eq!(ChatResponse::from_json(&good).unwrap().message.content, "hi");
    let bad = object(vec![("message", object(vec![("content", JsonValue::Null)]))]);
    assert!(ChatResponse::from_json(&bad).is_none());
}

#[test]
fn strict_choices_shape() {
    let choice = |s: &str| object(vec![("message", object(vec![("content", text(s))]))]);
    let good = object(vec![("choices", JsonValue::Array(vec![choice("a"), choice("b")]))]);
    let r = LlamaCppResponse::from_json(&good).unwrap();
    assert_eq!(r.choices.len(), 2);
    assert_eq!(r.choices[1].message.content, "b");
    let mixed = object(vec![("choices", JsonValue::Array(vec![choice("a"), JsonValue::Null]))]);
    assert!(LlamaCppResponse::from_json(&mixed).is_none());
    // The field walk still finds the first answer.
    assert_eq!(description_from_json(Interface::Llamacpp, &mixed, "f").unwrap(), "a");
}

#[test]
fn description_from_tree() {
    let v = object(vec![("message", object(vec![("content", text("\t a bird \n"))]))]);
    assert_eq!(description_from_json(Interface::Ollama, &v, "f").unwrap(), "a bird");
    assert!(matches!(
        description_from_json(Interface::Llamacpp, &v, "f"),
        Err(ImageAnalysisError::EmptyResponse { .. })
    ));
    let empty = object(vec![("choices", JsonValue::Array(vec![]))]);
    assert!(matches!(
        description_from_json(Interface::Llamacpp, &empty, "f"),
        Err(ImageAnalysisError::EmptyResponse { .. })
    ));
}

#[test]
fn accepting_descriptions() {
    assert_eq!(accept_description("x".to_string(), "f").unwrap(), "x");
    assert!(matches!(
        accept_description(String::new(), "f"),
        Err(ImageAnalysisError::EmptyResponse { filename }) if filename == "f"
    ));
}
