use summon::json::Json;
use summon::transformer::StreamContext;
use summon::openai::OpenAITransformer;

fn make_transformer() -> OpenAITransformer {
    OpenAITransformer
}

fn make_ctx() -> StreamContext {
    StreamContext {
        model: "gpt-4o".into(),
        message_id: "msg_test123".into(),
        input_tokens: 0,
        output_tokens: 0,
        block_index: 0,
        started: false,
    }
}

fn obj(entries: Vec<(&str, Json)>) -> Json {
    Json::Obj(entries.into_iter().map(|(k, v)| (k.to_string(), v)).collect())
}

fn s(text: &str) -> Json {
    Json::Str(text.to_string())
}

#[test]
fn openai_test_transform_request_basic() {
    let t = make_transformer();
    let body = obj(vec![
        ("model", s("gpt-4o")),
        ("system", s("너는 도움이 되는 어시스턴트야.")),
        ("max_tokens", Json::Int(100)),
        ("messages", Json::Arr(vec![obj(vec![("role", s("user")), ("content", s("안녕"))])])),
    ]);
    let result = t.transform_request(body, None, false).unwrap();

    assert_eq!(result.path, "/v1/chat/completions");
    assert!(result.body.get("system").is_none());
    assert!(result.body.get("max_tokens").is_none());
    assert_eq!(result.body.get("max_completion_tokens"), Some(&Json::Int(100)));

    match result.body.get("messages") {
        Some(Json::Arr(msgs)) => {
            assert_eq!(msgs.len(), 2);
            assert_eq!(msgs[0].get("role"), Some(&s("system")));
            assert_eq!(msgs[1].get("role"), Some(&s("user")));
        }
        other => panic!("messages is not an array: {:?}", other),
    }
}

#[test]
fn openai_test_transform_request_model_map() {
    let t = make_transformer();
    let body = obj(vec![
        ("model", s("gpt-old")),
        ("max_tokens", Json::Int(10)),
        ("messages", Json::Arr(vec![])),
    ]);
    let result = t.transform_request(body, Some("gpt-4o"), false).unwrap();
    assert_eq!(result.body.get("model"), Some(&s("gpt-4o")));
}

#[test]
fn test_transform_request_removes_anthropic_fields() {
    let t = make_transformer();
    let body = obj(vec![
        ("model", s("gpt-4o")),
        ("max_tokens", Json::Int(10)),
        ("top_k", Json::Int(5)),
        ("metadata", obj(vec![("user_id", s("test"))])),
        ("messages", Json::Arr(vec![])),
    ]);
    let result = t.transform_request(body, None, false).unwrap();
    assert!(result.body.get("top_k").is_none());
    assert!(result.body.get("metadata").is_none());
}

#[test]
fn test_transform_request_stop_sequences() {
    let t = make_transformer();
    let body = obj(vec![
        ("model", s("gpt-4o")),
        ("max_tokens", Json::Int(10)),
        ("stop_sequences", Json::Arr(vec![s("END")])),
        ("messages", Json::Arr(vec![])),
    ]);
    let result = t.transform_request(body, None, false).unwrap();
    assert!(result.body.get("stop_sequences").is_none());
    match result.body.get("stop") {
        Some(Json::Arr(stops)) => assert_eq!(stops[0], s("END")),
        other => panic!("stop is not an array: {:?}", other),
    }
}

#[test]
fn openai_test_transform_response() {
    let t = make_transformer();
    let body = obj(vec![
        (
            "choices",
            Json::Arr(vec![obj(vec![
                ("message", obj(vec![("content", s("안녕하세요!"))])),
                ("finish_reason", s("stop")),
            ])]),
        ),
        (
            "usage",
            obj(vec![("prompt_tokens", Json::Int(10)), ("completion_tokens", Json::Int(5))]),
        ),
    ]);
    let result = t.transform_response(&body, "gpt-4o").unwrap();

    assert_eq!(result.get("type"), Some(&s("message")));
    assert_eq!(result.get("role"), Some(&s("assistant")));
    assert_eq!(result.get("model"), Some(&s("gpt-4o")));
    match result.get("content") {
        Some(Json::Arr(blocks)) => {
            assert_eq!(blocks[0].get("type"), Some(&s("text")));
            assert_eq!(blocks[0].get("text"), Some(&s("안녕하세요!")));
        }
        other => panic!("content is not an array: {:?}", other),
    }
    assert_eq!(result.get("stop_reason"), Some(&s("end_turn")));
    match result.get("usage") {
        Some(u) => {
            assert_eq!(u.get("input_tokens"), Some(&Json::Int(10)));
            assert_eq!(u.get("output_tokens"), Some(&Json::Int(5)));
        }
        None => panic!("usage missing"),
    }
}

#[test]
fn openai_test_transform_response_max_tokens() {
    let t = make_transformer();
    let body = obj(vec![
        (
            "choices",
            Json::Arr(vec![obj(vec![
                ("message", obj(vec![("content", s("..."))])),
                ("finish_reason", s("length")),
            ])]),
        ),
        (
            "usage",
            obj(vec![("prompt_tokens", Json::Int(10)), ("completion_tokens", Json::Int(100))]),
        ),
    ]);
    let result = t.transform_response(&body, "gpt-4o").unwrap();
    assert_eq!(result.get("stop_reason"), Some(&s("max_tokens")));
}

#[test]
fn openai_test_stream_chunk_first() {
    let t = make_transformer();
    let mut ctx = make_ctx();
    let chunk = r#"{"choices":[{"delta":{"content":"안녕"},"finish_reason":null}]}"#;
    let events = t.transform_stream_chunk(chunk.as_bytes(), &mut ctx).unwrap();

    assert!(ctx.started);
    assert_eq!(events.len(), 2);
    assert!(events[0].contains("content_block_start"));
    assert!(events[1].contains("text_delta"));
    assert!(events[1].contains("안녕"));
}

#[test]
fn test_stream_chunk_done() {
    let t = make_transformer();
    let mut ctx = make_ctx();
    let events = t.transform_stream_chunk(b"[DONE]", &mut ctx).unwrap();
    assert!(events.is_empty());
}

#[test]
fn openai_test_stream_chunk_finish() {
    let t = make_transformer();
    let mut ctx = make_ctx();
    ctx.started = true;
    let chunk =
        r#"{"choices":[{"delta":{},"finish_reason":"stop"}],"usage":{"prompt_tokens":10,"completion_tokens":5}}"#;
    let events = t.transform_stream_chunk(chunk.as_bytes(), &mut ctx).unwrap();

    assert!(events.iter().any(|e| e.contains("content_block_stop")));
    assert!(events.iter().any(|e| e.contains("message_delta")));
    assert!(events.iter().any(|e| e.contains("end_turn")));
    assert_eq!(ctx.input_tokens, 10);
    assert_eq!(ctx.output_tokens, 5);
}

#[test]
fn openai_test_stream_start_end_events() {
    let t = make_transformer();
    let mut ctx = make_ctx();

    let start = t.stream_start_events(&ctx);
    assert_eq!(start.len(), 1);
    assert!(start[0].contains("message_start"));
    assert!(start[0].contains("msg_test123"));

    let end = t.stream_end_events(&mut ctx);
    assert_eq!(end.len(), 1);
    assert!(end[0].contains("message_stop"));
}

#[test]
fn test_stream_chunk_bad_json_is_error() {
    let t = make_transformer();
    let mut ctx = make_ctx();
    assert!(t.transform_stream_chunk(b"{not json", &mut ctx).is_err());
    assert!(!ctx.started);
}

#[test]
fn test_transform_request_non_object_is_error() {
    let t = make_transformer();
    assert!(t.transform_request(Json::Arr(vec![]), None, false).is_err());
    assert!(t.transform_request(Json::Null, None, true).is_err());
}

#[test]
fn test_transform_response_mints_message_id() {
    let t = make_transformer();
    let body = obj(vec![]);
    let result = t.transform_response(&body, "gpt-4o").unwrap();
    match result.get("id") {
        Some(Json::Str(id)) => {
            assert!(id.starts_with("msg_"));
            assert_eq!(id.len(), 36);
        }
        other => panic!("id is not a string: {:?}", other),
    }
    // Defaults when the body carries nothing usable.
    assert_eq!(result.get("stop_reason"), Some(&s("end_turn")));
    match result.get("content") {
        Some(Json::Arr(blocks)) => assert_eq!(blocks[0].get("text"), Some(&s(""))),
        other => panic!("content is not an array: {:?}", other),
    }
}
