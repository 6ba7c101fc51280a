use summon::gemini::{map_role, GeminiTransformer};
use summon::json::Json;
use summon::transformer::StreamContext;

fn make_transformer() -> GeminiTransformer {
    GeminiTransformer
}

fn make_ctx() -> StreamContext {
    StreamContext {
        model: "gemini-2.0-flash".into(),
        message_id: "msg_test456".into(),
        input_tokens: 0,
        output_tokens: 0,
        block_index: 0,
        started: false,
    }
}

fn obj(entries: Vec<(&str, Json)>) -> Json {
    Json::Obj(entries.into_iter().map(|(k, v)| (k.to_string(), v)).collect())
}

fn s(text: &str) -> Json {
    Json::Str(text.to_string())
}

#[test]
fn gemini_test_transform_request_basic() {
    let t = make_transformer();
    let body = obj(vec![
        ("model", s("gemini-2.0-flash")),
        ("system", s("도움이 되는 어시스턴트.")),
        ("max_tokens", Json::Int(100)),
        (
            "messages",
            Json::Arr(vec![
                obj(vec![("role", s("user")), ("content", s("안녕"))]),
                obj(vec![("role", s("assistant")), ("content", s("네, 안녕하세요!"))]),
                obj(vec![("role", s("user")), ("content", s("잘 지내?"))]),
            ]),
        ),
    ]);
    let result = t.transform_request(body, None, false).unwrap();

    assert_eq!(result.path, "/v1beta/models/gemini-2.0-flash:generateContent");

    assert!(result.body.get("model").is_none());
    assert!(result.body.get("stream").is_none());

    match result.body.get("systemInstruction") {
        Some(si) => match si.get("parts") {
            Some(Json::Arr(parts)) => {
                assert_eq!(parts[0].get("text"), Some(&s("도움이 되는 어시스턴트.")))
            }
            other => panic!("parts is not an array: {:?}", other),
        },
        None => panic!("systemInstruction missing"),
    }

    match result.body.get("contents") {
        Some(Json::Arr(contents)) => {
            assert_eq!(contents.len(), 3);
            assert_eq!(contents[0].get("role"), Some(&s("user")));
            assert_eq!(contents[1].get("role"), Some(&s("model")));
            assert_eq!(contents[2].get("role"), Some(&s("user")));
        }
        other => panic!("contents is not an array: {:?}", other),
    }

    match result.body.get("generationConfig") {
        Some(g) => assert_eq!(g.get("maxOutputTokens"), Some(&Json::Int(100))),
        None => panic!("generationConfig missing"),
    }
}

#[test]
fn test_transform_request_streaming_path() {
    let t = make_transformer();
    let body = obj(vec![
        ("model", s("gemini-2.0-flash")),
        ("max_tokens", Json::Int(10)),
        ("messages", Json::Arr(vec![])),
    ]);
    let result = t.transform_request(body, None, true).unwrap();
    assert!(result.path.contains("streamGenerateContent?alt=sse"));
}

#[test]
fn gemini_test_transform_request_model_map() {
    let t = make_transformer();
    let body = obj(vec![
        ("model", s("gemini-old")),
        ("max_tokens", Json::Int(10)),
        ("messages", Json::Arr(vec![])),
    ]);
    let result = t.transform_request(body, Some("gemini-2.0-flash"), false).unwrap();
    assert!(result.path.contains("gemini-2.0-flash"));
}

#[test]
fn gemini_test_transform_response() {
    let t = make_transformer();
    let body = obj(vec![
        (
            "candidates",
            Json::Arr(vec![obj(vec![
                ("content", obj(vec![("parts", Json::Arr(vec![obj(vec![("text", s("안녕하세요!"))])]))])),
                ("finishReason", s("STOP")),
            ])]),
        ),
        (
            "usageMetadata",
            obj(vec![("promptTokenCount", Json::Int(10)), ("candidatesTokenCount", Json::Int(5))]),
        ),
    ]);
    let result = t.transform_response(&body, "gemini-2.0-flash").unwrap();

    assert_eq!(result.get("type"), Some(&s("message")));
    assert_eq!(result.get("role"), Some(&s("assistant")));
    assert_eq!(result.get("model"), Some(&s("gemini-2.0-flash")));
    match result.get("content") {
        Some(Json::Arr(blocks)) => assert_eq!(blocks[0].get("text"), Some(&s("안녕하세요!"))),
        other => panic!("content is not an array: {:?}", other),
    }
    assert_eq!(result.get("stop_reason"), Some(&s("end_turn")));
    match result.get("usage") {
        Some(u) => {
            assert_eq!(u.get("input_tokens"), Some(&Json::Int(10)));
            assert_eq!(u.get("output_tokens"), Some(&Json::Int(5)));
        }
        None => panic!("usage missing"),
    }
}

#[test]
fn gemini_test_transform_response_max_tokens() {
    let t = make_transformer();
    let body = obj(vec![
        (
            "candidates",
            Json::Arr(vec![obj(vec![
                ("content", obj(vec![("parts", Json::Arr(vec![obj(vec![("text", s("..."))])]))])),
                ("finishReason", s("MAX_TOKENS")),
            ])]),
        ),
        (
            "usageMetadata",
            obj(vec![
                ("promptTokenCount", Json::Int(10)),
                ("candidatesTokenCount", Json::Int(100)),
            ]),
        ),
    ]);
    let result = t.transform_response(&body, "gemini-2.0-flash").unwrap();
    assert_eq!(result.get("stop_reason"), Some(&s("max_tokens")));
}

#[test]
fn gemini_test_stream_chunk_first() {
    let t = make_transformer();
    let mut ctx = make_ctx();
    let chunk =
        r#"{"candidates":[{"content":{"parts":[{"text":"안녕"}]}}],"usageMetadata":{"promptTokenCount":5}}"#;
    let events = t.transform_stream_chunk(chunk.as_bytes(), &mut ctx).unwrap();

    assert!(ctx.started);
    assert_eq!(events.len(), 2);
    assert!(events[0].contains("content_block_start"));
    assert!(events[1].contains("text_delta"));
    assert!(events[1].contains("안녕"));
    assert_eq!(ctx.input_tokens, 5);
}

#[test]
fn gemini_test_stream_chunk_finish() {
    let t = make_transformer();
    let mut ctx = make_ctx();
    ctx.started = true;
    let chunk = r#"{"candidates":[{"content":{"parts":[{"text":""}]},"finishReason":"STOP"}],"usageMetadata":{"promptTokenCount":10,"candidatesTokenCount":8}}"#;
    let events = t.transform_stream_chunk(chunk.as_bytes(), &mut ctx).unwrap();

    assert!(events.iter().any(|e| e.contains("content_block_stop")));
    assert!(events.iter().any(|e| e.contains("message_delta")));
    assert!(events.iter().any(|e| e.contains("end_turn")));
    assert_eq!(ctx.input_tokens, 10);
    assert_eq!(ctx.output_tokens, 8);
}

#[test]
fn gemini_test_stream_start_end_events() {
    let t = make_transformer();
    let mut ctx = make_ctx();

    let start = t.stream_start_events(&ctx);
    assert_eq!(start.len(), 1);
    assert!(start[0].contains("message_start"));
    assert!(start[0].contains("msg_test456"));

    let end = t.stream_end_events(&mut ctx);
    assert_eq!(end.len(), 1);
    assert!(end[0].contains("message_stop"));
}

#[test]
fn test_map_role_values() {
    assert_eq!(map_role("assistant"), "model");
    assert_eq!(map_role("user"), "user");
    assert_eq!(map_role("system"), "system");
}

#[test]
fn test_system_array_joined_with_newlines() {
    let t = make_transformer();
    let body = obj(vec![
        ("model", s("gemini-2.0-flash")),
        (
            "system",
            Json::Arr(vec![
                obj(vec![("text", s("first"))]),
                obj(vec![("type", s("image"))]),
                obj(vec![("text", s("second"))]),
            ]),
        ),
        ("messages", Json::Arr(vec![])),
    ]);
    let result = t.transform_request(body, None, false).unwrap();
    match result.body.get("systemInstruction") {
        Some(si) => match si.get("parts") {
            Some(Json::Arr(parts)) => {
                assert_eq!(parts[0].get("text"), Some(&s("first\nsecond")))
            }
            other => panic!("parts is not an array: {:?}", other),
        },
        None => panic!("systemInstruction missing"),
    }
}

#[test]
fn test_content_forms_become_parts() {
    let t = make_transformer();
    let body = obj(vec![
        ("model", s("gemini-2.0-flash")),
        (
            "messages",
            Json::Arr(vec![
                obj(vec![("role", s("user")), ("content", Json::Arr(vec![
                    obj(vec![("text", s("a"))]),
                    obj(vec![("text", Json::Int(3))]),
                    obj(vec![("text", s("b"))]),
                ]))]),
                obj(vec![("role", s("user")), ("content", Json::Null)]),
            ]),
        ),
    ]);
    let result = t.transform_request(body, None, false).unwrap();
    match result.body.get("contents") {
        Some(Json::Arr(contents)) => {
            match contents[0].get("parts") {
                Some(Json::Arr(parts)) => {
                    assert_eq!(parts.len(), 2);
                    assert_eq!(parts[0].get("text"), Some(&s("a")));
                    assert_eq!(parts[1].get("text"), Some(&s("b")));
                }
                other => panic!("parts is not an array: {:?}", other),
            }
            match contents[1].get("parts") {
                Some(Json::Arr(parts)) => {
                    assert_eq!(parts.len(), 1);
                    assert_eq!(parts[0].get("text"), Some(&s("")));
                }
                other => panic!("parts is not an array: {:?}", other),
            }
        }
        other => panic!("contents is not an array: {:?}", other),
    }
}
