use summon::config::Fallback;
use summon::json::Json;
use summon::jtext::json_to_string;
use summon::pipeline::{
    after_pool_forward, after_single_forward, apply_fallback_model, extract_model, is_auth_header,
    is_stream_request, on_permit_timeout, on_pool_exhausted, parse_retry_after, replace_model,
    session_hash, should_forward_header, NextAction, UpstreamOutcome,
};
use summon::semaphore::{AccountSemaphore, PermitOutcome};
use summon::sse::SseRewriter;
use summon::transformer::{create_transformer, TransformerKind};

#[test]
fn test_extract_model_reads_model_field() {
    assert_eq!(
        extract_model(br#"{"model":"glm-5","messages":[]}"#),
        Ok("glm-5".to_string())
    );
    assert_eq!(extract_model(b"not json"), Err(400));
    assert_eq!(extract_model(br#"{"messages":[]}"#), Err(400));
    assert_eq!(extract_model(br#"{"model":42}"#), Err(400));
}

#[test]
fn test_is_stream_request_reads_stream_flag() {
    assert!(is_stream_request(br#"{"stream":true}"#));
    assert!(!is_stream_request(br#"{"stream":false}"#));
    assert!(!is_stream_request(br#"{"stream":"true"}"#));
    assert!(!is_stream_request(br#"{}"#));
    assert!(!is_stream_request(b"garbage"));
}

#[test]
fn test_replace_model_rewrites_body() {
    let out = replace_model(br#"{"model":"a","x":1}"#, "b").unwrap();
    let parsed_model = extract_model(out.as_bytes()).unwrap();
    assert_eq!(parsed_model, "b");
    assert!(out.contains("\"x\":1"));
    assert_eq!(replace_model(br#"[1,2]"#, "b"), Err(400));
}

#[test]
fn test_apply_fallback_model_variants() {
    let body = br#"{"model":"glm-5"}"#;
    assert_eq!(apply_fallback_model(body, &Fallback::Passthrough), Ok(None));
    assert_eq!(apply_fallback_model(body, &Fallback::Disabled), Ok(None));
    let rewritten = apply_fallback_model(body, &Fallback::Model("fallback-model-1".into()))
        .unwrap()
        .unwrap();
    assert_eq!(extract_model(rewritten.as_bytes()).unwrap(), "fallback-model-1");
}

#[test]
fn test_parse_retry_after_values() {
    assert_eq!(parse_retry_after("5"), Some(5));
    assert_eq!(parse_retry_after("  120  "), Some(120));
    assert_eq!(parse_retry_after(""), None);
    assert_eq!(parse_retry_after("soon"), None);
    assert_eq!(parse_retry_after("12h"), None);
    assert_eq!(parse_retry_after("99999999999999999999999999"), None);
}

#[test]
fn test_is_auth_header_case_insensitive() {
    assert!(is_auth_header("x-api-key"));
    assert!(is_auth_header("X-Api-Key"));
    assert!(is_auth_header("Authorization"));
    assert!(is_auth_header("AUTHORIZATION"));
    assert!(!is_auth_header("content-type"));
}

#[test]
fn test_should_forward_header_rules() {
    assert!(!should_forward_header("Host", false, false));
    assert!(!should_forward_header("Content-Length", false, false));
    assert!(should_forward_header("Authorization", false, false));
    assert!(!should_forward_header("Authorization", true, false));
    assert!(!should_forward_header("x-api-key", true, false));
    assert!(should_forward_header("Content-Type", true, false));
    assert!(!should_forward_header("Content-Type", true, true));
    assert!(should_forward_header("accept", true, true));
}

#[test]
fn test_session_hash_stability_and_prefix() {
    let a = br#"{"system":"project alpha","messages":[]}"#;
    let b = br#"{"system":"project alpha","messages":["extra"]}"#;
    let c = br#"{"system":"project beta"}"#;
    assert_eq!(session_hash(a), session_hash(b));
    assert_ne!(session_hash(a), session_hash(c));
    let arr = br#"{"system":[{"type":"text","text":"project alpha"}]}"#;
    assert_eq!(session_hash(a), session_hash(arr));
    assert_eq!(session_hash(b"no json"), session_hash(br#"{"system":42}"#));
}

#[test]
fn test_decision_tree_pool_outcomes() {
    assert_eq!(
        after_pool_forward(true, &UpstreamOutcome::RateLimited(Some(5))),
        NextAction::RetryNextKey
    );
    assert_eq!(
        after_pool_forward(false, &UpstreamOutcome::RateLimited(None)),
        NextAction::RetryNextKey
    );
    assert_eq!(after_pool_forward(true, &UpstreamOutcome::Success), NextAction::ReturnResponse);
    assert_eq!(
        after_pool_forward(true, &UpstreamOutcome::HttpError(500)),
        NextAction::FallbackNow
    );
    assert_eq!(
        after_pool_forward(false, &UpstreamOutcome::HttpError(500)),
        NextAction::ReturnResponse
    );
    assert_eq!(
        after_pool_forward(true, &UpstreamOutcome::TransportError),
        NextAction::FallbackNow
    );
    assert_eq!(
        after_pool_forward(false, &UpstreamOutcome::TransportError),
        NextAction::FailWith(502)
    );
}

#[test]
fn test_decision_tree_edges() {
    assert_eq!(on_pool_exhausted(true), NextAction::FallbackNow);
    assert_eq!(on_pool_exhausted(false), NextAction::FailWith(429));
    assert_eq!(on_permit_timeout(true), NextAction::FallbackNow);
    assert_eq!(on_permit_timeout(false), NextAction::FailWith(503));
    assert_eq!(
        after_single_forward(false, &UpstreamOutcome::HttpError(404)),
        NextAction::ReturnResponse
    );
    assert_eq!(
        after_single_forward(false, &UpstreamOutcome::TransportError),
        NextAction::FailWith(502)
    );
    assert_eq!(
        after_single_forward(true, &UpstreamOutcome::TransportError),
        NextAction::FallbackNow
    );
}

#[test]
fn test_create_transformer_names() {
    assert_eq!(create_transformer("openai"), Some(TransformerKind::OpenAI));
    assert_eq!(create_transformer("gemini"), Some(TransformerKind::Gemini));
    assert_eq!(create_transformer("OpenAI"), None);
    assert_eq!(create_transformer(""), None);
}

#[test]
fn test_json_text_rendering() {
    let v = Json::Obj(vec![
        ("a".to_string(), Json::Int(7)),
        ("b".to_string(), Json::Str("x\n\"y\"".into())),
        ("c".to_string(), Json::Arr(vec![Json::Null, Json::Bool(true), Json::NumRaw("1.5".into())])),
    ]);
    assert_eq!(json_to_string(&v), r#"{"a":7,"b":"x\n\"y\"","c":[null,true,1.5]}"#);
}

#[test]
fn test_sse_rewriter_handles_split_frames() {
    let mut rw = SseRewriter::new(
        TransformerKind::OpenAI,
        "gpt-4o".into(),
        "msg_t1".into(),
    );
    let start = rw.start_events();
    assert_eq!(start.len(), 1);
    assert!(start[0].contains("message_start"));

    // A data line split across two frames must come out whole.
    let first = rw.push_frame(br#"data: {"choices":[{"delta":{"con"#);
    assert!(first.is_empty());
    let second = rw.push_frame("tent\":\"안녕\"},\"finish_reason\":null}]}\n".as_bytes());
    assert_eq!(second.len(), 2);
    assert!(second[0].contains("content_block_start"));
    assert!(second[1].contains("안녕"));

    // The [DONE] line is swallowed; finish adds exactly one message_stop.
    let third = rw.push_frame(b"data: [DONE]\n");
    assert!(third.is_empty());
    let end = rw.finish();
    assert_eq!(end.len(), 1);
    assert!(end[0].contains("message_stop"));
}

#[test]
fn test_sse_rewriter_residual_line() {
    let mut rw = SseRewriter::new(
        TransformerKind::Gemini,
        "gemini-2.0-flash".into(),
        "msg_t2".into(),
    );
    // No trailing newline: the line is handled when the stream closes.
    let got = rw.push_frame(
        r#"data: {"candidates":[{"content":{"parts":[{"text":"hi"}]}}]}"#.as_bytes(),
    );
    assert!(got.is_empty());
    let end = rw.finish();
    assert_eq!(end.len(), 3);
    assert!(end[0].contains("content_block_start"));
    assert!(end[1].contains("text_delta"));
    assert!(end[2].contains("message_stop"));
}

#[test]
fn test_account_semaphore_caps() {
    let config = summon::config::Config {
        server: summon::config::ServerConfig { host: "127.0.0.1".into(), port: 18081 },
        default: summon::config::DefaultConfig { url: "https://api.anthropic.com".into() },
        routes: vec![
            summon::config::RouteConfig {
                match_pattern: "glm".into(),
                upstream: summon::config::UpstreamConfig {
                    url: "https://open.bigmodel.cn".into(),
                    auth: summon::config::AuthConfig {
                        auth_type: "api_key".into(),
                        header: Some("Authorization".into()),
                        value: Some("Bearer k".into()),
                        client_id: None,
                        client_secret: None,
                        refresh_token: None,
                        token_url: None,
                        pool: None,
                    },
                },
                transformer: None,
                model_map: None,
                fallback: Fallback::Passthrough,
                concurrency: Some(1),
            },
        ],
    };
    let mut sem = AccountSemaphore::from_config(&config);
    let p1 = match sem.try_acquire(0) {
        PermitOutcome::Granted(p) => p,
        _ => panic!("first permit must be granted"),
    };
    assert!(matches!(sem.try_acquire(0), PermitOutcome::Exhausted));
    sem.release(p1);
    assert!(matches!(sem.try_acquire(0), PermitOutcome::Granted(_)));
    // A route without a cap (or out of range) needs no permit.
    assert!(matches!(sem.try_acquire(7), PermitOutcome::NoCapNeeded));
}
