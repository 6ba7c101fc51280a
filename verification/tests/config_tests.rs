use summon::config::{
    AuthConfig, Config, DefaultConfig, Fallback, RouteConfig, ServerConfig, UpstreamConfig,
};
use summon::json::Json;

fn plain_auth(header: &str, value: &str, pool: Option<Vec<String>>) -> AuthConfig {
    AuthConfig {
        auth_type: "api_key".into(),
        header: Some(header.into()),
        value: Some(value.into()),
        client_id: None,
        client_secret: None,
        refresh_token: None,
        token_url: None,
        pool,
    }
}

fn make_test_config() -> Config {
    Config {
        server: ServerConfig { host: "127.0.0.1".into(), port: 18081 },
        default: DefaultConfig { url: "https://api.anthropic.com".into() },
        routes: vec![RouteConfig {
            match_pattern: "zai".into(),
            upstream: UpstreamConfig {
                url: "https://api.z.ai".into(),
                auth: plain_auth("Authorization", "Bearer test", None),
            },
            transformer: None,
            model_map: None,
            fallback: Fallback::Passthrough,
            concurrency: None,
        }],
    }
}

#[test]
fn test_find_route_matches() {
    let config = make_test_config();
    let result = config.find_route("zai-model-v1");
    assert!(result.is_some());
    let (idx, route) = result.unwrap();
    assert_eq!(idx, 0);
    assert_eq!(route.upstream.url, "https://api.z.ai");
}

#[test]
fn test_find_route_no_match() {
    let config = make_test_config();
    assert!(config.find_route("nova-3-opus").is_none());
}

#[test]
fn test_find_route_first_match_wins() {
    let config = Config {
        server: ServerConfig { host: "127.0.0.1".into(), port: 18081 },
        default: DefaultConfig { url: "https://api.anthropic.com".into() },
        routes: vec![
            RouteConfig {
                match_pattern: "kimi".into(),
                upstream: UpstreamConfig {
                    url: "https://first.example.com".into(),
                    auth: plain_auth("Authorization", "Bearer first", None),
                },
                transformer: None,
                model_map: None,
                fallback: Fallback::Passthrough,
                concurrency: None,
            },
            RouteConfig {
                match_pattern: "kimi".into(),
                upstream: UpstreamConfig {
                    url: "https://second.example.com".into(),
                    auth: plain_auth("Authorization", "Bearer second", None),
                },
                transformer: None,
                model_map: None,
                fallback: Fallback::Passthrough,
                concurrency: None,
            },
        ],
    };
    let (idx, route) = config.find_route("kimi-latest").unwrap();
    assert_eq!(idx, 0);
    assert_eq!(route.upstream.url, "https://first.example.com");
}

#[test]
fn test_default_config_shape() {
    let c = Config::default_config();
    assert_eq!(c.server.host, "127.0.0.1");
    assert_eq!(c.server.port, 18081);
    assert_eq!(c.default.url, "https://api.anthropic.com");
    assert!(c.routes.is_empty());
}

#[test]
fn test_auth_defaults_and_all_values() {
    let a = AuthConfig {
        auth_type: "api_key".into(),
        header: None,
        value: None,
        client_id: None,
        client_secret: None,
        refresh_token: None,
        token_url: None,
        pool: Some(vec!["k2".into(), "k3".into()]),
    };
    assert_eq!(a.header_name(), "Authorization");
    assert_eq!(a.header_value(), "");
    assert!(a.has_pool());
    // The primary value stays index 0 even when it is empty.
    assert_eq!(a.all_values(), vec!["".to_string(), "k2".to_string(), "k3".to_string()]);
}

#[test]
fn test_fallback_setting_round_trip() {
    let cases = vec![
        Fallback::Disabled,
        Fallback::Passthrough,
        Fallback::Model("haiku-3-5".into()),
    ];
    for f in cases {
        let encoded = f.to_setting();
        let decoded = Fallback::from_setting(&encoded).unwrap();
        assert_eq!(decoded, f);
    }
}

#[test]
fn test_fallback_setting_values() {
    assert_eq!(Fallback::Disabled.to_setting(), Json::Bool(false));
    assert_eq!(Fallback::Passthrough.to_setting(), Json::Bool(true));
    assert_eq!(
        Fallback::Model("m1".into()).to_setting(),
        Json::Str("m1".into())
    );
    // The empty model name decodes to Disabled.
    assert_eq!(
        Fallback::from_setting(&Json::Str(String::new())),
        Some(Fallback::Disabled)
    );
    assert_eq!(Fallback::from_setting(&Json::Null), None);
    assert!(Fallback::Model("m".into()).is_enabled());
    assert!(Fallback::Passthrough.is_enabled());
    assert!(!Fallback::Disabled.is_enabled());
    assert_eq!(Fallback::Model("m".into()).model(), Some("m"));
    assert_eq!(Fallback::Passthrough.model(), None);
}
