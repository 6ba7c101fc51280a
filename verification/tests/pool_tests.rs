use summon::config::{
    AuthConfig, Config, DefaultConfig, Fallback, RouteConfig, ServerConfig, UpstreamConfig,
};
use summon::pool::{KeyPool, PoolGuard};

fn make_pool_config() -> Config {
    Config {
        server: ServerConfig { host: "127.0.0.1".into(), port: 18081 },
        default: DefaultConfig { url: "https://api.anthropic.com".into() },
        routes: vec![
            // Route 0: a pool of three keys, one concurrent request per key.
            RouteConfig {
                match_pattern: "glm-5".into(),
                upstream: UpstreamConfig {
                    url: "https://open.bigmodel.cn".into(),
                    auth: AuthConfig {
                        auth_type: "api_key".into(),
                        header: Some("Authorization".into()),
                        value: Some("Bearer key1".into()),
                        client_id: None,
                        client_secret: None,
                        refresh_token: None,
                        token_url: None,
                        pool: Some(vec!["Bearer key2".into(), "Bearer key3".into()]),
                    },
                },
                transformer: None,
                model_map: None,
                fallback: Fallback::Passthrough,
                concurrency: Some(1),
            },
            // Route 1: no pool.
            RouteConfig {
                match_pattern: "kimi".into(),
                upstream: UpstreamConfig {
                    url: "https://api.kimi.com".into(),
                    auth: AuthConfig {
                        auth_type: "api_key".into(),
                        header: Some("Authorization".into()),
                        value: Some("Bearer kimi-key".into()),
                        client_id: None,
                        client_secret: None,
                        refresh_token: None,
                        token_url: None,
                        pool: None,
                    },
                },
                transformer: None,
                model_map: None,
                fallback: Fallback::Passthrough,
                concurrency: None,
            },
        ],
    }
}

#[test]
fn test_acquire_least_connections() {
    let config = make_pool_config();
    let mut pool = KeyPool::from_config(&config);

    let k0 = pool.acquire(0).unwrap();
    let k1 = pool.acquire(0).unwrap();
    let k2 = pool.acquire(0).unwrap();

    assert_eq!(k0, 0);
    assert_eq!(k1, 1);
    assert_eq!(k2, 2);
}

#[test]
fn test_concurrency_limit_reached() {
    let config = make_pool_config();
    let mut pool = KeyPool::from_config(&config);

    pool.acquire(0).unwrap();
    pool.acquire(0).unwrap();
    pool.acquire(0).unwrap();

    assert!(pool.acquire(0).is_none());
}

#[test]
fn test_release_frees_slot() {
    let config = make_pool_config();
    let mut pool = KeyPool::from_config(&config);

    let k0 = pool.acquire(0).unwrap();
    pool.acquire(0).unwrap();
    pool.acquire(0).unwrap();

    assert!(pool.acquire(0).is_none());

    pool.release(0, k0);
    let k = pool.acquire(0).unwrap();
    assert_eq!(k, 0);
}

#[test]
fn test_no_pool_returns_none() {
    let config = make_pool_config();
    let mut pool = KeyPool::from_config(&config);

    assert!(pool.acquire(1).is_none());
}

#[test]
fn test_guard_auto_release() {
    let config = make_pool_config();
    let mut pool = KeyPool::from_config(&config);

    pool.acquire(0).unwrap();
    pool.acquire(0).unwrap();

    let k2 = pool.acquire(0).unwrap();
    let guard = PoolGuard::new(0, k2);
    assert!(pool.acquire(0).is_none());
    guard.release(&mut pool);

    let freed = pool.acquire(0).unwrap();
    assert_eq!(freed, 2);
}

#[test]
fn test_round_robin_sequential_requests() {
    let config = make_pool_config();
    let mut pool = KeyPool::from_config(&config);

    for expected in 0..3 {
        let k = pool.acquire(0).unwrap();
        assert_eq!(k, expected, "sequential request {} went to key {} instead", expected, k);
        pool.release(0, k);
    }

    for expected in 0..3 {
        let k = pool.acquire(0).unwrap();
        assert_eq!(k, expected, "second round {} was not key {}", expected, k);
        pool.release(0, k);
    }
}

#[test]
fn test_acquire_excluding_skips_keys() {
    let config = make_pool_config();
    let mut pool = KeyPool::from_config(&config);

    let k = pool.acquire_excluding(0, &[0]).unwrap();
    assert!(k == 1 || k == 2, "key {} selected despite key 0 being excluded", k);
    pool.release(0, k);

    let k = pool.acquire_excluding(0, &[0, 1]).unwrap();
    assert_eq!(k, 2);
    pool.release(0, k);

    assert!(pool.acquire_excluding(0, &[0, 1, 2]).is_none());
}

#[test]
fn test_acquire_excluding_respects_concurrency() {
    let config = make_pool_config();
    let mut pool = KeyPool::from_config(&config);

    let k0 = pool.acquire(0).unwrap();
    let k1 = pool.acquire(0).unwrap();
    let k2 = pool.acquire(0).unwrap();

    assert!(pool.acquire_excluding(0, &[]).is_none());

    pool.release(0, k2);
    let k = pool.acquire_excluding(0, &[k0, k1]).unwrap();
    assert_eq!(k, k2);
}

#[test]
fn test_cooldown_skips_key() {
    let config = make_pool_config();
    let mut pool = KeyPool::from_config(&config);

    pool.set_cooldown(0, 0, None);

    let k = pool.acquire(0).unwrap();
    assert_ne!(k, 0, "key 0 must not be selected while cooling down");
    pool.release(0, k);
}

#[test]
fn test_cooldown_with_retry_after() {
    let config = make_pool_config();
    let mut pool = KeyPool::from_config(&config);

    pool.set_cooldown(0, 0, Some(120));

    let k = pool.acquire(0).unwrap();
    assert_ne!(k, 0, "key 0 must not be selected while cooling down");
    pool.release(0, k);
}

#[test]
fn test_all_keys_cooldown_returns_none() {
    let config = make_pool_config();
    let mut pool = KeyPool::from_config(&config);

    pool.set_cooldown(0, 0, Some(60));
    pool.set_cooldown(0, 1, Some(60));
    pool.set_cooldown(0, 2, Some(60));

    assert!(pool.acquire(0).is_none());
}

#[test]
fn test_cooldown_excluded_in_acquire_excluding() {
    let config = make_pool_config();
    let mut pool = KeyPool::from_config(&config);

    pool.set_cooldown(0, 1, Some(60));
    let k = pool.acquire_excluding(0, &[0]).unwrap();
    assert_eq!(k, 2, "with key 0 excluded and key 1 cooling down only key 2 remains");
    pool.release(0, k);
}

#[test]
fn test_sticky_acquire_prefers_session_key() {
    let config = make_pool_config();
    let mut pool = KeyPool::from_config(&config);

    // Hash 5 over 3 keys points at key 2.
    let k = pool.acquire_sticky(0, 5).unwrap();
    assert_eq!(k, 2);
    pool.release(0, k);

    // With the session key cooling down, stickiness falls back to the scan.
    pool.set_cooldown(0, 2, Some(60));
    let k = pool.acquire_sticky(0, 5).unwrap();
    assert_ne!(k, 2);
}

#[test]
fn test_release_never_underflows() {
    let config = make_pool_config();
    let mut pool = KeyPool::from_config(&config);

    // Releasing a never-acquired key is a no-op that must be tolerated.
    pool.release(0, 1);
    pool.release(0, 99);
    pool.release(42, 0);

    let k0 = pool.acquire(0).unwrap();
    let k1 = pool.acquire(0).unwrap();
    let k2 = pool.acquire(0).unwrap();
    assert_eq!((k0, k1, k2), (0, 1, 2));
    assert!(pool.acquire(0).is_none());
}
