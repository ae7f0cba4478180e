use fauxdb::bson::{Bson, Document};
use fauxdb::circuit_breaker::{
    CircuitBreaker, CircuitBreakerConfig, CircuitBreakerManager, CircuitOpen, CircuitState,
};
use fauxdb::cursor::{CursorError, CursorRegistry};
use fauxdb::error::FauxDBError;
use fauxdb::rate_limiter::{
    RateLimitConfig, RateLimitResult, RateLimitRule, RateLimitScope, RateLimiter, TokenBucket,
};
use fauxdb::shutdown::{ShutdownAction, ShutdownConfig, ShutdownManager, ShutdownReason};

fn numbered(n: i32) -> Vec<Document> {
    (0..n)
        .map(|i| {
            let mut d = Document::new();
            d.push("n".to_string(), Bson::Int32(i));
            d
        })
        .collect()
}

/// One guarded call: asks the breaker, and reports the outcome where the
/// call was let through.
fn call(b: &mut CircuitBreaker, succeeds: bool, now: u64) -> Result<(), String> {
    match b.begin_call(now) {
        Err(CircuitOpen { .. }) => Err("circuit open".to_string()),
        Ok(()) => {
            b.update_state(succeeds, now);
            if succeeds {
                Ok(())
            } else {
                Err("test error".to_string())
            }
        }
    }
}

#[test]
fn test_circuit_breaker_success() {
    let mut breaker = CircuitBreaker::new("test".to_string(), CircuitBreakerConfig::default());

    let result = breaker.call(|| Ok("success"), 0);
    assert!(result.is_ok());
    assert_eq!(breaker.get_state(0), CircuitState::Closed);
}

#[test]
fn test_circuit_breaker_failure() {
    let config = CircuitBreakerConfig {
        failure_threshold: 2,
        volume_threshold: 2,
        ..Default::default()
    };
    let mut breaker = CircuitBreaker::new("test".to_string(), config);

    let result: Result<&str, FauxDBError> =
        breaker.call(|| Err(FauxDBError::internal_error("test error")), 0);
    assert!(result.is_err());
    assert_eq!(breaker.get_state(0), CircuitState::Closed);

    let result: Result<&str, FauxDBError> =
        breaker.call(|| Err(FauxDBError::internal_error("test error")), 1);
    assert!(result.is_err());
    assert_eq!(breaker.get_state(1), CircuitState::Open);

    let mut ran = false;
    let result = breaker.call(
        || {
            ran = true;
            Ok("should not execute")
        },
        2,
    );
    assert!(result.is_err());
    assert!(!ran);
    assert_eq!(result, Err(FauxDBError::CircuitBreaker("circuit breaker is open".to_string())));
    assert_eq!(breaker.get_state(2), CircuitState::Open);
}

#[test]
fn test_circuit_breaker_recovery() {
    let config = CircuitBreakerConfig {
        failure_threshold: 1,
        success_threshold: 2,
        volume_threshold: 1,
        sleep_window_ms: 100,
        ..Default::default()
    };
    let mut breaker = CircuitBreaker::new("test".to_string(), config);

    let _: Result<&str, FauxDBError> =
        breaker.call(|| Err(FauxDBError::internal_error("test error")), 0);
    assert_eq!(breaker.get_state(0), CircuitState::Open);

    assert_eq!(breaker.get_state(150), CircuitState::HalfOpen);

    let _ = breaker.call(|| Ok("success1"), 150);
    let _ = breaker.call(|| Ok("success2"), 151);
    assert_eq!(breaker.get_state(151), CircuitState::Closed);
}

#[test]
fn breaker_counts_and_retry_hint() {
    let config = CircuitBreakerConfig {
        failure_threshold: 2,
        success_threshold: 1,
        timeout_ms: 1000,
        volume_threshold: 3,
        sleep_window_ms: 500,
    };
    let mut b = CircuitBreaker::new("db".to_string(), config);
    // two failures do not open the breaker before the volume is reached
    assert!(call(&mut b, false, 10).is_err());
    assert!(call(&mut b, false, 20).is_err());
    assert_eq!(b.get_state(20), CircuitState::Closed);
    assert!(b.should_allow_request(20));
    assert_eq!(b.get_retry_after_ms(20), None);
    assert!(call(&mut b, false, 30).is_err());
    assert_eq!(b.get_state(30), CircuitState::Open);
    assert!(!b.should_allow_request(30));
    assert_eq!(b.get_retry_after_ms(30), Some(500));
    assert_eq!(b.get_retry_after_ms(130), Some(400));
    assert_eq!(b.begin_call(130), Err(CircuitOpen { retry_after_ms: 400 }));
    assert_eq!(b.get_state(529), CircuitState::Open);
    assert_eq!(b.get_state(530), CircuitState::HalfOpen);
    assert!(b.should_allow_request(530));
    // a failed probe opens the breaker again
    assert!(call(&mut b, false, 530).is_err());
    assert_eq!(b.get_state(531), CircuitState::Open);
    assert_eq!(b.get_retry_after_ms(531), Some(499));
    assert!(call(&mut b, true, 1030).is_ok());
    assert_eq!(b.get_state(1030), CircuitState::Closed);
    let m = b.get_metrics();
    assert_eq!(m.circuit_opens, 2);
    assert_eq!(m.circuit_closes, 1);
    assert_eq!(m.failed_requests, 4);
    assert_eq!(m.successful_requests, 1);
    b.reset();
    assert_eq!(b.get_state(2000), CircuitState::Closed);
    assert_eq!(b.get_metrics().total_requests, 0);
    assert_eq!(CircuitState::Closed.as_str(), "closed");
    assert_eq!(CircuitState::Open.as_str(), "open");
    assert_eq!(CircuitState::HalfOpen.as_str(), "half_open");
}

#[test]
fn breaker_manager_keeps_one_breaker_per_name() {
    let mut m = CircuitBreakerManager::new();
    let a = m.get_or_create("a".to_string(), CircuitBreakerConfig::default());
    let b = m.get_or_create("b".to_string(), CircuitBreakerConfig::default());
    let other = CircuitBreakerConfig { failure_threshold: 1, ..Default::default() };
    let again = m.get_or_create("a".to_string(), other);
    assert_eq!(a, again);
    assert_ne!(a, b);
    assert_eq!(m.list_breakers(), vec!["a".to_string(), "b".to_string()]);
    assert_eq!(m.get_breaker("a").unwrap().config.failure_threshold, 5);
    assert!(m.get_breaker("c").is_none());
    assert_eq!(m.get_all_metrics().len(), 2);
    let i = m.get_or_create("a".to_string(), CircuitBreakerConfig::default());
    m.breakers[i].update_state(false, 1);
    assert_eq!(m.breakers[i].get_metrics().failed_requests, 1);
    m.reset_all();
    assert_eq!(m.list_breakers(), vec!["a".to_string(), "b".to_string()]);
    assert_eq!(m.breakers[i].get_metrics().failed_requests, 0);
    assert_eq!(m.breakers[i].get_state(2), CircuitState::Closed);
}

#[test]
fn test_rate_limiter_basic() {
    let mut limiter = RateLimiter::new();
    limiter.create_default_rules();

    let scope = RateLimitScope::Global;

    let result = limiter.check_rate_limit("global", &scope, 0).unwrap();
    assert!(result.is_allowed());

    let status = limiter.get_rate_limit_status("global", &scope, 0).unwrap();
    assert_eq!(status.rule_name, "global");
    assert!(status.tokens_available < status.tokens_limit);
}

#[test]
fn test_rate_limiter_per_user() {
    let mut limiter = RateLimiter::new();
    limiter.create_default_rules();

    let user1_scope = RateLimitScope::PerUser("user1".to_string());
    let user2_scope = RateLimitScope::PerUser("user2".to_string());

    let result1 = limiter.check_rate_limit("per_user", &user1_scope, 0).unwrap();
    let result2 = limiter.check_rate_limit("per_user", &user2_scope, 0).unwrap();

    assert!(result1.is_allowed());
    assert!(result2.is_allowed());
}

#[test]
fn burst_is_admitted_and_the_next_request_is_not() {
    let mut limiter = RateLimiter::new();
    limiter.add_rule(RateLimitRule {
        name: "r".to_string(),
        config: RateLimitConfig {
            requests_per_second: 2,
            burst_size: 5,
            window_size_seconds: 60,
            enabled: true,
        },
        scope: RateLimitScope::Global,
    });
    let scope = RateLimitScope::PerIP("10.0.0.1".to_string());
    for _ in 0..5 {
        assert_eq!(limiter.check_rate_limit("r", &scope, 1000), Ok(RateLimitResult::Allowed));
    }
    let refused = limiter.check_rate_limit("r", &scope, 1000).unwrap();
    assert!(!refused.is_allowed());
    assert_eq!(
        refused,
        RateLimitResult::RateLimited { retry_after_seconds: 1, limit: 2, window_seconds: 60 }
    );
    assert_eq!(refused.retry_after_seconds(), Some(1));
    // another scope has a bucket of its own
    let other = RateLimitScope::PerIP("10.0.0.2".to_string());
    assert_eq!(limiter.check_rate_limit("r", &other, 1000), Ok(RateLimitResult::Allowed));
    // after a second two tokens are back
    assert!(limiter.check_rate_limit("r", &scope, 2000).unwrap().is_allowed());
    assert!(limiter.check_rate_limit("r", &scope, 2000).unwrap().is_allowed());
    assert!(!limiter.check_rate_limit("r", &scope, 2000).unwrap().is_allowed());
    assert!(matches!(
        limiter.check_rate_limit("missing", &scope, 2000),
        Err(FauxDBError::Configuration(_))
    ));
    assert!(matches!(
        limiter.get_rate_limit_status("missing", &scope, 2000),
        Err(FauxDBError::Configuration(_))
    ));
    let status = limiter.get_rate_limit_status("r", &scope, 2000).unwrap();
    assert_eq!(status.tokens_available, 0);
    assert_eq!(status.tokens_limit, 5);
    assert_eq!(status.time_until_next_token_ms, 500);
    assert_eq!(status.window_seconds, 60);
    let status = limiter.get_rate_limit_status("r", &scope, 2500).unwrap();
    assert_eq!(status.tokens_available, 1);
    assert_eq!(status.time_until_next_token_ms, 0);
}

#[test]
fn disabled_rule_admits_everything() {
    let mut limiter = RateLimiter::new();
    limiter.add_rule(RateLimitRule {
        name: "off".to_string(),
        config: RateLimitConfig {
            requests_per_second: 1,
            burst_size: 1,
            window_size_seconds: 60,
            enabled: false,
        },
        scope: RateLimitScope::Global,
    });
    for _ in 0..10 {
        assert!(limiter.check_rate_limit("off", &RateLimitScope::Global, 0).unwrap().is_allowed());
    }
}

#[test]
fn token_bucket_refills_up_to_its_capacity() {
    let mut b = TokenBucket::new(10, 4, 0);
    assert!(b.try_consume(10, 0));
    assert!(!b.try_consume(1, 0));
    assert!(!b.try_consume(1, 249));
    assert_eq!(b.tokens_available(500), 2);
    assert!(b.try_consume(2, 500));
    assert_eq!(b.time_until_next_token(), 250);
    assert_eq!(b.tokens_available(1_000_000), 10);
    assert_eq!(b.time_until_next_token(), 0);
    let mut slow = TokenBucket::new(1, 3, 0);
    assert!(slow.try_consume(1, 0));
    assert_eq!(slow.time_until_next_token(), 334);
    let mut never = TokenBucket::new(1, 0, 0);
    assert!(never.try_consume(1, 0));
    assert_eq!(never.time_until_next_token(), u64::MAX);
}

#[test]
fn bucket_keys_name_rule_and_scope() {
    assert_eq!(RateLimiter::get_bucket_key("r", &RateLimitScope::Global), "1:r:global");
    assert_eq!(
        RateLimiter::get_bucket_key("r", &RateLimitScope::PerUser("u".to_string())),
        "1:r:user:u"
    );
    assert_eq!(
        RateLimiter::get_bucket_key("per_ip", &RateLimitScope::PerIP("1.2.3.4".to_string())),
        "6:per_ip:ip:1.2.3.4"
    );
    assert_eq!(
        RateLimiter::get_bucket_key("r", &RateLimitScope::PerDatabase("d".to_string())),
        "1:r:db:d"
    );
    assert_eq!(
        RateLimiter::get_bucket_key(
            "r",
            &RateLimitScope::PerCollection("d".to_string(), "c".to_string())
        ),
        "1:r:coll:1:d:c"
    );
    assert_eq!(
        RateLimiter::get_bucket_key("a_rule_of_twenty_one", &RateLimitScope::Global),
        "20:a_rule_of_twenty_one:global"
    );
    assert_eq!(RateLimiter::get_bucket_key("", &RateLimitScope::Global), "0::global");
    assert_eq!(
        RateLimiter::get_bucket_key("\u{e9}t\u{e9}", &RateLimitScope::Global),
        "3:\u{e9}t\u{e9}:global"
    );
}

#[test]
fn bucket_keys_tell_scopes_apart() {
    let coll = |d: &str, c: &str| RateLimitScope::PerCollection(d.to_string(), c.to_string());
    let key = |rule: &str, scope: &RateLimitScope| RateLimiter::get_bucket_key(rule, scope);
    assert_ne!(key("r", &coll("a:b", "c")), key("r", &coll("a", "b:c")));
    assert_ne!(key("r", &coll("", "a")), key("r", &coll("a", "")));
    assert_ne!(
        key("r", &RateLimitScope::PerUser("x".to_string())),
        key("r:user", &RateLimitScope::PerDatabase("x".to_string()))
    );
    assert_ne!(
        key("r:user:x", &RateLimitScope::Global),
        key("r", &RateLimitScope::PerUser("x:global".to_string()))
    );
    assert_ne!(
        key("r", &RateLimitScope::PerUser("1".to_string())),
        key("r", &RateLimitScope::PerIP("1".to_string()))
    );
    assert_eq!(key("r", &coll("a", "b")), key("r", &coll("a", "b")));

    let mut limiter = RateLimiter::new();
    limiter.add_rule(RateLimitRule {
        name: "one".to_string(),
        config: RateLimitConfig {
            requests_per_second: 1,
            burst_size: 1,
            window_size_seconds: 60,
            enabled: true,
        },
        scope: RateLimitScope::Global,
    });
    let first = limiter.check_rate_limit("one", &coll("a:b", "c"), 0).unwrap();
    let second = limiter.check_rate_limit("one", &coll("a", "b:c"), 0).unwrap();
    let again = limiter.check_rate_limit("one", &coll("a:b", "c"), 0).unwrap();
    assert!(first.is_allowed());
    assert!(second.is_allowed());
    assert!(!again.is_allowed());
}

#[test]
fn idle_buckets_are_dropped() {
    let mut limiter = RateLimiter::new();
    limiter.create_default_rules();
    limiter.check_rate_limit("global", &RateLimitScope::Global, 0).unwrap();
    limiter.check_rate_limit("per_ip", &RateLimitScope::PerIP("a".to_string()), 3_000_000).unwrap();
    assert_eq!(limiter.cleanup(3_599_999), 0);
    assert_eq!(limiter.cleanup(3_600_000), 1);
    assert_eq!(limiter.buckets.len(), 1);
}

#[test]
fn test_shutdown_manager() {
    let config = ShutdownConfig::default();
    let mut manager = ShutdownManager::new(config);

    assert!(!manager.is_shutting_down());
    assert!(manager.shutdown_reason().is_none());

    manager.initiate_shutdown(ShutdownReason::Request, 0);

    assert!(manager.is_shutting_down());
    assert_eq!(manager.shutdown_reason(), Some(&ShutdownReason::Request));
}

#[test]
fn test_shutdown_subscription() {
    let config = ShutdownConfig::default();
    let mut manager = ShutdownManager::new(config);

    assert!(manager.initiate_shutdown(ShutdownReason::Signal(15), 0));

    // whoever asks afterwards learns the reason of the first call
    assert!(!manager.initiate_shutdown(ShutdownReason::Timeout, 5));
    assert_eq!(manager.shutdown_reason(), Some(&ShutdownReason::Signal(15)));
}

#[test]
fn shutdown_drains_then_closes_then_forces() {
    let config = ShutdownConfig {
        graceful_timeout_ms: 100,
        force_timeout_ms: 300,
        drain_timeout_ms: 50,
        signal_handling: true,
    };
    let mut m = ShutdownManager::new(config);
    assert!(m.accepts_connections());
    assert_eq!(m.next_action(0, 3), ShutdownAction::Continue);
    m.initiate_shutdown(ShutdownReason::Signal(2), 1000);
    assert!(!m.accepts_connections());
    assert_eq!(m.next_action(1000, 3), ShutdownAction::Drain { remaining_ms: 100 });
    assert_eq!(m.next_action(1099, 3), ShutdownAction::Drain { remaining_ms: 1 });
    assert_eq!(m.next_action(1100, 3), ShutdownAction::CloseConnections);
    assert_eq!(m.next_action(1299, 1), ShutdownAction::CloseConnections);
    assert_eq!(m.next_action(1300, 1), ShutdownAction::ForceExit);
    assert_eq!(m.next_action(1050, 0), ShutdownAction::Exit);
    assert_eq!(m.next_action(5000, 0), ShutdownAction::Exit);
    assert_eq!(ShutdownAction::Exit.exit_code(), Some(0));
    assert_eq!(ShutdownAction::ForceExit.exit_code(), Some(1));
    assert_eq!(ShutdownAction::Continue.exit_code(), None);
    assert_eq!(ShutdownReason::Signal(2).as_str(), "signal");
}

#[test]
fn cursor_hands_out_batches_in_order() {
    let mut r = CursorRegistry::new();
    let b = r.open("db.c".to_string(), numbered(5), 2, 0).unwrap();
    assert_eq!(b.documents, numbered(2));
    assert_ne!(b.cursor_id, 0);
    assert_eq!(b.namespace, "db.c");
    let id = b.cursor_id;
    assert!(r.contains(id));
    let b = r.get_more(id, None, 1).unwrap();
    assert_eq!(b.documents.len(), 2);
    assert_eq!(b.documents[0].get_i32("n"), Ok(2));
    assert_eq!(b.cursor_id, id);
    let b = r.get_more(id, Some(10), 2).unwrap();
    assert_eq!(b.documents.len(), 1);
    assert_eq!(b.documents[0].get_i32("n"), Ok(4));
    assert_eq!(b.cursor_id, 0);
    assert!(!r.contains(id));
    assert_eq!(r.get_more(id, None, 3).err(), Some(CursorError::CursorNotFound(id)));
}

#[test]
fn cursor_is_not_kept_for_a_result_that_fits() {
    let mut r = CursorRegistry::new();
    let b = r.open("db.c".to_string(), numbered(2), 2, 0).unwrap();
    assert_eq!(b.cursor_id, 0);
    assert_eq!(b.documents.len(), 2);
    assert_eq!(r.len(), 0);
    let b = r.open("db.c".to_string(), numbered(0), 0, 0).unwrap();
    assert_eq!(b.cursor_id, 0);
    assert!(b.documents.is_empty());
}

#[test]
fn cursors_get_fresh_ids_and_can_be_killed() {
    let mut r = CursorRegistry::new();
    let a = r.open("db.a".to_string(), numbered(3), 1, 0).unwrap().cursor_id;
    let b = r.open("db.b".to_string(), numbered(3), 1, 0).unwrap().cursor_id;
    assert_ne!(a, b);
    assert!(r.kill(a));
    assert!(!r.kill(a));
    let c = r.open("db.c".to_string(), numbered(3), 1, 0).unwrap().cursor_id;
    assert_ne!(c, a);
    assert_ne!(c, b);
    let (killed, missing) = r.kill_cursors(&vec![b, a, 999, c]);
    assert_eq!(killed, vec![b, c]);
    assert_eq!(missing, vec![a, 999]);
    assert_eq!(r.len(), 0);
    r.open("db.a".to_string(), numbered(3), 1, 0).unwrap();
    r.open("db.a".to_string(), numbered(3), 1, 0).unwrap();
    assert_eq!(r.close_all(), 2);
    assert_eq!(r.len(), 0);
}
