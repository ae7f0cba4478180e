use fauxdb::bson::{Bson, Document};
use fauxdb::connection_pool::{
    Acquire, PoolError, PoolLimits, PoolState, ProductionPoolConfig,
};
use fauxdb::cursor::CursorRegistry;
use std::time::Duration;

fn limits() -> PoolLimits {
    PoolLimits { max_size: 2, max_lifetime_ms: 1000, idle_timeout_ms: 100, acquire_timeout_ms: 50 }
}

#[test]
fn test_connection_pool_creation() {
    let pool_config = ProductionPoolConfig {
        max_size: 10,
        min_idle: 2,
        max_lifetime: Duration::from_secs(1800),
        idle_timeout: Duration::from_secs(600),
        connection_timeout: Duration::from_secs(30),
        statement_cache_size: 100,
    };

    assert_eq!(pool_config.max_size, 10);
    assert_eq!(pool_config.min_idle, 2);
}

#[test]
fn default_pool_settings() {
    let c = ProductionPoolConfig::default();
    assert_eq!(c.max_size, 20);
    assert_eq!(c.min_idle, 5);
    assert_eq!(c.max_lifetime, Duration::from_secs(1800));
    assert_eq!(c.idle_timeout, Duration::from_secs(600));
    assert_eq!(c.connection_timeout, Duration::from_secs(10));
    assert_eq!(c.statement_cache_size, 1000);
}

#[test]
fn pool_never_hands_out_more_than_its_size() {
    let mut p = PoolState::new(limits());
    assert_eq!(p.acquire(), Acquire::Open);
    p.opened(true);
    assert_eq!(p.acquire(), Acquire::Open);
    p.opened(true);
    assert_eq!(p.acquire(), Acquire::Wait);
    assert_eq!(p.active, 2);
    assert_eq!(p.waited(49), Ok(()));
    assert_eq!(p.waited(50), Err(PoolError::PoolExhausted));
    assert!(p.release(1, 0, false, 10));
    assert_eq!(p.active + p.idle.len(), 2);
    assert_eq!(p.acquire(), Acquire::Reuse { id: 1, created_at: 0 });
    assert_eq!(p.acquire(), Acquire::Wait);
    let s = p.get_stats();
    assert_eq!((s.total_connections, s.active_connections, s.idle_connections), (2, 2, 0));
    assert_eq!(s.pool_size, 2);
}

#[test]
fn connections_that_failed_or_are_old_are_not_used_again() {
    let mut p = PoolState::new(limits());
    assert_eq!(p.acquire(), Acquire::Open);
    p.opened(false);
    assert_eq!(p.active, 0);
    assert_eq!(p.stats.connection_errors, 1);
    assert_eq!(p.acquire(), Acquire::Open);
    p.opened(true);
    assert!(!p.release(7, 0, true, 10));
    assert_eq!(p.stats.connection_errors, 2);
    assert_eq!((p.active, p.idle.len()), (0, 0));
    assert_eq!(p.acquire(), Acquire::Open);
    p.opened(true);
    assert!(!p.release(8, 0, false, 1001));
    assert_eq!(p.stats.connection_errors, 2);
    assert_eq!(p.acquire(), Acquire::Open);
    p.opened(true);
    assert!(p.release(9, 0, false, 1000));
    assert_eq!(p.idle.len(), 1);
}

#[test]
fn idle_connections_are_reaped() {
    let mut p = PoolState::new(PoolLimits { max_size: 5, ..limits() });
    for _ in 0..3 {
        assert_eq!(p.acquire(), Acquire::Open);
        p.opened(true);
    }
    assert!(p.release(1, 0, false, 100));
    assert!(p.release(2, 0, false, 150));
    assert!(p.release(3, 900, false, 950));
    assert_eq!(p.reap(200), Vec::<u64>::new());
    assert_eq!(p.reap(201), vec![1]);
    assert_eq!(p.idle.len(), 2);
    // the one that came back last is used first
    assert_eq!(p.acquire(), Acquire::Reuse { id: 3, created_at: 900 });
    // too old, though not idle for long
    assert!(p.release(3, 900, false, 1000));
    assert_eq!(p.reap(1001), vec![2]);
    assert_eq!(p.reap(1901), vec![3]);
    assert_eq!(p.idle.len(), 0);
}

#[test]
fn query_times_are_averaged() {
    let mut p = PoolState::new(limits());
    assert_eq!(p.get_stats().avg_query_micros, 0);
    p.record_query(100);
    p.record_query(301);
    let s = p.get_stats();
    assert_eq!(s.query_count, 2);
    assert_eq!(s.avg_query_micros, 200);
    p.record_query(u64::MAX);
    assert_eq!(p.stats.total_query_micros, u64::MAX);
    assert_eq!(PoolState::check_query_time(10, 10), Ok(()));
    assert_eq!(PoolState::check_query_time(11, 10), Err(PoolError::QueryTimeout));
}

fn numbered(n: i32) -> Vec<Document> {
    (0..n)
        .map(|i| {
            let mut d = Document::new();
            d.push("n".to_string(), Bson::Int32(i));
            d
        })
        .collect()
}

#[test]
fn idle_cursors_are_reaped() {
    let mut r = CursorRegistry::new();
    let a = r.open("db.a".to_string(), numbered(3), 1, 100).unwrap().cursor_id;
    let b = r.open("db.b".to_string(), numbered(3), 1, 200).unwrap().cursor_id;
    let c = r.open("db.c".to_string(), numbered(3), 1, 300).unwrap().cursor_id;
    assert_eq!(r.reap(300, 200), 0);
    assert_eq!(r.reap(301, 200), 1);
    assert!(!r.contains(a));
    assert!(r.contains(b) && r.contains(c));
    // using a cursor keeps it
    r.get_more(b, None, 450).unwrap();
    assert_eq!(r.reap(501, 200), 1);
    assert!(r.contains(b) && !r.contains(c));
    assert_eq!(r.reap(u64::MAX, 0), 1);
    assert_eq!(r.len(), 0);
    assert_eq!(r.reap(0, 0), 0);
}

#[test]
fn test_connection_pool_config() {
    let pool_config = ProductionPoolConfig {
        max_size: 100,
        min_idle: 5,
        max_lifetime: Duration::from_secs(3600),
        idle_timeout: Duration::from_secs(600),
        connection_timeout: Duration::from_secs(30),
        statement_cache_size: 100,
    };

    assert_eq!(pool_config.max_size, 100);
    assert_eq!(pool_config.min_idle, 5);
}
