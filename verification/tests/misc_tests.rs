use fauxdb::bson::{Bson, Document};
use fauxdb::command_processor::CommandProcessor;
use fauxdb::connection::{Connection, FrameOutcome};
use fauxdb::circuit_breaker::{CircuitBreaker, CircuitBreakerConfig, CircuitState};
use fauxdb::codec::{decode, encode};
use fauxdb::geospatial::{
    GeoGeometry, GeoIndexType, GeoPoint, GeospatialEngine, LineString, LinearRing, Polygon,
};
use fauxdb::lifting::{lift_number, lift_string, parse_object_id};
use fauxdb::mongodb_commands::MongoDBCommandRegistry;
use fauxdb::monitoring::{
    ConnectionPoolCheck, DatabaseConnectivityCheck, PerformanceCheck, StorageSpaceCheck,
};
use fauxdb::process_manager::ProcessConfig;
use fauxdb::production_config::{ProductionConfig, ServerInfo};
use fauxdb::rate_limiter::{RateLimitResult, RateLimiter};
use fauxdb::replication::{
    can_accept_writes, get_write_concern, ReplicaSetMember, ReplicaSetState, ReplicationConfig,
    ReplicationManager, WriteConcern, WriteConcernW,
};
use fauxdb::shutdown::{ShutdownConfig, ShutdownManager, ShutdownReason};
use fauxdb::store::ObjectIdGenerator;
use fauxdb::transactions::TransactionStatus;
use fauxdb::wire_protocol::MessageHeader;
use std::time::Duration;

fn doc(entries: Vec<(&str, Bson)>) -> Document {
    let mut d = Document::new();
    for (k, v) in entries {
        d.push(k.to_string(), v);
    }
    d
}

#[test]
fn json_numbers_are_lifted_by_their_size() {
    let bits = f64::to_bits(0.5);
    assert_eq!(lift_number(Some(0), bits), Bson::Int32(0));
    assert_eq!(lift_number(Some(2147483647), bits), Bson::Int32(i32::MAX));
    assert_eq!(lift_number(Some(-2147483647), bits), Bson::Int32(-2147483647));
    assert_eq!(lift_number(Some(2147483648), bits), Bson::Int64(2147483648));
    assert_eq!(lift_number(Some(-2147483648), bits), Bson::Int64(-2147483648));
    assert_eq!(lift_number(Some(i64::MAX as i128), bits), Bson::Int64(i64::MAX));
    assert_eq!(lift_number(Some(-(i64::MAX as i128)), bits), Bson::Int64(-i64::MAX));
    assert_eq!(lift_number(Some(i64::MAX as i128 + 1), bits), Bson::Double(bits));
    assert_eq!(lift_number(Some(i64::MIN as i128), bits), Bson::Double(bits));
    assert_eq!(lift_number(None, bits), Bson::Double(bits));
}

#[test]
fn object_ids_are_lifted_under_the_id_only() {
    let hex = "0123456789abcdefABCDEF00";
    let bytes = [0x01, 0x23, 0x45, 0x67, 0x89, 0xab, 0xcd, 0xef, 0xab, 0xcd, 0xef, 0x00];
    assert_eq!(parse_object_id(hex), Some(bytes));
    assert_eq!(lift_string("_id", hex), Bson::ObjectId(bytes));
    assert_eq!(lift_string("other", hex), Bson::String(hex.to_string()));
    assert_eq!(lift_string("_id", "short"), Bson::String("short".to_string()));
    assert_eq!(parse_object_id("0123456789abcdefABCDEF0"), None);
    assert_eq!(parse_object_id("0123456789abcdefABCDEF000"), None);
    assert_eq!(parse_object_id("0123456789abcdefABCDEFg0"), None);
    assert_eq!(parse_object_id("0123456789abcdefABCDEF\u{e9}"), None);
    assert_eq!(parse_object_id(""), None);
}

#[test]
fn writes_need_a_primary_and_enough_members() {
    let concern = |w: WriteConcernW| WriteConcern { w, wtimeout: None, j: false, fsync: false };
    let primary = ReplicaSetState::Primary;
    assert!(can_accept_writes(primary, &concern(WriteConcernW::Number(2)), 2, 3));
    assert!(!can_accept_writes(primary, &concern(WriteConcernW::Number(3)), 2, 3));
    assert!(can_accept_writes(primary, &concern(WriteConcernW::Number(0)), 0, 3));
    assert!(can_accept_writes(primary, &concern(WriteConcernW::Majority), 2, 3));
    assert!(!can_accept_writes(primary, &concern(WriteConcernW::Majority), 1, 3));
    assert!(!can_accept_writes(primary, &concern(WriteConcernW::Majority), 2, 4));
    assert!(can_accept_writes(primary, &concern(WriteConcernW::Tagged("dc".to_string())), 0, 3));
    assert!(can_accept_writes(primary, &concern(WriteConcernW::String("x".to_string())), 0, 3));
    for state in [
        ReplicaSetState::Secondary,
        ReplicaSetState::Arbiter,
        ReplicaSetState::Down,
        ReplicaSetState::Recovering,
        ReplicaSetState::Unknown,
        ReplicaSetState::Rollback,
    ] {
        assert!(!can_accept_writes(state, &concern(WriteConcernW::Number(0)), 3, 3));
    }
    let d = get_write_concern(None);
    assert_eq!(d.w, WriteConcernW::Majority);
    assert_eq!(d.wtimeout, Some(Duration::from_secs(5)));
    assert!(d.j && !d.fsync);
    let given = get_write_concern(Some(concern(WriteConcernW::Number(1))));
    assert_eq!(given.w, WriteConcernW::Number(1));
    assert_eq!(ReplicaSetState::Primary.as_str(), "Primary");
    assert_eq!(ReplicaSetState::Rollback.as_str(), "Rollback");
    let c = ReplicationConfig::default();
    assert_eq!((c.heartbeat_interval_ms, c.election_timeout_ms, c.max_repl_lag_secs), (2000, 10000, 30));
}

#[test]
fn small_types() {
    assert!(TransactionStatus::Committed.is_finished());
    assert!(TransactionStatus::Aborted.is_finished());
    assert!(!TransactionStatus::Starting.is_finished());
    assert!(!TransactionStatus::InProgress.is_finished());
    assert_eq!(DatabaseConnectivityCheck.name(), "database_connectivity");
    assert_eq!(ConnectionPoolCheck.name(), "connection_pool");
    assert_eq!(StorageSpaceCheck.name(), "storage_space");
    assert_eq!(PerformanceCheck.name(), "performance");
    let p = ProcessConfig::default();
    assert_eq!(p.max_connections, 100);
    assert_eq!(p.process_timeout, Duration::from_secs(300));
    assert_eq!(p.connection_timeout, Duration::from_secs(30));
    assert_eq!(p.database_url, "postgresql://localhost/fauxdb");
    assert_eq!(p.log_level, "info");
    let _ = GeospatialEngine::new();
    assert_eq!(GeospatialEngine::key_value(GeoIndexType::Geo2D), "2d");
    assert_eq!(GeospatialEngine::key_value(GeoIndexType::Geo2DSphere), "2dsphere");
    assert_eq!(GeospatialEngine::key_value(GeoIndexType::GeoHaystack), "geoHaystack");
    let info = ServerInfo {
        version: "1.2.3".to_string(),
        uptime_seconds: 61,
        status: "running".to_string(),
        config: ProductionConfig::default(),
    };
    assert_eq!(info.to_string(), "FauxDB v1.2.3 - Status: running - Uptime: 61s");
}

#[test]
fn registry_lists_its_commands_in_order() {
    let r = MongoDBCommandRegistry::new();
    let names = r.get_supported_commands();
    assert_eq!(names.len(), 112);
    assert_eq!(names[0], "insert");
    assert_eq!(names[13], "countDocuments");
    assert_eq!(names[14], "distinct");
    assert_eq!(names[111], "buildinfo");
    assert!(names.iter().all(|n| r.is_supported_command(n)));
}

#[test]
fn consistency_can_be_tested() {
    let p = CommandProcessor::new("test", ObjectIdGenerator::new(1, [0; 5], 0), 1);
    assert!(p.is_consistent());
    let mut c = Connection::new(p);
    assert!(c.is_consistent());
    c.next_request_id = 0;
    assert!(!c.is_consistent());
    c.next_request_id = 1;
    c.processor.ids.counter = 0x1000000;
    assert!(!c.is_consistent());
    c.processor.ids.counter = 5;
    c.processor.cursors.next_id = 0;
    assert!(!c.is_consistent());
    let mut l = RateLimiter::new();
    l.create_default_rules();
    assert!(l.is_consistent());
    l.rules[2].config.requests_per_second = 0;
    assert!(!l.is_consistent());
    let mut s = ShutdownManager::new(ShutdownConfig::default());
    assert!(s.is_consistent());
    s.shutting_down = true;
    assert!(!s.is_consistent());
    s.shutting_down = false;
    s.initiate_shutdown(ShutdownReason::Timeout, 1);
    assert!(s.is_consistent());
}

fn ping_frame(request_id: u32) -> Vec<u8> {
    let payload = encode(&doc(vec![("ping", Bson::Int32(1))])).unwrap();
    let mut out = Vec::new();
    out.extend_from_slice(&((21 + payload.len()) as u32).to_le_bytes());
    out.extend_from_slice(&request_id.to_le_bytes());
    out.extend_from_slice(&0u32.to_le_bytes());
    out.extend_from_slice(&2013u32.to_le_bytes());
    out.extend_from_slice(&0u32.to_le_bytes());
    out.push(0);
    out.extend_from_slice(&payload);
    out
}

fn body_of(bytes: &[u8]) -> Document {
    decode(&bytes[21..]).unwrap().0
}

#[test]
fn connection_serves_frames_as_they_become_whole() {
    let p = CommandProcessor::new("test", ObjectIdGenerator::new(1, [0; 5], 0), 1);
    let mut c = Connection::new(p);
    let mut breaker = CircuitBreaker::new("dispatch".to_string(), CircuitBreakerConfig::default());
    let a = ping_frame(10);
    let b = ping_frame(11);
    c.feed(&a[..7]);
    assert_eq!(c.take_frame(), None);
    c.feed(&a[7..]);
    c.feed(&b);
    let first = c.take_frame().unwrap();
    assert_eq!(first, a);
    let second = c.take_frame().unwrap();
    assert_eq!(second, b);
    assert_eq!(c.take_frame(), None);

    let reply = match c.handle_frame(&first, RateLimitResult::Allowed, &mut breaker, 5) {
        FrameOutcome::Reply(bytes) => bytes,
        FrameOutcome::Close => panic!("a ping is answered"),
    };
    let h = MessageHeader::parse(&reply).unwrap();
    assert_eq!((h.request_id, h.response_to), (1, 10));
    assert_eq!(body_of(&reply), doc(vec![("ok", Bson::Double(f64::to_bits(1.0)))]));
    let reply = match c.handle_frame(&second, RateLimitResult::Allowed, &mut breaker, 5) {
        FrameOutcome::Reply(bytes) => bytes,
        FrameOutcome::Close => panic!("a ping is answered"),
    };
    let h = MessageHeader::parse(&reply).unwrap();
    assert_eq!((h.request_id, h.response_to), (2, 11));
    assert_eq!(breaker.get_metrics().successful_requests, 2);
}

#[test]
fn refused_requests_are_answered_without_being_served() {
    let p = CommandProcessor::new("test", ObjectIdGenerator::new(1, [0; 5], 0), 1);
    let mut c = Connection::new(p);
    let mut breaker = CircuitBreaker::new(
        "dispatch".to_string(),
        CircuitBreakerConfig { failure_threshold: 1, volume_threshold: 1, sleep_window_ms: 1000, ..Default::default() },
    );
    let limited = RateLimitResult::RateLimited { retry_after_seconds: 3, limit: 1, window_seconds: 60 };
    let reply = match c.handle_frame(&ping_frame(1), limited, &mut breaker, 5) {
        FrameOutcome::Reply(bytes) => body_of(&bytes),
        FrameOutcome::Close => panic!("framing is intact"),
    };
    assert_eq!(reply.get("ok"), Some(&Bson::Double(f64::to_bits(0.0))));
    assert_eq!(reply.get_i32("code"), Ok(16500));
    assert_eq!(reply.get("retryAfterSeconds"), Some(&Bson::Int64(3)));
    assert_eq!(breaker.get_metrics().total_requests, 0);

    breaker.update_state(false, 10);
    assert_eq!(breaker.get_state(10), CircuitState::Open);
    let reply = match c.handle_frame(&ping_frame(2), RateLimitResult::Allowed, &mut breaker, 20) {
        FrameOutcome::Reply(bytes) => {
            assert_eq!(MessageHeader::parse(&bytes).unwrap().response_to, 2);
            body_of(&bytes)
        }
        FrameOutcome::Close => panic!("framing is intact"),
    };
    assert_eq!(reply.get_i32("code"), Ok(189));
    assert_eq!(reply.get("retryAfterMs"), Some(&Bson::Int64(990)));

    // a body that is no document is answered, for the framing is intact
    let mut bad = ping_frame(3);
    let last = bad.len() - 1;
    bad[last] = 7;
    let reply = match c.handle_frame(&bad, RateLimitResult::Allowed, &mut breaker, 30) {
        FrameOutcome::Reply(bytes) => {
            let h = MessageHeader::parse(&bytes).unwrap();
            assert_eq!((h.request_id, h.response_to), (3, 3));
            body_of(&bytes)
        }
        FrameOutcome::Close => panic!("framing is intact"),
    };
    assert_eq!(reply.get("ok"), Some(&Bson::Double(f64::to_bits(0.0))));
    assert_eq!(reply.get_i32("code"), Ok(22));
    assert_eq!(reply.get_str("codeName"), Ok("InvalidBSON"));
    assert!(!c.closed);

    // a frame of an opcode that is not served closes the connection
    let mut other = ping_frame(4);
    other[12..16].copy_from_slice(&2002u32.to_le_bytes());
    assert_eq!(
        c.handle_frame(&other, RateLimitResult::Allowed, &mut breaker, 30),
        FrameOutcome::Close
    );
    assert!(c.closed);
    c.feed(&[1, 0, 0, 0]);
    assert_eq!(c.take_frame(), None);
}

#[test]
fn malformed_body_of_a_legacy_query_is_answered_with_a_reply() {
    let p = CommandProcessor::new("test", ObjectIdGenerator::new(1, [0; 5], 0), 1);
    let mut c = Connection::new(p);
    let mut breaker = CircuitBreaker::new("dispatch".to_string(), CircuitBreakerConfig::default());
    let mut query = encode(&doc(vec![("isMaster", Bson::Int32(1))])).unwrap();
    let last = query.len() - 1;
    query[last] = 9;
    let name = b"admin.$cmd\0";
    let len = 16 + 4 + name.len() + 8 + query.len();
    let mut frame = Vec::new();
    frame.extend_from_slice(&(len as u32).to_le_bytes());
    frame.extend_from_slice(&77u32.to_le_bytes());
    frame.extend_from_slice(&0u32.to_le_bytes());
    frame.extend_from_slice(&2004u32.to_le_bytes());
    frame.extend_from_slice(&0u32.to_le_bytes());
    frame.extend_from_slice(name);
    frame.extend_from_slice(&0i32.to_le_bytes());
    frame.extend_from_slice(&(-1i32).to_le_bytes());
    frame.extend_from_slice(&query);
    match c.handle_frame(&frame, RateLimitResult::Allowed, &mut breaker, 1) {
        FrameOutcome::Reply(bytes) => {
            let h = MessageHeader::parse(&bytes).unwrap();
            assert_eq!(h.op_code, fauxdb::wire_protocol::OpCode::Reply);
            assert_eq!(h.response_to, 77);
            let body = decode(&bytes[36..]).unwrap().0;
            assert_eq!(body.get_i32("code"), Ok(22));
        }
        FrameOutcome::Close => panic!("framing is intact"),
    }
}

fn point(longitude: f64, latitude: f64) -> GeoPoint {
    GeoPoint { longitude: longitude.to_bits(), latitude: latitude.to_bits() }
}

#[test]
fn geometries_are_checked() {
    let e = GeospatialEngine::new();
    let ok = |lon: f64, lat: f64| e.validate_point(&point(lon, lat));
    assert!(ok(0.0, 0.0));
    assert!(ok(-0.0, -0.0));
    assert!(ok(180.0, 90.0));
    assert!(ok(-180.0, -90.0));
    assert!(ok(179.99999999999997, 89.99999999999999));
    assert!(!ok(180.00000000000003, 0.0));
    assert!(!ok(-180.00000000000003, 0.0));
    assert!(!ok(0.0, 90.00000000000001));
    assert!(!ok(0.0, -90.00000000000001));
    assert!(!ok(f64::NAN, 0.0));
    assert!(!ok(0.0, f64::NAN));
    assert!(!ok(f64::INFINITY, 0.0));
    assert!(!ok(0.0, f64::NEG_INFINITY));
    for lon in [-200.0, -180.0, -1.5, 0.0, 1e-300, 179.0, 180.0, 181.0] {
        for lat in [-91.0, -90.0, -45.5, 0.0, 90.0, 90.5] {
            let expected = lon >= -180.0 && lon <= 180.0 && lat >= -90.0 && lat <= 90.0;
            assert_eq!(ok(lon, lat), expected, "{} {}", lon, lat);
        }
    }

    let line = |n: usize| LineString { points: (0..n).map(|i| point(i as f64, 0.0)).collect() };
    let ring = |n: usize| LinearRing { points: (0..n).map(|i| point(i as f64, 1.0)).collect() };
    assert!(!e.validate_line_string(&line(0)));
    assert!(!e.validate_line_string(&line(1)));
    assert!(e.validate_line_string(&line(2)));
    assert!(!e.validate_line_string(&LineString { points: vec![point(0.0, 0.0), point(0.0, 91.0)] }));
    assert!(!e.validate_polygon(&Polygon { rings: vec![] }));
    assert!(!e.validate_polygon(&Polygon { rings: vec![ring(3)] }));
    assert!(e.validate_polygon(&Polygon { rings: vec![ring(4)] }));
    assert!(!e.validate_polygon(&Polygon { rings: vec![ring(4), ring(2)] }));

    assert!(e.validate_geo_json(&GeoGeometry::Point(point(1.0, 1.0))));
    assert!(e.validate_geo_json(&GeoGeometry::MultiPoint(vec![])));
    assert!(!e.validate_geo_json(&GeoGeometry::MultiPoint(vec![point(0.0, 0.0), point(500.0, 0.0)])));
    assert!(e.validate_geo_json(&GeoGeometry::MultiLineString(vec![line(2), line(5)])));
    assert!(!e.validate_geo_json(&GeoGeometry::MultiLineString(vec![line(2), line(1)])));
    assert!(e.validate_geo_json(&GeoGeometry::MultiPolygon(vec![Polygon { rings: vec![ring(4)] }])));
    assert!(!e.validate_geo_json(&GeoGeometry::MultiPolygon(vec![Polygon { rings: vec![] }])));
    let nested = GeoGeometry::GeometryCollection(vec![
        GeoGeometry::LineString(line(2)),
        GeoGeometry::GeometryCollection(vec![GeoGeometry::Polygon(Polygon { rings: vec![ring(4)] })]),
    ]);
    assert!(e.validate_geo_json(&nested));
    let broken = GeoGeometry::GeometryCollection(vec![
        GeoGeometry::LineString(line(2)),
        GeoGeometry::GeometryCollection(vec![GeoGeometry::Point(point(0.0, 100.0))]),
    ]);
    assert!(!e.validate_geo_json(&broken));
    assert!(e.validate_geo_json(&GeoGeometry::GeometryCollection(vec![])));
}

fn replication_config() -> ReplicationConfig {
    ReplicationConfig {
        heartbeat_interval_ms: 1000,
        election_timeout_ms: 5000,
        max_oplog_size_mb: 1024,
        oplog_retention_hours: 24,
        sync_source_selection_delay_ms: 100,
        initial_sync_max_docs: 1000000,
        initial_sync_max_batch_size: 10000,
        max_repl_lag_secs: 60,
    }
}

#[test]
fn unit_tests_test_replication_manager() {
    let replication_manager = ReplicationManager::new(replication_config());
    assert!(!std::ptr::eq(&replication_manager, std::ptr::null()));
}

#[test]
fn integration_tests_test_replication_manager() {
    let replication_manager = ReplicationManager::new(replication_config());
    assert!(!std::ptr::eq(&replication_manager, std::ptr::null()));
    assert!(!replication_manager.can_accept_writes(&get_write_concern(None)));
}

fn member(id: u32, heard: bool) -> ReplicaSetMember {
    ReplicaSetMember {
        id,
        host: format!("host{}", id),
        port: 27017,
        state: ReplicaSetState::Secondary,
        votes: 1,
        hidden: false,
        arbiter_only: false,
        last_heartbeat: if heard { Some(1) } else { None },
    }
}

#[test]
fn replica_set_members_come_and_go() {
    let mut m = ReplicationManager::new(replication_config());
    assert!(!m.is_primary() && !m.is_secondary());
    m.initiate_replica_set("rs0".to_string(), vec![member(1, true), member(2, false)]);
    assert!(m.is_primary());
    assert_eq!(m.version, 1);
    assert_eq!(m.set_name, Some("rs0".to_string()));
    m.add_member(member(3, true));
    assert_eq!((m.get_total_members_count(), m.get_available_members_count(), m.version), (3, 2, 2));
    let majority = m.get_write_concern(None);
    assert!(m.can_accept_writes(&majority));
    m.remove_member(1);
    assert_eq!((m.get_total_members_count(), m.get_available_members_count(), m.version), (2, 1, 3));
    assert!(!m.can_accept_writes(&majority));
    let one = WriteConcern { w: WriteConcernW::Number(1), wtimeout: None, j: false, fsync: false };
    assert!(m.can_accept_writes(&one));
    m.step_down();
    assert!(m.is_secondary());
    assert!(!m.can_accept_writes(&one));
    m.become_primary();
    assert!(m.is_primary());
    m.remove_member(9);
    assert_eq!(m.get_total_members_count(), 2);
    let ids: Vec<u32> = m.members.iter().map(|x| x.id).collect();
    assert_eq!(ids, vec![2, 3]);
}

fn command(entries: Vec<(&str, Bson)>) -> Document {
    let mut d = Document::new();
    for (k, v) in entries {
        d.push(k.to_string(), v);
    }
    d
}

#[test]
fn commands_name_what_they_write() {
    let p = CommandProcessor::new("test", ObjectIdGenerator::new(1, [0; 5], 0), 1);
    let s = |t: &str| Bson::String(t.to_string());
    let target = |c: Document| p.write_target(&c);
    assert_eq!(
        target(command(vec![("insert", s("users")), ("$db", s("shop"))])),
        Some(("shop".to_string(), "users".to_string(), fauxdb::mongodb_commands::CommandKind::Insert))
    );
    assert_eq!(
        target(command(vec![("update", s("users"))])),
        Some(("test".to_string(), "users".to_string(), fauxdb::mongodb_commands::CommandKind::Update))
    );
    assert_eq!(
        target(command(vec![("delete", s("a")), ("$db", Bson::Int32(1))])),
        Some(("test".to_string(), "a".to_string(), fauxdb::mongodb_commands::CommandKind::Delete))
    );
    assert_eq!(
        target(command(vec![("create", s("a"))])),
        Some(("test".to_string(), "a".to_string(), fauxdb::mongodb_commands::CommandKind::Create))
    );
    assert_eq!(
        target(command(vec![("drop", s("a"))])),
        Some(("test".to_string(), "a".to_string(), fauxdb::mongodb_commands::CommandKind::Drop))
    );
    assert_eq!(target(command(vec![("find", s("a"))])), None);
    assert_eq!(target(command(vec![("ping", Bson::Int32(1))])), None);
    assert_eq!(target(command(vec![("insert", Bson::Int32(1))])), None);
    assert_eq!(target(command(vec![("$db", s("a")), ("insert", s("a"))])), None);
    assert_eq!(target(command(vec![("nothing", s("a"))])), None);
    assert_eq!(target(Document::new()), None);
}
