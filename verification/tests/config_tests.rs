use fauxdb::config::{Config, SslConfig};
use fauxdb::error::{ErrorSeverity, FauxDBError};
use fauxdb::health::{
    classify_disk, classify_memory, determine_overall_status, HealthCheck, HealthState,
    MemoryMetrics,
};
use fauxdb::logger::{
    get_process_info, init_logger, ConnectionTracker, FauxDBLogEvent, FauxDBLogger, LogLevel,
};
use fauxdb::mongodb_commands::{CommandKind, MongoDBCommandRegistry};
use fauxdb::production_config::{
    ClusteringConfig, ConfigError, DatabaseConfig, LoggingConfig, MonitoringConfig,
    PerformanceConfig, ProductionConfig, RateLimitConfig, SecurityConfig, ServerConfig,
};
use fauxdb::ssl::SslManager;
use std::time::Duration;

fn sample_config() -> ProductionConfig {
    ProductionConfig {
        server: ServerConfig {
            host: "127.0.0.1".to_string(),
            port: 27018,
            max_connections: 100,
            connection_timeout: Duration::from_secs(30),
            keep_alive: Duration::from_secs(60),
            tcp_nodelay: true,
            worker_threads: Some(4),
        },
        database: DatabaseConfig {
            connection_string: "postgresql://localhost:5432/fauxdb".to_string(),
            pool_size: 10,
            max_lifetime: Duration::from_secs(3600),
            idle_timeout: Duration::from_secs(600),
            connection_timeout: Duration::from_secs(30),
            statement_cache_size: 100,
            enable_ssl: false,
            ssl_mode: "prefer".to_string(),
        },
        security: SecurityConfig {
            enable_auth: false,
            auth_mechanisms: vec!["SCRAM-SHA-256".to_string()],
            ssl_enabled: false,
            ssl_cert_path: None,
            ssl_key_path: None,
            ssl_ca_path: None,
            allowed_hosts: vec!["127.0.0.1".to_string()],
            rate_limiting: RateLimitConfig {
                enabled: false,
                requests_per_minute: 1000,
                burst_size: 100,
            },
        },
        performance: PerformanceConfig {
            query_cache_size: 1024 * 1024,
            query_cache_ttl: Duration::from_secs(3600),
            batch_size: 1000,
            parallel_workers: 4,
            memory_limit: "1GB".to_string(),
            enable_compression: true,
            compression_level: 6,
        },
        monitoring: MonitoringConfig {
            metrics_enabled: true,
            metrics_port: 9090,
            health_check_port: 9091,
            prometheus_endpoint: "/metrics".to_string(),
            enable_profiling: true,
            slow_query_threshold: Duration::from_secs(1),
        },
        logging: LoggingConfig {
            level: "info".to_string(),
            format: "json".to_string(),
            output: "stdout".to_string(),
            file_path: None,
            max_file_size: "100MB".to_string(),
            max_files: 5,
            enable_structured_logging: true,
        },
        clustering: ClusteringConfig {
            enabled: false,
            node_id: "node1".to_string(),
            cluster_nodes: vec![],
            election_timeout: Duration::from_secs(5),
            heartbeat_interval: Duration::from_secs(1),
            replication_factor: 3,
        },
    }
}

#[test]
fn test_config_loading() {
    let config = sample_config();
    assert!(config.validate().is_ok());

    let copy = config.clone();
    assert_eq!(config.server.port, copy.server.port);
    assert_eq!(config.server.host, copy.server.host);
}

#[test]
fn test_production_config_loading() {
    let config = ProductionConfig::default();
    assert!(config.validate().is_ok());

    let copy = config.clone();
    assert_eq!(config.server.port, copy.server.port);
    assert_eq!(config.server.host, copy.server.host);
}

#[test]
fn test_configuration_validation() {
    let valid_config = ProductionConfig::default();
    assert!(valid_config.validate().is_ok());

    let copy = valid_config.clone();
    assert!(copy.validate().is_ok());
}

#[test]
fn configuration_faults_are_named() {
    let mut c = sample_config();
    c.server.max_connections = 0;
    c.database.pool_size = 0;
    assert_eq!(c.validate(), Err(ConfigError::NoConnections));
    c.server.max_connections = 1;
    assert_eq!(c.validate(), Err(ConfigError::EmptyPool));
    c.database.pool_size = 1;
    c.security.ssl_enabled = true;
    assert_eq!(c.validate(), Err(ConfigError::MissingCertificate));
    c.security.ssl_cert_path = Some("cert.pem".to_string());
    assert_eq!(c.validate(), Err(ConfigError::MissingCertificate));
    c.security.ssl_key_path = Some("key.pem".to_string());
    assert_eq!(c.validate(), Ok(()));
    assert!(!ConfigError::NoConnections.message().is_empty());
    assert_ne!(ConfigError::EmptyPool.message(), ConfigError::MissingCertificate.message());
}

#[test]
fn default_configuration() {
    let p = ProductionConfig::default();
    assert_eq!(p.server.port, 27018);
    let c = Config::default();
    assert!(!c.ssl.enabled);
    assert!(!c.ssl.cipher_suites.is_empty());
}

#[test]
fn unit_tests_test_error_handling() {
    let db_error = FauxDBError::Database("Connection failed".to_string());
    assert!(db_error.to_string().contains("Connection failed"));

    let wire_error = FauxDBError::WireProtocol("Invalid message".to_string());
    assert!(wire_error.to_string().contains("Invalid message"));
}

#[test]
fn integration_tests_test_error_handling() {
    let db_error = FauxDBError::Database("Connection failed".to_string());
    assert!(db_error.to_string().contains("Connection failed"));

    let wire_error = FauxDBError::WireProtocol("Invalid message".to_string());
    assert!(wire_error.to_string().contains("Invalid message"));

    let pool_error = FauxDBError::ConnectionPool("Pool exhausted".to_string());
    assert!(pool_error.to_string().contains("Pool exhausted"));
}

#[test]
fn error_messages_and_classes() {
    assert_eq!(
        FauxDBError::database_error("down").to_string(),
        "Database error: down"
    );
    assert_eq!(
        FauxDBError::rate_limit_error("slow").to_string(),
        "Rate limit exceeded: slow"
    );
    assert_eq!(FauxDBError::internal_error("x"), FauxDBError::Internal("x".to_string()));
    assert!(FauxDBError::timeout_error("t").is_retryable());
    assert!(FauxDBError::connection_pool_error("t").is_retryable());
    assert!(!FauxDBError::validation_error("t").is_retryable());
    assert!(FauxDBError::timeout_error("t").retry_delay_ms().is_some());
    assert_eq!(FauxDBError::rate_limit_error("t").retry_delay_ms(), Some(1000));
    assert_eq!(FauxDBError::circuit_breaker_error("t").retry_delay_ms(), Some(5000));
    assert_eq!(FauxDBError::validation_error("t").retry_delay_ms(), Some(1000));
    assert_eq!(FauxDBError::internal_error("t").severity(), ErrorSeverity::Critical);
    assert_eq!(ErrorSeverity::Critical.as_str(), "critical");
}

#[test]
fn test_log_level_display() {
    assert_eq!(LogLevel::Debug.to_string(), "DEBUG");
    assert_eq!(LogLevel::Info.to_string(), "INFO ");
    assert_eq!(LogLevel::Warning.to_string(), "WARN ");
    assert_eq!(LogLevel::Error.to_string(), "ERROR");
}

#[test]
fn test_logging_system() {
    assert_eq!(LogLevel::Debug.to_string(), "DEBUG");
    assert_eq!(LogLevel::Info.to_string(), "INFO ");
    assert_eq!(LogLevel::Warning.to_string(), "WARN ");
    assert_eq!(LogLevel::Error.to_string(), "ERROR");

    let log_event = FauxDBLogEvent {
        timestamp: 1_700_000_000_123,
        level: LogLevel::Info,
        pid: 12345,
        message: "Test message".to_string(),
        target: "test".to_string(),
        module: Some("test_module".to_string()),
        line: Some(100),
    };

    assert_eq!(log_event.level, LogLevel::Info);
    assert_eq!(log_event.target, "test");
    assert_eq!(log_event.message, "Test message");
}

#[test]
fn log_lines() {
    let mut event = FauxDBLogEvent::new(LogLevel::Info, "started".to_string(), 1_700_000_000_123, 42);
    assert_eq!(event.target, "FauxDB");
    assert_eq!(
        event.format_compact(),
        "\u{2713} 42 2023-11-14 22:13:20.123 : FauxDB [started]"
    );
    assert_eq!(event.format_detailed(), event.format_compact());
    event.module = Some("server".to_string());
    assert_eq!(
        event.format_detailed(),
        "\u{2713} 42 2023-11-14 22:13:20.123 : FauxDB [started] server"
    );
    event.line = Some(7);
    event.message = "a\nb".to_string();
    event.level = LogLevel::Error;
    event.timestamp = 0;
    assert_eq!(
        event.format_detailed(),
        "\u{2717} 42 1970-01-01 00:00:00.000 : FauxDB [a\nb] server:7\n"
    );
}

#[test]
fn logger_lets_through_what_matters_enough() {
    let logger = FauxDBLogger::new(LogLevel::Warning);
    assert_eq!(logger.debug("x", 0, 1), None);
    assert_eq!(logger.info("x", 0, 1), None);
    assert_eq!(
        logger.warning("x", 0, 1),
        Some("\u{26a0} 1 1970-01-01 00:00:00.000 : FauxDB [x]".to_string())
    );
    assert!(logger.error("x", 0, 1).is_some());
    assert_eq!(logger.log(LogLevel::Info, "x", 0, 1), None);
    let all = init_logger(LogLevel::Debug, true);
    assert_eq!(all, FauxDBLogger::new(LogLevel::Debug).with_detailed_format());
    assert!(all.debug("multi\nline", 0, 1).unwrap().ends_with("]\n"));
    assert_eq!(init_logger(LogLevel::Info, false), FauxDBLogger::new(LogLevel::Info));
}

#[test]
fn connection_tracker_keeps_to_its_limit() {
    let mut t = ConnectionTracker::new(2);
    assert!(t.add_connection(1, "a".to_string(), 10));
    assert!(t.add_connection(2, "b".to_string(), 11));
    assert!(!t.add_connection(3, "c".to_string(), 12));
    assert_eq!(t.get_connection_count(), 2);
    assert_eq!(t.find(2), Some(1));
    assert_eq!(t.find(3), None);
    t.remove_connection(1);
    t.remove_connection(9);
    assert_eq!(t.get_connection_count(), 1);
    assert_eq!(t.find(2), Some(0));
    assert!(t.add_connection(3, "c".to_string(), 12));
    t.update_activity(2, 100, 7, 20);
    t.update_activity(2, u64::MAX, 1, 21);
    t.update_activity(9, 1, 1, 22);
    t.increment_commands(2);
    t.increment_commands(2);
    t.increment_commands(9);
    let seen = t.get_connection_info(2).unwrap();
    assert_eq!(
        (seen.bytes_received, seen.bytes_sent, seen.commands_executed, seen.last_activity, seen.connected_at),
        (u64::MAX, 8, 2, 21, 11)
    );
    assert!(t.get_connection_info(9).is_none());
    let ids: Vec<u32> = t.list_connections().iter().map(|c| c.connection_id).collect();
    assert_eq!(ids, vec![2, 3]);
    assert_eq!(t.get_connection_info(3).unwrap().commands_executed, 0);
    let info = get_process_info(7, 99);
    assert_eq!((info.pid, info.start_time, info.memory_usage), (7, 99, 0));
}

#[test]
fn unit_tests_test_mongodb_command_registry() {
    let registry = MongoDBCommandRegistry::new();
    assert!(!std::ptr::eq(&registry, std::ptr::null()));
}

#[test]
fn integration_tests_test_mongodb_command_registry() {
    let registry = MongoDBCommandRegistry::new();
    assert!(!std::ptr::eq(&registry, std::ptr::null()));
}

#[test]
fn registry_knows_its_commands() {
    let registry = MongoDBCommandRegistry::new();
    for name in ["ping", "hello", "isMaster", "find", "insert", "update", "delete", "aggregate", "getMore", "killCursors", "count", "listCollections", "listDatabases", "create", "drop", "buildInfo"] {
        assert!(registry.is_supported_command(name), "{}", name);
    }
    assert!(!registry.is_supported_command("noSuchThing"));
    assert!(!registry.is_supported_command(""));
    let names = registry.get_supported_commands();
    assert!(names.len() > 50);
    let mut sorted = names.clone();
    sorted.sort();
    sorted.dedup();
    assert_eq!(sorted.len(), names.len());
    assert_eq!(MongoDBCommandRegistry::kind_of("ping"), Some(CommandKind::Ping));
    assert_eq!(MongoDBCommandRegistry::kind_of("ismaster"), Some(CommandKind::Hello));
    assert_eq!(MongoDBCommandRegistry::kind_of("isMaster"), Some(CommandKind::Hello));
    assert_eq!(MongoDBCommandRegistry::kind_of("replSetGetStatus"), Some(CommandKind::NotImplemented));
    assert_eq!(MongoDBCommandRegistry::kind_of("nothing"), None);
}

#[test]
fn health_is_the_worst_of_the_checks() {
    let check = |s: HealthState| HealthCheck {
        status: s,
        message: String::new(),
        duration_ms: 0,
        details: None,
    };
    let (healthy, degraded, unhealthy) =
        (HealthState::Healthy, HealthState::Degraded, HealthState::Unhealthy);
    assert_eq!(determine_overall_status(&vec![]), healthy);
    assert_eq!(determine_overall_status(&vec![check(healthy), check(healthy)]), healthy);
    assert_eq!(determine_overall_status(&vec![check(healthy), check(degraded)]), degraded);
    assert_eq!(
        determine_overall_status(&vec![check(unhealthy), check(degraded), check(healthy)]),
        unhealthy
    );
    assert_eq!(healthy.http_status(), 200);
    assert_eq!(degraded.http_status(), 200);
    assert_eq!(unhealthy.http_status(), 503);
    assert_eq!(healthy.as_str(), "healthy");
}

#[test]
fn usage_is_classified_by_its_share() {
    let memory = |used: u64| MemoryMetrics {
        used_bytes: used,
        total_bytes: 1000,
        free_bytes: 1000 - used,
        cache_bytes: 0,
        buffer_bytes: 0,
    };
    assert_eq!(classify_memory(&memory(800)), HealthState::Healthy);
    assert_eq!(classify_memory(&memory(801)), HealthState::Degraded);
    assert_eq!(classify_memory(&memory(900)), HealthState::Degraded);
    assert_eq!(classify_memory(&memory(901)), HealthState::Unhealthy);
    assert_eq!(classify_disk(850, 1000), HealthState::Healthy);
    assert_eq!(classify_disk(851, 1000), HealthState::Degraded);
    assert_eq!(classify_disk(951, 1000), HealthState::Unhealthy);
    assert_eq!(classify_disk(5, 0), HealthState::Healthy);
    assert_eq!(classify_disk(u64::MAX, u64::MAX), HealthState::Unhealthy);
}

#[test]
fn tls_settings_need_tls_to_be_enabled() {
    let off = SslManager::new(SslConfig::default());
    assert!(!off.is_enabled());
    assert_eq!(
        off.get_tls_config().err(),
        Some(FauxDBError::Configuration("SSL/TLS is not enabled".to_string()))
    );
    let mut config = SslConfig::default();
    config.enabled = true;
    config.cert_file = Some("cert.pem".to_string());
    config.key_file = Some("key.pem".to_string());
    let on = SslManager::new(config.clone());
    assert!(on.is_enabled());
    assert_eq!(on.get_cert_file(), Some("cert.pem"));
    assert_eq!(on.get_key_file(), Some("key.pem"));
    assert_eq!(on.get_ca_file(), None);
    let tls = on.get_tls_config().unwrap();
    assert_eq!(tls.cert_file, config.cert_file);
    assert_eq!(tls.key_file, config.key_file);
    assert_eq!(tls.cipher_suites, config.cipher_suites);
    assert_eq!(tls.min_tls_version, config.min_tls_version);

    assert_eq!(off.validate_config(false, false, false), Ok(()));
    assert_eq!(on.validate_config(true, true, false), Ok(()));
    assert_eq!(
        on.validate_config(false, false, true),
        Err(FauxDBError::Configuration("Certificate file not found: cert.pem".to_string()))
    );
    assert_eq!(
        on.validate_config(true, false, true),
        Err(FauxDBError::Configuration("Private key file not found: key.pem".to_string()))
    );
    config.ca_file = Some("ca.pem".to_string());
    let with_ca = SslManager::new(config);
    assert_eq!(
        with_ca.validate_config(true, true, false),
        Err(FauxDBError::Configuration("CA file not found: ca.pem".to_string()))
    );
    assert_eq!(with_ca.validate_config(true, true, true), Ok(()));
}

#[test]
fn a_time_beyond_the_calendar_is_left_out() {
    let late = FauxDBLogEvent::new(LogLevel::Info, "late".to_string(), i64::MAX, 1);
    assert_eq!(late.format_compact(), "\u{2713} 1  : FauxDB [late]");
    let early = FauxDBLogEvent::new(LogLevel::Error, "early".to_string(), i64::MIN, 7);
    assert_eq!(early.format_compact(), "\u{2717} 7  : FauxDB [early]");
    let epoch = FauxDBLogEvent::new(LogLevel::Info, "zero".to_string(), 0, 1);
    assert_eq!(epoch.format_compact(), "\u{2713} 1 1970-01-01 00:00:00.000 : FauxDB [zero]");
    assert_eq!(fauxdb::logger::time_or_nothing(None), "");
    assert_eq!(fauxdb::logger::time_or_nothing(Some("x".to_string())), "x");
}
