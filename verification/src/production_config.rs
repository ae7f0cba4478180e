//! The configuration of a server in production.

use crate::system::{cpu_count, random_uuid};
use core::time::Duration;
use vstd::prelude::*;

verus! {

#[derive(Debug, Clone)]
pub struct ProductionConfig {
    pub server: ServerConfig,
    pub database: DatabaseConfig,
    pub security: SecurityConfig,
    pub performance: PerformanceConfig,
    pub monitoring: MonitoringConfig,
    pub logging: LoggingConfig,
    pub clustering: ClusteringConfig,
}

#[derive(Debug, Clone)]
pub struct ServerConfig {
    pub host: String,
    pub port: u16,
    pub max_connections: usize,
    pub connection_timeout: Duration,
    pub keep_alive: Duration,
    pub tcp_nodelay: bool,
    pub worker_threads: Option<usize>,
}

#[derive(Debug, Clone)]
pub struct DatabaseConfig {
    pub connection_string: String,
    pub pool_size: u32,
    pub max_lifetime: Duration,
    pub idle_timeout: Duration,
    pub connection_timeout: Duration,
    pub statement_cache_size: usize,
    pub enable_ssl: bool,
    pub ssl_mode: String,
}

#[derive(Debug, Clone)]
pub struct SecurityConfig {
    pub enable_auth: bool,
    pub auth_mechanisms: Vec<String>,
    pub ssl_enabled: bool,
    pub ssl_cert_path: Option<String>,
    pub ssl_key_path: Option<String>,
    pub ssl_ca_path: Option<String>,
    pub allowed_hosts: Vec<String>,
    pub rate_limiting: RateLimitConfig,
}

#[derive(Debug, Clone)]
pub struct RateLimitConfig {
    pub enabled: bool,
    pub requests_per_minute: u32,
    pub burst_size: u32,
}

#[derive(Debug, Clone)]
pub struct PerformanceConfig {
    pub query_cache_size: usize,
    pub query_cache_ttl: Duration,
    pub batch_size: usize,
    pub parallel_workers: usize,
    pub memory_limit: String,
    pub enable_compression: bool,
    pub compression_level: u32,
}

#[derive(Debug, Clone)]
pub struct MonitoringConfig {
    pub metrics_enabled: bool,
    pub metrics_port: u16,
    pub health_check_port: u16,
    pub prometheus_endpoint: String,
    pub enable_profiling: bool,
    pub slow_query_threshold: Duration,
}

#[derive(Debug, Clone)]
pub struct LoggingConfig {
    pub level: String,
    pub format: String,
    pub output: String,
    pub file_path: Option<String>,
    pub max_file_size: String,
    pub max_files: usize,
    pub enable_structured_logging: bool,
}

#[derive(Debug, Clone)]
pub struct ClusteringConfig {
    pub enabled: bool,
    pub node_id: String,
    pub cluster_nodes: Vec<String>,
    pub election_timeout: Duration,
    pub heartbeat_interval: Duration,
    pub replication_factor: u32,
}

/// Why a configuration cannot be used.
#[derive(Debug, Clone, Copy, PartialEq, Eq, Structural)]
pub enum ConfigError {
    /// `max_connections` is zero.
    NoConnections,
    /// The pool of the database holds no connection.
    EmptyPool,
    /// TLS is asked for without a certificate or without a key.
    MissingCertificate,
}

impl ConfigError {
    /// The words for the error.
    pub fn message(&self) -> (r: &'static str)
        ensures
            r@ == match *self {
                ConfigError::NoConnections => "max_connections must be greater than 0"@,
                ConfigError::EmptyPool => "database pool_size must be greater than 0"@,
                ConfigError::MissingCertificate => "SSL certificate and key paths required when SSL is enabled"@,
            },
    {
        match self {
            ConfigError::NoConnections => "max_connections must be greater than 0",
            ConfigError::EmptyPool => "database pool_size must be greater than 0",
            ConfigError::MissingCertificate => "SSL certificate and key paths required when SSL is enabled",
        }
    }
}

/// Whether `c` is how a server listens unless it is told otherwise, as far
/// as its settings are texts, numbers and flags.
pub open spec fn usual_server(c: ServerConfig) -> bool {
    &&& c.host@ == "0.0.0.0"@
    &&& c.port == 27018
    &&& c.max_connections == 1000
    &&& c.tcp_nodelay
    &&& c.worker_threads.is_none()
}

/// Whether `c` is how the backend is reached unless a server is told
/// otherwise, as far as its settings are texts, numbers and flags.
pub open spec fn usual_database(c: DatabaseConfig) -> bool {
    &&& c.connection_string@ == "postgresql://localhost/fauxdb"@
    &&& c.pool_size == 20
    &&& c.statement_cache_size == 1000
    &&& !c.enable_ssl
    &&& c.ssl_mode@ == "prefer"@
}

/// Whether `c` is how requests are limited unless a server is told
/// otherwise.
pub open spec fn usual_rate_limit(c: RateLimitConfig) -> bool {
    &&& c.enabled
    &&& c.requests_per_minute == 1000
    &&& c.burst_size == 100
}

/// Whether `c` is how a server is secured unless it is told otherwise: no
/// authentication, both SCRAM mechanisms on offer, no TLS, every host
/// allowed and the usual limit on requests.
pub open spec fn usual_security(c: SecurityConfig) -> bool {
    &&& !c.enable_auth
    &&& c.auth_mechanisms@.len() == 2
    &&& c.auth_mechanisms@[0]@ == "SCRAM-SHA-1"@
    &&& c.auth_mechanisms@[1]@ == "SCRAM-SHA-256"@
    &&& !c.ssl_enabled
    &&& c.ssl_cert_path.is_none()
    &&& c.ssl_key_path.is_none()
    &&& c.ssl_ca_path.is_none()
    &&& c.allowed_hosts@.len() == 1
    &&& c.allowed_hosts@[0]@ == "0.0.0.0/0"@
    &&& usual_rate_limit(c.rate_limiting)
}

/// Whether `c` is how a server is tuned unless it is told otherwise, as
/// far as that is fixed: the number of workers is that of the machine's
/// processors.
pub open spec fn usual_performance(c: PerformanceConfig) -> bool {
    &&& c.query_cache_size == 10000
    &&& c.batch_size == 1000
    &&& c.memory_limit@ == "2GB"@
    &&& c.enable_compression
    &&& c.compression_level == 6
}

/// Whether `c` is how a server is watched unless it is told otherwise, as
/// far as its settings are texts, numbers and flags.
pub open spec fn usual_monitoring(c: MonitoringConfig) -> bool {
    &&& c.metrics_enabled
    &&& c.metrics_port == 9090
    &&& c.health_check_port == 8080
    &&& c.prometheus_endpoint@ == "/metrics"@
    &&& !c.enable_profiling
}

/// Whether `c` is how a server logs unless it is told otherwise.
pub open spec fn usual_logging(c: LoggingConfig) -> bool {
    &&& c.level@ == "info"@
    &&& c.format@ == "json"@
    &&& c.output@ == "stdout"@
    &&& c.file_path.is_none()
    &&& c.max_file_size@ == "100MB"@
    &&& c.max_files == 10
    &&& c.enable_structured_logging
}

/// Whether `c` is what a server holds of its cluster unless it is told
/// otherwise: none, under a node id of 36 characters.
pub open spec fn usual_clustering(c: ClusteringConfig) -> bool {
    &&& !c.enabled
    &&& c.node_id@.len() == 36
    &&& c.cluster_nodes@.len() == 0
    &&& c.replication_factor == 3
}

impl Default for ServerConfig {
    fn default() -> (r: Self)
        ensures
            usual_server(r),
    {
        ServerConfig {
            host: "0.0.0.0".to_owned(),
            port: 27018,
            max_connections: 1000,
            connection_timeout: Duration::from_secs(30),
            keep_alive: Duration::from_secs(60),
            tcp_nodelay: true,
            worker_threads: None,
        }
    }
}

impl Default for DatabaseConfig {
    fn default() -> (r: Self)
        ensures
            usual_database(r),
    {
        DatabaseConfig {
            connection_string: "postgresql://localhost/fauxdb".to_owned(),
            pool_size: 20,
            max_lifetime: Duration::from_secs(1800),
            idle_timeout: Duration::from_secs(600),
            connection_timeout: Duration::from_secs(10),
            statement_cache_size: 1000,
            enable_ssl: false,
            ssl_mode: "prefer".to_owned(),
        }
    }
}

impl Default for RateLimitConfig {
    fn default() -> (r: Self)
        ensures
            usual_rate_limit(r),
    {
        RateLimitConfig { enabled: true, requests_per_minute: 1000, burst_size: 100 }
    }
}

impl Default for SecurityConfig {
    fn default() -> (r: Self)
        ensures
            usual_security(r),
    {
        let mut auth_mechanisms: Vec<String> = Vec::new();
        auth_mechanisms.push("SCRAM-SHA-1".to_owned());
        auth_mechanisms.push("SCRAM-SHA-256".to_owned());
        let mut allowed_hosts: Vec<String> = Vec::new();
        allowed_hosts.push("0.0.0.0/0".to_owned());
        SecurityConfig {
            enable_auth: false,
            auth_mechanisms,
            ssl_enabled: false,
            ssl_cert_path: None,
            ssl_key_path: None,
            ssl_ca_path: None,
            allowed_hosts,
            rate_limiting: RateLimitConfig::default(),
        }
    }
}

impl Default for PerformanceConfig {
    fn default() -> (r: Self)
        ensures
            usual_performance(r),
    {
        PerformanceConfig {
            query_cache_size: 10000,
            query_cache_ttl: Duration::from_secs(300),
            batch_size: 1000,
            parallel_workers: cpu_count(),
            memory_limit: "2GB".to_owned(),
            enable_compression: true,
            compression_level: 6,
        }
    }
}

impl Default for MonitoringConfig {
    fn default() -> (r: Self)
        ensures
            usual_monitoring(r),
    {
        MonitoringConfig {
            metrics_enabled: true,
            metrics_port: 9090,
            health_check_port: 8080,
            prometheus_endpoint: "/metrics".to_owned(),
            enable_profiling: false,
            slow_query_threshold: Duration::from_millis(100),
        }
    }
}

impl Default for LoggingConfig {
    fn default() -> (r: Self)
        ensures
            usual_logging(r),
    {
        LoggingConfig {
            level: "info".to_owned(),
            format: "json".to_owned(),
            output: "stdout".to_owned(),
            file_path: None,
            max_file_size: "100MB".to_owned(),
            max_files: 10,
            enable_structured_logging: true,
        }
    }
}

impl Default for ClusteringConfig {
    fn default() -> (r: Self)
        ensures
            usual_clustering(r),
    {
        ClusteringConfig {
            enabled: false,
            node_id: random_uuid(),
            cluster_nodes: Vec::new(),
            election_timeout: Duration::from_millis(5000),
            heartbeat_interval: Duration::from_millis(1000),
            replication_factor: 3,
        }
    }
}

impl Default for ProductionConfig {
    fn default() -> (r: Self)
        ensures
            usual_server(r.server),
            usual_database(r.database),
            usual_security(r.security),
            usual_performance(r.performance),
            usual_monitoring(r.monitoring),
            usual_logging(r.logging),
            usual_clustering(r.clustering),
            r.invalid().is_none(),
    {
        ProductionConfig {
            server: ServerConfig::default(),
            database: DatabaseConfig::default(),
            security: SecurityConfig::default(),
            performance: PerformanceConfig::default(),
            monitoring: MonitoringConfig::default(),
            logging: LoggingConfig::default(),
            clustering: ClusteringConfig::default(),
        }
    }
}

impl ProductionConfig {
    /// What is wrong with the configuration, if anything: the first of the
    /// rules that it breaks.
    pub open spec fn invalid(&self) -> Option<ConfigError> {
        if self.server.max_connections == 0 {
            Some(ConfigError::NoConnections)
        } else if self.database.pool_size == 0 {
            Some(ConfigError::EmptyPool)
        } else if self.security.ssl_enabled && (self.security.ssl_cert_path.is_none()
            || self.security.ssl_key_path.is_none()) {
            Some(ConfigError::MissingCertificate)
        } else {
            None
        }
    }

    /// Checks the configuration: the server has to take at least one
    /// connection, the pool has to hold at least one, and TLS needs a
    /// certificate and a key.
    pub fn validate(&self) -> (r: Result<(), ConfigError>)
        ensures
            match r {
                Ok(()) => self.invalid().is_none(),
                Err(e) => self.invalid() == Some(e),
            },
    {
        if self.server.max_connections == 0 {
            return Err(ConfigError::NoConnections);
        }
        if self.database.pool_size == 0 {
            return Err(ConfigError::EmptyPool);
        }
        if self.security.ssl_enabled {
            if self.security.ssl_cert_path.is_none() || self.security.ssl_key_path.is_none() {
                return Err(ConfigError::MissingCertificate);
            }
        }
        Ok(())
    }
}

/// What a server says of itself.
#[derive(Debug, Clone)]
pub struct ServerInfo {
    pub version: String,
    pub uptime_seconds: u64,
    pub status: String,
    pub config: ProductionConfig,
}

/// The line that describes a server.
pub open spec fn server_line(version: Seq<char>, status: Seq<char>, uptime_seconds: u64) -> Seq<
    char,
> {
    "FauxDB v"@ + version + " - Status: "@ + status + " - Uptime: "@ + crate::text::decimal(
        uptime_seconds as nat,
    ) + "s"@
}

impl ServerInfo {
    /// The line that describes the server: version, status and uptime.
    pub fn to_string(&self) -> (r: String)
        ensures
            r@ == server_line(self.version@, self.status@, self.uptime_seconds),
    {
        let mut out = crate::text::concat("FauxDB v", self.version.as_str());
        out.append(" - Status: ");
        out.append(self.status.as_str());
        out.append(" - Uptime: ");
        let n = crate::text::u64_to_string(self.uptime_seconds);
        out.append(n.as_str());
        out.append("s");
        out
    }
}

} // verus!
