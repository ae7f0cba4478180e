//! The configuration of a server.

use vstd::prelude::*;

verus! {

/// Everything a server is configured with.
#[derive(Debug, Clone)]
pub struct Config {
    pub server: ServerConfig,
    pub database: DatabaseConfig,
    pub logging: LoggingConfig,
    pub metrics: MetricsConfig,
    pub ssl: SslConfig,
    pub authentication: AuthenticationConfig,
}

#[derive(Debug, Clone)]
pub struct ServerConfig {
    pub host: String,
    pub port: u16,
    pub max_connections: u32,
    pub connection_timeout_ms: u64,
    pub idle_timeout_ms: u64,
}

#[derive(Debug, Clone)]
pub struct DatabaseConfig {
    pub uri: String,
    pub max_connections: u32,
    pub connection_timeout_ms: u64,
    pub idle_timeout_ms: u64,
    pub enable_jsonb_extensions: bool,
}

#[derive(Debug, Clone)]
pub struct LoggingConfig {
    pub level: String,
    pub format: String,
    pub output: String,
}

#[derive(Debug, Clone)]
pub struct MetricsConfig {
    pub enabled: bool,
    pub port: u16,
    pub path: String,
}

#[derive(Debug, Clone)]
pub struct SslConfig {
    pub enabled: bool,
    pub cert_file: Option<String>,
    pub key_file: Option<String>,
    pub ca_file: Option<String>,
    pub verify_mode: String,
    pub min_tls_version: String,
    pub max_tls_version: String,
    pub cipher_suites: Vec<String>,
    pub allow_insecure: bool,
    pub client_cert_required: bool,
    pub sni_enabled: bool,
}

#[derive(Debug, Clone)]
pub struct AuthenticationConfig {
    pub enabled: bool,
    pub default_auth_method: String,
    pub session_timeout_minutes: u64,
    pub max_sessions_per_user: usize,
    pub password_policy: PasswordPolicyConfig,
    pub ldap: Option<LdapConfig>,
    pub kerberos: Option<KerberosConfig>,
}

#[derive(Debug, Clone)]
pub struct PasswordPolicyConfig {
    pub min_length: usize,
    pub require_uppercase: bool,
    pub require_lowercase: bool,
    pub require_numbers: bool,
    pub require_special_chars: bool,
    pub max_age_days: Option<u64>,
}

#[derive(Debug, Clone)]
pub struct LdapConfig {
    pub server_url: String,
    pub base_dn: String,
    pub bind_dn: String,
    pub bind_password: String,
    pub user_search_filter: String,
    pub group_search_filter: String,
}

#[derive(Debug, Clone)]
pub struct KerberosConfig {
    pub realm: String,
    pub keytab_file: String,
    pub service_principal: String,
}

/// Whether a list holds the cipher suites that a server offers unless it
/// is told otherwise, in their order.
pub open spec fn usual_cipher_suites(list: Seq<String>) -> bool {
    &&& list.len() == 3
    &&& list[0]@ == "TLS_AES_256_GCM_SHA384"@
    &&& list[1]@ == "TLS_CHACHA20_POLY1305_SHA256"@
    &&& list[2]@ == "TLS_AES_128_GCM_SHA256"@
}

/// Whether `c` is how a server listens unless it is told otherwise.
pub open spec fn usual_server(c: ServerConfig) -> bool {
    &&& c.host@ == "127.0.0.1"@
    &&& c.port == 27018
    &&& c.max_connections == 1000
    &&& c.connection_timeout_ms == 5000
    &&& c.idle_timeout_ms == 60000
}

/// Whether `c` is how the backend is reached unless a server is told
/// otherwise.
pub open spec fn usual_database(c: DatabaseConfig) -> bool {
    &&& c.uri@ == "postgresql://localhost:5432/fauxdb"@
    &&& c.max_connections == 10
    &&& c.connection_timeout_ms == 5000
    &&& c.idle_timeout_ms == 60000
    &&& c.enable_jsonb_extensions
}

/// Whether `c` is how a server logs unless it is told otherwise.
pub open spec fn usual_logging(c: LoggingConfig) -> bool {
    &&& c.level@ == "info"@
    &&& c.format@ == "json"@
    &&& c.output@ == "stdout"@
}

/// Whether `c` is how a server shows its metrics unless it is told
/// otherwise.
pub open spec fn usual_metrics(c: MetricsConfig) -> bool {
    &&& c.enabled
    &&& c.port == 9090
    &&& c.path@ == "/metrics"@
}

/// Whether `c` is what a server holds of TLS unless it is told otherwise:
/// switched off, no files, peers verified, versions 1.2 to 1.3 and the
/// usual cipher suites.
pub open spec fn usual_ssl(c: SslConfig) -> bool {
    &&& !c.enabled
    &&& c.cert_file.is_none()
    &&& c.key_file.is_none()
    &&& c.ca_file.is_none()
    &&& c.verify_mode@ == "peer"@
    &&& c.min_tls_version@ == "1.2"@
    &&& c.max_tls_version@ == "1.3"@
    &&& usual_cipher_suites(c.cipher_suites@)
    &&& !c.allow_insecure
    &&& !c.client_cert_required
    &&& c.sni_enabled
}

/// Whether `c` is what a server asks of passwords unless it is told
/// otherwise.
pub open spec fn usual_password_policy(c: PasswordPolicyConfig) -> bool {
    &&& c.min_length == 8
    &&& c.require_uppercase
    &&& c.require_lowercase
    &&& c.require_numbers
    &&& c.require_special_chars
    &&& c.max_age_days == Some(90u64)
}

/// Whether `c` is how a server authenticates unless it is told otherwise.
pub open spec fn usual_authentication(c: AuthenticationConfig) -> bool {
    &&& c.enabled
    &&& c.default_auth_method@ == "SCRAM-SHA-256"@
    &&& c.session_timeout_minutes == 30
    &&& c.max_sessions_per_user == 10
    &&& usual_password_policy(c.password_policy)
    &&& c.ldap.is_none()
    &&& c.kerberos.is_none()
}

/// The cipher suites that a server offers unless it is told otherwise.
pub fn default_cipher_suites() -> (r: Vec<String>)
    ensures
        usual_cipher_suites(r@),
{
    let mut v: Vec<String> = Vec::new();
    v.push("TLS_AES_256_GCM_SHA384".to_owned());
    v.push("TLS_CHACHA20_POLY1305_SHA256".to_owned());
    v.push("TLS_AES_128_GCM_SHA256".to_owned());
    v
}

impl Default for ServerConfig {
    fn default() -> (r: Self)
        ensures
            usual_server(r),
    {
        ServerConfig {
            host: "127.0.0.1".to_owned(),
            port: 27018,
            max_connections: 1000,
            connection_timeout_ms: 5000,
            idle_timeout_ms: 60000,
        }
    }
}

impl Default for DatabaseConfig {
    fn default() -> (r: Self)
        ensures
            usual_database(r),
    {
        DatabaseConfig {
            uri: "postgresql://localhost:5432/fauxdb".to_owned(),
            max_connections: 10,
            connection_timeout_ms: 5000,
            idle_timeout_ms: 60000,
            enable_jsonb_extensions: true,
        }
    }
}

impl Default for LoggingConfig {
    fn default() -> (r: Self)
        ensures
            usual_logging(r),
    {
        LoggingConfig {
            level: "info".to_owned(),
            format: "json".to_owned(),
            output: "stdout".to_owned(),
        }
    }
}

impl Default for MetricsConfig {
    fn default() -> (r: Self)
        ensures
            usual_metrics(r),
    {
        MetricsConfig { enabled: true, port: 9090, path: "/metrics".to_owned() }
    }
}

impl Default for SslConfig {
    fn default() -> (r: Self)
        ensures
            usual_ssl(r),
    {
        SslConfig {
            enabled: false,
            cert_file: None,
            key_file: None,
            ca_file: None,
            verify_mode: "peer".to_owned(),
            min_tls_version: "1.2".to_owned(),
            max_tls_version: "1.3".to_owned(),
            cipher_suites: default_cipher_suites(),
            allow_insecure: false,
            client_cert_required: false,
            sni_enabled: true,
        }
    }
}

impl Default for PasswordPolicyConfig {
    fn default() -> (r: Self)
        ensures
            usual_password_policy(r),
    {
        PasswordPolicyConfig {
            min_length: 8,
            require_uppercase: true,
            require_lowercase: true,
            require_numbers: true,
            require_special_chars: true,
            max_age_days: Some(90),
        }
    }
}

impl Default for AuthenticationConfig {
    fn default() -> (r: Self)
        ensures
            usual_authentication(r),
    {
        AuthenticationConfig {
            enabled: true,
            default_auth_method: "SCRAM-SHA-256".to_owned(),
            session_timeout_minutes: 30,
            max_sessions_per_user: 10,
            password_policy: PasswordPolicyConfig::default(),
            ldap: None,
            kerberos: None,
        }
    }
}

impl Default for Config {
    fn default() -> (r: Self)
        ensures
            usual_server(r.server),
            usual_database(r.database),
            usual_logging(r.logging),
            usual_metrics(r.metrics),
            usual_ssl(r.ssl),
            usual_authentication(r.authentication),
    {
        Config {
            server: ServerConfig::default(),
            database: DatabaseConfig::default(),
            logging: LoggingConfig::default(),
            metrics: MetricsConfig::default(),
            ssl: SslConfig::default(),
            authentication: AuthenticationConfig::default(),
        }
    }
}

} // verus!
