//! The error taxonomy of the server and its mapping to response codes.

use crate::codec::BsonError;
use crate::text::concat;
use vstd::prelude::*;

verus! {

/// What went wrong while a request was served.
#[derive(Debug, PartialEq)]
pub enum FauxDBError {
    Database(String),
    Bson(BsonError),
    BsonSerialization(BsonError),
    WireProtocol(String),
    Network(String),
    Serialization(String),
    ConnectionPool(String),
    Authentication(String),
    Authorization(String),
    RateLimit(String),
    Validation(String),
    Configuration(String),
    ResourceExhausted(String),
    Timeout(String),
    CircuitBreaker(String),
    Internal(String),
}

/// How much an error weighs for monitoring.
#[derive(Debug, Clone, Copy, PartialEq, Eq, Structural)]
pub enum ErrorSeverity {
    Low,
    Medium,
    High,
    Critical,
}

/// The severity of each kind of error.
pub open spec fn severity_of(e: FauxDBError) -> ErrorSeverity {
    match e {
        FauxDBError::Database(_) => ErrorSeverity::High,
        FauxDBError::WireProtocol(_) => ErrorSeverity::Medium,
        FauxDBError::Network(_) => ErrorSeverity::High,
        FauxDBError::ConnectionPool(_) => ErrorSeverity::High,
        FauxDBError::Authentication(_) => ErrorSeverity::Medium,
        FauxDBError::Authorization(_) => ErrorSeverity::Low,
        FauxDBError::RateLimit(_) => ErrorSeverity::Low,
        FauxDBError::Validation(_) => ErrorSeverity::Low,
        FauxDBError::Configuration(_) => ErrorSeverity::High,
        FauxDBError::ResourceExhausted(_) => ErrorSeverity::Critical,
        FauxDBError::Timeout(_) => ErrorSeverity::Medium,
        FauxDBError::CircuitBreaker(_) => ErrorSeverity::Medium,
        FauxDBError::Internal(_) => ErrorSeverity::Critical,
        FauxDBError::Bson(_) => ErrorSeverity::Medium,
        FauxDBError::BsonSerialization(_) => ErrorSeverity::Medium,
        FauxDBError::Serialization(_) => ErrorSeverity::Medium,
    }
}

/// Whether the same request may succeed when sent again.
pub open spec fn retryable(e: FauxDBError) -> bool {
    e is Network || e is Timeout || e is ConnectionPool || e is RateLimit
}

/// The code that a response carries for each kind of error.
pub open spec fn response_code_of(e: FauxDBError) -> i32 {
    match e {
        FauxDBError::Bson(_) => 22,
        FauxDBError::BsonSerialization(_) => 22,
        FauxDBError::Serialization(_) => 22,
        FauxDBError::Validation(_) => 9,
        FauxDBError::ConnectionPool(_) => 7,
        FauxDBError::Network(_) => 7,
        FauxDBError::Timeout(_) => 50,
        FauxDBError::RateLimit(_) => 16500,
        FauxDBError::CircuitBreaker(_) => 189,
        FauxDBError::Authentication(_) => 18,
        FauxDBError::Authorization(_) => 13,
        FauxDBError::Database(_) => 8,
        FauxDBError::WireProtocol(_) => 17,
        FauxDBError::Configuration(_) => 1,
        FauxDBError::ResourceExhausted(_) => 1,
        FauxDBError::Internal(_) => 1,
    }
}

impl FauxDBError {
    /// A database error with the given message.
    pub fn database_error(message: &str) -> (r: Self)
        ensures
            r matches FauxDBError::Database(m) && m@ == message@,
    {
        FauxDBError::Database(message.to_owned())
    }

    /// A wire protocol error with the given message.
    pub fn wire_protocol_error(message: &str) -> (r: Self)
        ensures
            r matches FauxDBError::WireProtocol(m) && m@ == message@,
    {
        FauxDBError::WireProtocol(message.to_owned())
    }

    /// A connection pool error with the given message.
    pub fn connection_pool_error(message: &str) -> (r: Self)
        ensures
            r matches FauxDBError::ConnectionPool(m) && m@ == message@,
    {
        FauxDBError::ConnectionPool(message.to_owned())
    }

    /// An authentication error with the given message.
    pub fn authentication_error(message: &str) -> (r: Self)
        ensures
            r matches FauxDBError::Authentication(m) && m@ == message@,
    {
        FauxDBError::Authentication(message.to_owned())
    }

    /// An authorization error with the given message.
    pub fn authorization_error(message: &str) -> (r: Self)
        ensures
            r matches FauxDBError::Authorization(m) && m@ == message@,
    {
        FauxDBError::Authorization(message.to_owned())
    }

    /// A rate limit error with the given message.
    pub fn rate_limit_error(message: &str) -> (r: Self)
        ensures
            r matches FauxDBError::RateLimit(m) && m@ == message@,
    {
        FauxDBError::RateLimit(message.to_owned())
    }

    /// A validation error with the given message.
    pub fn validation_error(message: &str) -> (r: Self)
        ensures
            r matches FauxDBError::Validation(m) && m@ == message@,
    {
        FauxDBError::Validation(message.to_owned())
    }

    /// A configuration error with the given message.
    pub fn configuration_error(message: &str) -> (r: Self)
        ensures
            r matches FauxDBError::Configuration(m) && m@ == message@,
    {
        FauxDBError::Configuration(message.to_owned())
    }

    /// A resource exhausted error with the given message.
    pub fn resource_exhausted_error(message: &str) -> (r: Self)
        ensures
            r matches FauxDBError::ResourceExhausted(m) && m@ == message@,
    {
        FauxDBError::ResourceExhausted(message.to_owned())
    }

    /// A timeout error with the given message.
    pub fn timeout_error(message: &str) -> (r: Self)
        ensures
            r matches FauxDBError::Timeout(m) && m@ == message@,
    {
        FauxDBError::Timeout(message.to_owned())
    }

    /// A circuit breaker error with the given message.
    pub fn circuit_breaker_error(message: &str) -> (r: Self)
        ensures
            r matches FauxDBError::CircuitBreaker(m) && m@ == message@,
    {
        FauxDBError::CircuitBreaker(message.to_owned())
    }

    /// An internal error with the given message.
    pub fn internal_error(message: &str) -> (r: Self)
        ensures
            r matches FauxDBError::Internal(m) && m@ == message@,
    {
        FauxDBError::Internal(message.to_owned())
    }

    /// How much the error weighs for monitoring.
    pub fn severity(&self) -> (r: ErrorSeverity)
        ensures
            r == severity_of(*self),
    {
        match self {
            FauxDBError::Database(_) => ErrorSeverity::High,
            FauxDBError::WireProtocol(_) => ErrorSeverity::Medium,
            FauxDBError::Network(_) => ErrorSeverity::High,
            FauxDBError::ConnectionPool(_) => ErrorSeverity::High,
            FauxDBError::Authentication(_) => ErrorSeverity::Medium,
            FauxDBError::Authorization(_) => ErrorSeverity::Low,
            FauxDBError::RateLimit(_) => ErrorSeverity::Low,
            FauxDBError::Validation(_) => ErrorSeverity::Low,
            FauxDBError::Configuration(_) => ErrorSeverity::High,
            FauxDBError::ResourceExhausted(_) => ErrorSeverity::Critical,
            FauxDBError::Timeout(_) => ErrorSeverity::Medium,
            FauxDBError::CircuitBreaker(_) => ErrorSeverity::Medium,
            FauxDBError::Internal(_) => ErrorSeverity::Critical,
            FauxDBError::Bson(_) => ErrorSeverity::Medium,
            FauxDBError::BsonSerialization(_) => ErrorSeverity::Medium,
            FauxDBError::Serialization(_) => ErrorSeverity::Medium,
        }
    }

    /// Whether the same request may succeed when sent again.
    pub fn is_retryable(&self) -> (r: bool)
        ensures
            r == retryable(*self),
    {
        match self {
            FauxDBError::Network(_) => true,
            FauxDBError::Timeout(_) => true,
            FauxDBError::ConnectionPool(_) => true,
            FauxDBError::RateLimit(_) => true,
            _ => false,
        }
    }

    /// The delay, in milliseconds, after which a retry makes sense.
    pub fn retry_delay_ms(&self) -> (r: Option<u64>)
        ensures
            r == Some(
                if *self is CircuitBreaker {
                    5000u64
                } else {
                    1000u64
                },
            ),
    {
        match self {
            FauxDBError::CircuitBreaker(_) => Some(5000),
            _ => Some(1000),
        }
    }

    /// The code that a response carries for this error.
    pub fn response_code(&self) -> (r: i32)
        ensures
            r == response_code_of(*self),
    {
        match self {
            FauxDBError::Bson(_) => 22,
            FauxDBError::BsonSerialization(_) => 22,
            FauxDBError::Serialization(_) => 22,
            FauxDBError::Validation(_) => 9,
            FauxDBError::ConnectionPool(_) => 7,
            FauxDBError::Network(_) => 7,
            FauxDBError::Timeout(_) => 50,
            FauxDBError::RateLimit(_) => 16500,
            FauxDBError::CircuitBreaker(_) => 189,
            FauxDBError::Authentication(_) => 18,
            FauxDBError::Authorization(_) => 13,
            FauxDBError::Database(_) => 8,
            FauxDBError::WireProtocol(_) => 17,
            FauxDBError::Configuration(_) => 1,
            FauxDBError::ResourceExhausted(_) => 1,
            FauxDBError::Internal(_) => 1,
        }
    }

    /// The text that introduces each kind of error in a message.
    pub fn prefix(&self) -> (r: &'static str)
        ensures
            r@ == prefix_of(*self),
    {
        match self {
            FauxDBError::Database(_) => "Database error: ",
            FauxDBError::Bson(_) => "BSON error: ",
            FauxDBError::BsonSerialization(_) => "BSON serialization error: ",
            FauxDBError::WireProtocol(_) => "Wire protocol error: ",
            FauxDBError::Network(_) => "Network error: ",
            FauxDBError::Serialization(_) => "Serialization error: ",
            FauxDBError::ConnectionPool(_) => "Connection pool error: ",
            FauxDBError::Authentication(_) => "Authentication error: ",
            FauxDBError::Authorization(_) => "Authorization error: ",
            FauxDBError::RateLimit(_) => "Rate limit exceeded: ",
            FauxDBError::Validation(_) => "Validation error: ",
            FauxDBError::Configuration(_) => "Configuration error: ",
            FauxDBError::ResourceExhausted(_) => "Resource exhausted: ",
            FauxDBError::Timeout(_) => "Timeout error: ",
            FauxDBError::CircuitBreaker(_) => "Circuit breaker open: ",
            FauxDBError::Internal(_) => "Internal server error: ",
        }
    }

    /// The message of the error: the text of its kind, then its detail.
    pub fn to_string(&self) -> (r: String)
        ensures
            r@ == prefix_of(*self) + detail_of(*self),
    {
        let p = self.prefix();
        match self {
            FauxDBError::Database(m) => concat(p, m.as_str()),
            FauxDBError::Bson(e) => concat(p, bson_error_text(*e)),
            FauxDBError::BsonSerialization(e) => concat(p, bson_error_text(*e)),
            FauxDBError::WireProtocol(m) => concat(p, m.as_str()),
            FauxDBError::Network(m) => concat(p, m.as_str()),
            FauxDBError::Serialization(m) => concat(p, m.as_str()),
            FauxDBError::ConnectionPool(m) => concat(p, m.as_str()),
            FauxDBError::Authentication(m) => concat(p, m.as_str()),
            FauxDBError::Authorization(m) => concat(p, m.as_str()),
            FauxDBError::RateLimit(m) => concat(p, m.as_str()),
            FauxDBError::Validation(m) => concat(p, m.as_str()),
            FauxDBError::Configuration(m) => concat(p, m.as_str()),
            FauxDBError::ResourceExhausted(m) => concat(p, m.as_str()),
            FauxDBError::Timeout(m) => concat(p, m.as_str()),
            FauxDBError::CircuitBreaker(m) => concat(p, m.as_str()),
            FauxDBError::Internal(m) => concat(p, m.as_str()),
        }
    }
}

/// The text that introduces each kind of error in a message.
pub open spec fn prefix_of(e: FauxDBError) -> Seq<char> {
    match e {
        FauxDBError::Database(_) => "Database error: "@,
        FauxDBError::Bson(_) => "BSON error: "@,
        FauxDBError::BsonSerialization(_) => "BSON serialization error: "@,
        FauxDBError::WireProtocol(_) => "Wire protocol error: "@,
        FauxDBError::Network(_) => "Network error: "@,
        FauxDBError::Serialization(_) => "Serialization error: "@,
        FauxDBError::ConnectionPool(_) => "Connection pool error: "@,
        FauxDBError::Authentication(_) => "Authentication error: "@,
        FauxDBError::Authorization(_) => "Authorization error: "@,
        FauxDBError::RateLimit(_) => "Rate limit exceeded: "@,
        FauxDBError::Validation(_) => "Validation error: "@,
        FauxDBError::Configuration(_) => "Configuration error: "@,
        FauxDBError::ResourceExhausted(_) => "Resource exhausted: "@,
        FauxDBError::Timeout(_) => "Timeout error: "@,
        FauxDBError::CircuitBreaker(_) => "Circuit breaker open: "@,
        FauxDBError::Internal(_) => "Internal server error: "@,
    }
}

/// The detail that an error carries.
pub open spec fn detail_of(e: FauxDBError) -> Seq<char> {
    match e {
        FauxDBError::Database(m) => m@,
        FauxDBError::Bson(b) => bson_error_text_of(b),
        FauxDBError::BsonSerialization(b) => bson_error_text_of(b),
        FauxDBError::WireProtocol(m) => m@,
        FauxDBError::Network(m) => m@,
        FauxDBError::Serialization(m) => m@,
        FauxDBError::ConnectionPool(m) => m@,
        FauxDBError::Authentication(m) => m@,
        FauxDBError::Authorization(m) => m@,
        FauxDBError::RateLimit(m) => m@,
        FauxDBError::Validation(m) => m@,
        FauxDBError::Configuration(m) => m@,
        FauxDBError::ResourceExhausted(m) => m@,
        FauxDBError::Timeout(m) => m@,
        FauxDBError::CircuitBreaker(m) => m@,
        FauxDBError::Internal(m) => m@,
    }
}

/// The words for a malformed document.
pub open spec fn bson_error_text_of(e: BsonError) -> Seq<char> {
    match e {
        BsonError::TruncatedDocument => "truncated document"@,
        BsonError::BadTerminator => "bad terminator"@,
        BsonError::BadTypeTag => "bad type tag"@,
        BsonError::BadString => "bad string"@,
        BsonError::OversizeDocument => "oversize document"@,
    }
}

/// The words for a malformed document.
pub fn bson_error_text(e: BsonError) -> (r: &'static str)
    ensures
        r@ == bson_error_text_of(e),
{
    match e {
        BsonError::TruncatedDocument => "truncated document",
        BsonError::BadTerminator => "bad terminator",
        BsonError::BadTypeTag => "bad type tag",
        BsonError::BadString => "bad string",
        BsonError::OversizeDocument => "oversize document",
    }
}

impl ErrorSeverity {
    /// The name of the severity in lower case.
    pub fn as_str(&self) -> (r: &'static str)
        ensures
            r@ == match *self {
                ErrorSeverity::Low => "low"@,
                ErrorSeverity::Medium => "medium"@,
                ErrorSeverity::High => "high"@,
                ErrorSeverity::Critical => "critical"@,
            },
    {
        match self {
            ErrorSeverity::Low => "low",
            ErrorSeverity::Medium => "medium",
            ErrorSeverity::High => "high",
            ErrorSeverity::Critical => "critical",
        }
    }
}

} // verus!
