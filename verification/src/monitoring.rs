//! What the monitoring of a server reports, as far as the core holds it.

use vstd::prelude::*;

verus! {

/// How the server was built.
#[derive(Debug, Clone)]
pub struct BuildInfo {
    pub version: String,
    pub git_version: String,
    pub compile_date: String,
    pub target_arch: String,
    pub target_os: String,
    pub rust_version: String,
}

/// How much memory the server uses, in megabytes.
#[derive(Debug, Clone, Copy, PartialEq, Eq, Structural)]
pub struct MemoryUsage {
    pub resident_memory_mb: u64,
    pub virtual_memory_mb: u64,
    pub heap_size_mb: u64,
    pub heap_used_mb: u64,
    pub heap_available_mb: u64,
}

/// How much an alert weighs.
#[derive(Debug, Clone, Copy, PartialEq, Eq, Structural)]
pub enum AlertSeverity {
    Info,
    Warning,
    Critical,
}

/// The check of the connection to the backend.
#[derive(Debug, Clone, Copy)]
pub struct DatabaseConnectivityCheck;

/// The check of the pool of connections.
#[derive(Debug, Clone, Copy)]
pub struct ConnectionPoolCheck;

/// The check of the space on disk.
#[derive(Debug, Clone, Copy)]
pub struct StorageSpaceCheck;

/// The check of the performance.
#[derive(Debug, Clone, Copy)]
pub struct PerformanceCheck;

impl DatabaseConnectivityCheck {
    /// The name of the check.
    pub fn name(&self) -> (r: &'static str)
        ensures
            r@ == "database_connectivity"@,
    {
        "database_connectivity"
    }
}

impl ConnectionPoolCheck {
    /// The name of the check.
    pub fn name(&self) -> (r: &'static str)
        ensures
            r@ == "connection_pool"@,
    {
        "connection_pool"
    }
}

impl StorageSpaceCheck {
    /// The name of the check.
    pub fn name(&self) -> (r: &'static str)
        ensures
            r@ == "storage_space"@,
    {
        "storage_space"
    }
}

impl PerformanceCheck {
    /// The name of the check.
    pub fn name(&self) -> (r: &'static str)
        ensures
            r@ == "performance"@,
    {
        "performance"
    }
}

} // verus!
