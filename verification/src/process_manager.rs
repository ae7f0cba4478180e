//! The settings and the states of the processes that serve connections.

use core::time::Duration;
use vstd::prelude::*;

verus! {

/// The settings of the processes.
#[derive(Debug, Clone)]
pub struct ProcessConfig {
    pub max_connections: u32,
    pub process_timeout: Duration,
    pub connection_timeout: Duration,
    pub database_url: String,
    pub log_level: String,
}

/// Where a process stands.
#[derive(Debug, Clone, Copy, PartialEq, Eq, Structural)]
pub enum ProcessStatus {
    Starting,
    Running,
    Idle,
    Error,
    Terminated,
}

impl Default for ProcessConfig {
    fn default() -> (r: Self)
        ensures
            r.max_connections == 100,
            r.database_url@ == "postgresql://localhost/fauxdb"@,
            r.log_level@ == "info"@,
    {
        ProcessConfig {
            max_connections: 100,
            process_timeout: Duration::from_secs(300),
            connection_timeout: Duration::from_secs(30),
            database_url: "postgresql://localhost/fauxdb".to_owned(),
            log_level: "info".to_owned(),
        }
    }
}

} // verus!
