//! The accounts of a pool of connections to the backend.
//!
//! The pool itself, which opens and closes connections, is outside: it
//! asks these accounts what to do when a connection is wanted, and tells
//! them what came of it. The accounts see to it that the connections in
//! use and the idle ones together never exceed the size of the pool, that
//! idle connections are closed after the idle timeout, and that no
//! connection is used beyond its lifetime.

use core::time::Duration;
use vstd::prelude::*;

verus! {

/// The settings of a pool.
#[derive(Debug, Clone)]
pub struct ProductionPoolConfig {
    pub max_size: u32,
    pub min_idle: u32,
    pub max_lifetime: Duration,
    pub idle_timeout: Duration,
    pub connection_timeout: Duration,
    pub statement_cache_size: usize,
}

impl Default for ProductionPoolConfig {
    fn default() -> (r: Self)
        ensures
            r.max_size == 20,
            r.min_idle == 5,
            r.statement_cache_size == 1000,
    {
        ProductionPoolConfig {
            max_size: 20,
            min_idle: 5,
            max_lifetime: Duration::from_secs(1800),
            idle_timeout: Duration::from_secs(600),
            connection_timeout: Duration::from_secs(10),
            statement_cache_size: 1000,
        }
    }
}

/// The limits that the accounts keep. Times are in milliseconds.
#[derive(Debug, Clone, Copy, PartialEq, Eq, Structural)]
pub struct PoolLimits {
    /// Connections in use and idle connections together, at most.
    pub max_size: usize,
    /// Age beyond which a connection is not used again.
    pub max_lifetime_ms: u64,
    /// Time after which an idle connection is closed.
    pub idle_timeout_ms: u64,
    /// Time that a caller waits for a connection at most.
    pub acquire_timeout_ms: u64,
}

/// A connection that waits to be used again.
#[derive(Debug, Clone, Copy, PartialEq, Eq, Structural)]
pub struct IdleConnection {
    pub id: u64,
    pub created_at: u64,
    pub idle_since: u64,
}

/// What the pool has seen.
#[derive(Debug, Clone, Copy, PartialEq, Eq, Structural)]
pub struct PoolStats {
    pub total_connections: u64,
    pub connection_errors: u64,
    pub query_count: u64,
    /// The time that all queries took together, in microseconds.
    pub total_query_micros: u64,
}

/// Where the pool stands.
#[derive(Debug, Clone, Copy, PartialEq, Eq, Structural)]
pub struct PoolStatsSnapshot {
    pub total_connections: u64,
    pub active_connections: u64,
    pub idle_connections: u64,
    pub connection_errors: u64,
    pub query_count: u64,
    /// The time that a query took on average, in microseconds.
    pub avg_query_micros: u64,
    pub pool_size: usize,
}

/// Why a caller got no connection, or no answer.
#[derive(Debug, Clone, Copy, PartialEq, Eq, Structural)]
pub enum PoolError {
    /// Every connection is in use and none came back in time.
    PoolExhausted,
    /// A statement took longer than it may.
    QueryTimeout,
}

/// What a caller who wants a connection is to do.
#[derive(Debug, Clone, Copy, PartialEq, Eq, Structural)]
pub enum Acquire {
    /// Use the idle connection with this id.
    Reuse { id: u64, created_at: u64 },
    /// Open a connection: a place is kept for it.
    Open,
    /// Wait until a connection comes back.
    Wait,
}

/// The accounts of a pool.
#[derive(Debug)]
pub struct PoolState {
    pub limits: PoolLimits,
    /// The idle connections; the one that came back last stands last.
    pub idle: Vec<IdleConnection>,
    /// Number of connections in use, those being opened counted in.
    pub active: usize,
    pub stats: PoolStats,
}

/// `x + 1`, or `x` at the top of the range.
pub open spec fn bump(x: u64) -> u64 {
    if x < u64::MAX {
        (x + 1) as u64
    } else {
        x
    }
}

/// `a + b`, or the top of the range.
pub open spec fn capped_sum(a: u64, b: u64) -> u64 {
    if a + b > u64::MAX {
        u64::MAX
    } else {
        (a + b) as u64
    }
}

/// Milliseconds from `then` to `now`; zero where `now` is not later.
pub open spec fn since(then: u64, now: u64) -> u64 {
    if now >= then {
        (now - then) as u64
    } else {
        0
    }
}

/// Whether an idle connection may be used again at `now`: it has not been
/// idle beyond the idle timeout and is not older than its lifetime.
pub open spec fn usable(c: IdleConnection, l: PoolLimits, now: u64) -> bool {
    since(c.idle_since, now) <= l.idle_timeout_ms && since(c.created_at, now) <= l.max_lifetime_ms
}

/// Those of the first `n` idle connections that may be used again at
/// `now`, in their order.
pub open spec fn usable_idle(idle: Seq<IdleConnection>, l: PoolLimits, now: u64, n: int) -> Seq<
    IdleConnection,
>
    decreases n,
{
    if n <= 0 || n > idle.len() {
        Seq::empty()
    } else if usable(idle[n - 1], l, now) {
        usable_idle(idle, l, now, n - 1).push(idle[n - 1])
    } else {
        usable_idle(idle, l, now, n - 1)
    }
}

/// The ids of those of the first `n` idle connections that may not be
/// used again at `now`, in their order.
pub open spec fn expired_ids(idle: Seq<IdleConnection>, l: PoolLimits, now: u64, n: int) -> Seq<u64>
    decreases n,
{
    if n <= 0 || n > idle.len() {
        Seq::empty()
    } else if usable(idle[n - 1], l, now) {
        expired_ids(idle, l, now, n - 1)
    } else {
        expired_ids(idle, l, now, n - 1).push(idle[n - 1].id)
    }
}

/// Not more connections stay than there were.
pub proof fn lemma_usable_idle_len(idle: Seq<IdleConnection>, l: PoolLimits, now: u64, n: int)
    requires
        0 <= n <= idle.len(),
    ensures
        usable_idle(idle, l, now, n).len() + expired_ids(idle, l, now, n).len() == n,
    decreases n,
{
    if n > 0 {
        lemma_usable_idle_len(idle, l, now, n - 1);
    }
}

fn elapsed(then: u64, now: u64) -> (r: u64)
    ensures
        r == since(then, now),
{
    if now >= then {
        now - then
    } else {
        0
    }
}

fn inc(x: u64) -> (r: u64)
    ensures
        r == bump(x),
{
    if x < u64::MAX {
        x + 1
    } else {
        x
    }
}

impl PoolState {
    /// The accounts are consistent: the connections in use and the idle
    /// ones together do not exceed the size of the pool.
    pub open spec fn wf(&self) -> bool {
        self.active + self.idle@.len() <= self.limits.max_size
    }

    /// The accounts of a pool without connections.
    pub fn new(limits: PoolLimits) -> (r: Self)
        ensures
            r.wf(),
            r.limits == limits,
            r.active == 0,
            r.idle@.len() == 0,
            r.stats == (PoolStats {
                total_connections: 0,
                connection_errors: 0,
                query_count: 0,
                total_query_micros: 0,
            }),
    {
        PoolState {
            limits,
            idle: Vec::new(),
            active: 0,
            stats: PoolStats {
                total_connections: 0,
                connection_errors: 0,
                query_count: 0,
                total_query_micros: 0,
            },
        }
    }

    /// Takes the idle connections that may not be used again at `now` out
    /// of the accounts. Returns their ids: the pool closes them.
    pub fn reap(&mut self, now: u64) -> (closed: Vec<u64>)
        requires
            old(self).wf(),
        ensures
            final(self).wf(),
            final(self).limits == old(self).limits,
            final(self).active == old(self).active,
            final(self).stats == old(self).stats,
            final(self).idle@ == usable_idle(
                old(self).idle@,
                old(self).limits,
                now,
                old(self).idle@.len() as int,
            ),
            closed@ == expired_ids(
                old(self).idle@,
                old(self).limits,
                now,
                old(self).idle@.len() as int,
            ),
    {
        let limits = self.limits;
        let mut kept: Vec<IdleConnection> = Vec::new();
        let mut closed: Vec<u64> = Vec::new();
        let mut i: usize = 0;
        while i < self.idle.len()
            invariant
                i <= self.idle.len(),
                self.idle == old(self).idle,
                self.active == old(self).active,
                self.limits == old(self).limits,
                self.stats == old(self).stats,
                limits == self.limits,
                kept@ == usable_idle(self.idle@, limits, now, i as int),
                closed@ == expired_ids(self.idle@, limits, now, i as int),
            decreases self.idle.len() - i,
        {
            let c = self.idle[i];
            if elapsed(c.idle_since, now) <= limits.idle_timeout_ms && elapsed(c.created_at, now)
                <= limits.max_lifetime_ms {
                kept.push(c);
            } else {
                closed.push(c.id);
            }
            i = i + 1;
        }
        proof {
            lemma_usable_idle_len(self.idle@, limits, now, self.idle@.len() as int);
        }
        self.idle = kept;
        closed
    }

    /// Answers a caller who wants a connection at `now`, once the idle
    /// connections that may not be used again are out of the accounts (see
    /// `reap`): the idle connection that came back last is used again;
    /// where none is idle and the pool is not full, a connection is to be
    /// opened, and its place is kept; otherwise the caller waits.
    pub fn acquire(&mut self) -> (r: Acquire)
        requires
            old(self).wf(),
        ensures
            final(self).wf(),
            final(self).limits == old(self).limits,
            final(self).stats == old(self).stats,
            match r {
                Acquire::Reuse { id, created_at } => {
                    &&& old(self).idle@.len() > 0
                    &&& id == old(self).idle@.last().id
                    &&& created_at == old(self).idle@.last().created_at
                    &&& final(self).idle@ == old(self).idle@.drop_last()
                    &&& final(self).active == old(self).active + 1
                },
                Acquire::Open => {
                    &&& old(self).idle@.len() == 0
                    &&& old(self).active < old(self).limits.max_size
                    &&& final(self).idle@ == old(self).idle@
                    &&& final(self).active == old(self).active + 1
                },
                Acquire::Wait => {
                    &&& old(self).idle@.len() == 0
                    &&& old(self).active == old(self).limits.max_size
                    &&& final(self).idle@ == old(self).idle@
                    &&& final(self).active == old(self).active
                },
            },
    {
        match self.idle.pop() {
            Some(c) => {
                self.active = self.active + 1;
                Acquire::Reuse { id: c.id, created_at: c.created_at }
            },
            None => {
                if self.active < self.limits.max_size {
                    self.active = self.active + 1;
                    Acquire::Open
                } else {
                    Acquire::Wait
                }
            },
        }
    }

    /// Notes what came of opening a connection: a connection that was
    /// opened is counted; one that could not be opened gives its place
    /// back and is counted as an error.
    pub fn opened(&mut self, ok: bool)
        requires
            old(self).wf(),
            old(self).active > 0,
        ensures
            final(self).wf(),
            final(self).limits == old(self).limits,
            final(self).idle == old(self).idle,
            final(self).active == (if ok {
                old(self).active
            } else {
                (old(self).active - 1) as usize
            }),
            final(self).stats == (if ok {
                PoolStats {
                    total_connections: bump(old(self).stats.total_connections),
                    ..old(self).stats
                }
            } else {
                PoolStats {
                    connection_errors: bump(old(self).stats.connection_errors),
                    ..old(self).stats
                }
            }),
    {
        if ok {
            self.stats.total_connections = inc(self.stats.total_connections);
        } else {
            self.active = self.active - 1;
            self.stats.connection_errors = inc(self.stats.connection_errors);
        }
    }

    /// Whether a caller who has waited `waited_ms` for a connection gives
    /// up: `PoolExhausted` once the time to wait is over.
    pub fn waited(&self, waited_ms: u64) -> (r: Result<(), PoolError>)
        ensures
            r == (if waited_ms >= self.limits.acquire_timeout_ms {
                Err::<(), PoolError>(PoolError::PoolExhausted)
            } else {
                Ok::<(), PoolError>(())
            }),
    {
        if waited_ms >= self.limits.acquire_timeout_ms {
            Err(PoolError::PoolExhausted)
        } else {
            Ok(())
        }
    }

    /// Takes a connection back at `now`. A connection whose last call
    /// failed in transport is not used again and is counted as an error;
    /// neither is one that is older than its lifetime. Any other connection
    /// becomes idle. Returns whether the connection was kept: the pool
    /// closes one that was not.
    pub fn release(&mut self, id: u64, created_at: u64, failed: bool, now: u64) -> (kept: bool)
        requires
            old(self).wf(),
            old(self).active > 0,
        ensures
            final(self).wf(),
            final(self).limits == old(self).limits,
            final(self).active == old(self).active - 1,
            kept == (!failed && since(created_at, now) <= old(self).limits.max_lifetime_ms),
            kept ==> final(self).idle@ == old(self).idle@.push(
                IdleConnection { id, created_at, idle_since: now },
            ) && final(self).stats == old(self).stats,
            !kept ==> final(self).idle@ == old(self).idle@,
            !kept && failed ==> final(self).stats == (PoolStats {
                connection_errors: bump(old(self).stats.connection_errors),
                ..old(self).stats
            }),
            !kept && !failed ==> final(self).stats == old(self).stats,
    {
        self.active = self.active - 1;
        if failed {
            self.stats.connection_errors = inc(self.stats.connection_errors);
            return false;
        }
        if elapsed(created_at, now) > self.limits.max_lifetime_ms {
            return false;
        }
        self.idle.push(IdleConnection { id, created_at, idle_since: now });
        true
    }

    /// Whether a call that has run for `elapsed_ms` has run too long.
    pub fn check_query_time(elapsed_ms: u64, timeout_ms: u64) -> (r: Result<(), PoolError>)
        ensures
            r == (if elapsed_ms > timeout_ms {
                Err::<(), PoolError>(PoolError::QueryTimeout)
            } else {
                Ok::<(), PoolError>(())
            }),
    {
        if elapsed_ms > timeout_ms {
            Err(PoolError::QueryTimeout)
        } else {
            Ok(())
        }
    }

    /// Counts a query that took `micros` microseconds.
    pub fn record_query(&mut self, micros: u64)
        ensures
            final(self).limits == old(self).limits,
            final(self).idle == old(self).idle,
            final(self).active == old(self).active,
            final(self).stats == (PoolStats {
                query_count: bump(old(self).stats.query_count),
                total_query_micros: capped_sum(old(self).stats.total_query_micros, micros),
                ..old(self).stats
            }),
    {
        self.stats.query_count = inc(self.stats.query_count);
        self.stats.total_query_micros = if self.stats.total_query_micros > u64::MAX - micros {
            u64::MAX
        } else {
            self.stats.total_query_micros + micros
        };
    }

    /// Where the pool stands.
    pub fn get_stats(&self) -> (r: PoolStatsSnapshot)
        ensures
            r.total_connections == self.stats.total_connections,
            r.active_connections == self.active,
            r.idle_connections == self.idle@.len(),
            r.connection_errors == self.stats.connection_errors,
            r.query_count == self.stats.query_count,
            r.avg_query_micros == (if self.stats.query_count == 0 {
                0
            } else {
                self.stats.total_query_micros / self.stats.query_count
            }),
            r.pool_size == self.limits.max_size,
    {
        PoolStatsSnapshot {
            total_connections: self.stats.total_connections,
            active_connections: self.active as u64,
            idle_connections: self.idle.len() as u64,
            connection_errors: self.stats.connection_errors,
            query_count: self.stats.query_count,
            avg_query_micros: if self.stats.query_count == 0 {
                0
            } else {
                self.stats.total_query_micros / self.stats.query_count
            },
            pool_size: self.limits.max_size,
        }
    }
}

impl PoolState {
    /// Whether the accounts are consistent.
    pub fn is_consistent(&self) -> (r: bool)
        ensures
            r == self.wf(),
    {
        self.idle.len() <= self.limits.max_size && self.active <= self.limits.max_size
            - self.idle.len()
    }
}

} // verus!
