//! Graceful shutdown: once a shutdown has been asked for, no new connection
//! is taken, the open ones are given time to finish, and the process leaves
//! by force when they take too long.
//!
//! The manager keeps no clock: the caller hands in the current time, in
//! milliseconds of a clock that never runs backwards.

use vstd::prelude::*;

verus! {

/// Why the server shuts down.
#[derive(Debug, PartialEq, Eq)]
pub enum ShutdownReason {
    Signal(i32),
    Request,
    Timeout,
    Error(String),
}

impl ShutdownReason {
    /// The kind of the reason in lower case.
    pub fn as_str(&self) -> (r: &'static str)
        ensures
            r@ == match *self {
                ShutdownReason::Signal(_) => "signal"@,
                ShutdownReason::Request => "request"@,
                ShutdownReason::Timeout => "timeout"@,
                ShutdownReason::Error(_) => "error"@,
            },
    {
        match self {
            ShutdownReason::Signal(_) => "signal",
            ShutdownReason::Request => "request",
            ShutdownReason::Timeout => "timeout",
            ShutdownReason::Error(_) => "error",
        }
    }

    /// A copy of the reason.
    pub fn clone_reason(&self) -> (r: Self)
        ensures
            r == *self,
    {
        match self {
            ShutdownReason::Signal(s) => ShutdownReason::Signal(*s),
            ShutdownReason::Request => ShutdownReason::Request,
            ShutdownReason::Timeout => ShutdownReason::Timeout,
            ShutdownReason::Error(m) => ShutdownReason::Error(m.clone()),
        }
    }
}

/// The time limits of a shutdown, in milliseconds.
#[derive(Debug, Clone, Copy, PartialEq, Eq, Structural)]
pub struct ShutdownConfig {
    /// Time that requests in flight are given to finish.
    pub graceful_timeout_ms: u64,
    /// Time after which the process leaves whatever is still open.
    pub force_timeout_ms: u64,
    /// Time that closing the connections may take.
    pub drain_timeout_ms: u64,
    /// Whether termination signals start a shutdown.
    pub signal_handling: bool,
}

impl Default for ShutdownConfig {
    fn default() -> (r: Self)
        ensures
            r == (ShutdownConfig {
                graceful_timeout_ms: 30000,
                force_timeout_ms: 60000,
                drain_timeout_ms: 10000,
                signal_handling: true,
            }),
    {
        ShutdownConfig {
            graceful_timeout_ms: 30000,
            force_timeout_ms: 60000,
            drain_timeout_ms: 10000,
            signal_handling: true,
        }
    }
}

/// What the serving loop has to do next.
#[derive(Debug, Clone, Copy, PartialEq, Eq, Structural)]
pub enum ShutdownAction {
    /// No shutdown was asked for: go on serving.
    Continue,
    /// Take no new connection and let the requests in flight finish; the
    /// grace period lasts for this many milliseconds more.
    Drain { remaining_ms: u64 },
    /// The grace period is over: close the connections that are still open.
    CloseConnections,
    /// Nothing is open any more: leave with exit code 0.
    Exit,
    /// The shutdown took too long: leave with a non-zero exit code.
    ForceExit,
}

/// The state of a shutdown.
#[derive(Debug)]
pub struct ShutdownManager {
    pub config: ShutdownConfig,
    pub shutting_down: bool,
    pub reason: Option<ShutdownReason>,
    pub started_at: Option<u64>,
}

/// Milliseconds from `start` to `now`; zero where `now` is not later.
pub open spec fn elapsed_ms(start: u64, now: u64) -> u64 {
    if now >= start {
        (now - start) as u64
    } else {
        0
    }
}

/// What has to be done at `now`, with `active` connections still open, in a
/// shutdown that started at `started` if at all.
pub open spec fn action_at(c: ShutdownConfig, started: Option<u64>, now: u64, active: usize) -> ShutdownAction {
    match started {
        None => ShutdownAction::Continue,
        Some(t) => {
            if active == 0 {
                ShutdownAction::Exit
            } else if elapsed_ms(t, now) >= c.force_timeout_ms {
                ShutdownAction::ForceExit
            } else if elapsed_ms(t, now) >= c.graceful_timeout_ms {
                ShutdownAction::CloseConnections
            } else {
                ShutdownAction::Drain {
                    remaining_ms: (c.graceful_timeout_ms - elapsed_ms(t, now)) as u64,
                }
            }
        },
    }
}

/// The exit code that belongs to an action that ends the process.
pub open spec fn exit_code_of(a: ShutdownAction) -> Option<i32> {
    match a {
        ShutdownAction::Exit => Some(0),
        ShutdownAction::ForceExit => Some(1),
        _ => None,
    }
}

impl ShutdownAction {
    /// The exit code, where the action ends the process: zero after a clean
    /// shutdown, one after a forced one.
    pub fn exit_code(&self) -> (r: Option<i32>)
        ensures
            r == exit_code_of(*self),
    {
        match self {
            ShutdownAction::Exit => Some(0),
            ShutdownAction::ForceExit => Some(1),
            _ => None,
        }
    }
}

impl ShutdownManager {
    /// The manager is consistent: a shutdown in progress has a reason and a
    /// start time, and nothing else has.
    pub open spec fn wf(&self) -> bool {
        &&& self.shutting_down == self.reason.is_some()
        &&& self.shutting_down == self.started_at.is_some()
    }

    /// A manager of a server that is running.
    pub fn new(config: ShutdownConfig) -> (r: Self)
        ensures
            r.wf(),
            r.config == config,
            !r.shutting_down,
    {
        ShutdownManager { config, shutting_down: false, reason: None, started_at: None }
    }

    /// Whether a shutdown is in progress.
    pub fn is_shutting_down(&self) -> (r: bool)
        ensures
            r == self.shutting_down,
    {
        self.shutting_down
    }

    /// Why the server shuts down, once it does.
    pub fn shutdown_reason(&self) -> (r: Option<&ShutdownReason>)
        ensures
            match r {
                Some(x) => self.reason == Some(*x),
                None => self.reason.is_none(),
            },
    {
        match &self.reason {
            Some(x) => Some(x),
            None => None,
        }
    }

    /// Starts the shutdown at `now`. Returns whether this call started it:
    /// once a shutdown is in progress, its reason and start time stay.
    pub fn initiate_shutdown(&mut self, reason: ShutdownReason, now: u64) -> (started: bool)
        requires
            old(self).wf(),
        ensures
            final(self).wf(),
            final(self).config == old(self).config,
            final(self).shutting_down,
            started == !old(self).shutting_down,
            started ==> final(self).reason == Some(reason) && final(self).started_at == Some(now),
            !started ==> final(self).reason == old(self).reason && final(self).started_at == old(self).started_at,
    {
        if self.shutting_down {
            return false;
        }
        self.shutting_down = true;
        self.reason = Some(reason);
        self.started_at = Some(now);
        true
    }

    /// Whether a new connection may be taken: only while no shutdown is in
    /// progress.
    pub fn accepts_connections(&self) -> (r: bool)
        ensures
            r == !self.shutting_down,
    {
        !self.shutting_down
    }

    /// What the serving loop has to do at `now`, with `active_connections`
    /// connections still open.
    pub fn next_action(&self, now: u64, active_connections: usize) -> (r: ShutdownAction)
        requires
            self.wf(),
        ensures
            r == action_at(self.config, self.started_at, now, active_connections),
            r is Continue <==> !self.shutting_down,
    {
        match self.started_at {
            None => ShutdownAction::Continue,
            Some(t) => {
                if active_connections == 0 {
                    return ShutdownAction::Exit;
                }
                let elapsed: u64 = if now >= t {
                    now - t
                } else {
                    0
                };
                if elapsed >= self.config.force_timeout_ms {
                    ShutdownAction::ForceExit
                } else if elapsed >= self.config.graceful_timeout_ms {
                    ShutdownAction::CloseConnections
                } else {
                    ShutdownAction::Drain { remaining_ms: self.config.graceful_timeout_ms - elapsed }
                }
            },
        }
    }
}

/// Graceful shutdown: from the moment a shutdown starts, requests in flight
/// are waited for during the grace period and no longer; the process leaves
/// cleanly as soon as nothing is open, and by force, with a non-zero exit
/// code, once the force timeout has passed with connections still open.
pub proof fn lemma_shutdown_deadlines(c: ShutdownConfig, start: u64, now: u64, active: usize)
    requires
        now >= start,
    ensures
        active == 0 ==> action_at(c, Some(start), now, active) == ShutdownAction::Exit,
        active > 0 && now - start >= c.force_timeout_ms ==> action_at(c, Some(start), now, active)
            == ShutdownAction::ForceExit,
        active > 0 && now - start < c.force_timeout_ms && now - start < c.graceful_timeout_ms
            ==> (action_at(c, Some(start), now, active) matches ShutdownAction::Drain {
            remaining_ms,
        } && now + remaining_ms == start + c.graceful_timeout_ms),
        active > 0 && c.graceful_timeout_ms <= now - start < c.force_timeout_ms ==> action_at(
            c,
            Some(start),
            now,
            active,
        ) == ShutdownAction::CloseConnections,
        !(action_at(c, Some(start), now, active) is Continue),
        exit_code_of(action_at(c, Some(start), now, active)) == Some(0int as i32) <==> active == 0,
{
}

impl ShutdownManager {
    /// Whether the manager is consistent.
    pub fn is_consistent(&self) -> (r: bool)
        ensures
            r == self.wf(),
    {
        self.shutting_down == self.reason.is_some() && self.shutting_down
            == self.started_at.is_some()
    }
}

} // verus!
