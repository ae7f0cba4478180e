//! A circuit breaker: a state machine that lets calls to a dependency pass
//! while it is healthy and refuses them for a while after it has failed.
//!
//! The breaker keeps no clock. Every operation takes the current time, in
//! milliseconds of a clock that never runs backwards, from its caller.

use crate::bson::str_eq;
use crate::error::FauxDBError;
use vstd::prelude::*;

verus! {

/// Where a breaker stands.
#[derive(Debug, Clone, Copy, PartialEq, Eq, Structural)]
pub enum CircuitState {
    /// Calls pass.
    Closed,
    /// Calls are refused.
    Open,
    /// Calls pass as probes.
    HalfOpen,
}

impl CircuitState {
    /// The name of the state in lower case.
    pub fn as_str(&self) -> (r: &'static str)
        ensures
            r@ == match *self {
                CircuitState::Closed => "closed"@,
                CircuitState::Open => "open"@,
                CircuitState::HalfOpen => "half_open"@,
            },
    {
        match self {
            CircuitState::Closed => "closed",
            CircuitState::Open => "open",
            CircuitState::HalfOpen => "half_open",
        }
    }
}

/// The thresholds and windows of a breaker. Times are in milliseconds.
#[derive(Debug, Clone, Copy, PartialEq, Eq, Structural)]
pub struct CircuitBreakerConfig {
    /// Failures that open the breaker, once the volume is reached.
    pub failure_threshold: u32,
    /// Probes that have to succeed in a row to close the breaker again.
    pub success_threshold: u32,
    /// Longest time a guarded call may take.
    pub timeout_ms: u64,
    /// Calls that have to be seen before the breaker may open.
    pub volume_threshold: u32,
    /// Time for which an open breaker refuses calls.
    pub sleep_window_ms: u64,
}

impl Default for CircuitBreakerConfig {
    fn default() -> (r: Self)
        ensures
            r == (CircuitBreakerConfig {
                failure_threshold: 5,
                success_threshold: 3,
                timeout_ms: 30000,
                volume_threshold: 10,
                sleep_window_ms: 60000,
            }),
    {
        CircuitBreakerConfig {
            failure_threshold: 5,
            success_threshold: 3,
            timeout_ms: 30000,
            volume_threshold: 10,
            sleep_window_ms: 60000,
        }
    }
}

/// The counters and times of a breaker.
#[derive(Debug, Clone, Copy, PartialEq, Eq, Structural)]
pub struct CircuitBreakerState {
    pub state: CircuitState,
    pub failure_count: u32,
    pub success_count: u32,
    pub request_count: u32,
    pub last_failure_time: Option<u64>,
    pub last_success_time: Option<u64>,
    pub next_attempt_time: Option<u64>,
}

/// `x + 1`, or `x` at the top of the range.
pub open spec fn bump32(x: u32) -> u32 {
    if x < u32::MAX {
        (x + 1) as u32
    } else {
        x
    }
}

/// `x + 1`, or `x` at the top of the range.
pub open spec fn bump64(x: u64) -> u64 {
    if x < u64::MAX {
        (x + 1) as u64
    } else {
        x
    }
}

/// `a + b`, or the top of the range where the sum lies beyond it.
pub open spec fn add_sat(a: u64, b: u64) -> u64 {
    if a + b > u64::MAX {
        u64::MAX
    } else {
        (a + b) as u64
    }
}

/// The state of a new breaker: closed, nothing counted.
pub open spec fn initial_state() -> CircuitBreakerState {
    CircuitBreakerState {
        state: CircuitState::Closed,
        failure_count: 0,
        success_count: 0,
        request_count: 0,
        last_failure_time: None,
        last_success_time: None,
        next_attempt_time: None,
    }
}

/// Whether an open breaker's window is over at `now`.
pub open spec fn window_over(s: CircuitBreakerState, now: u64) -> bool {
    match s.next_attempt_time {
        Some(t) => now >= t,
        None => true,
    }
}

/// Whether a call is let through at `now`.
pub open spec fn allows(s: CircuitBreakerState, now: u64) -> bool {
    s.state != CircuitState::Open || window_over(s, now)
}

/// The state once a call has asked to pass at `now`: an open breaker whose
/// window is over turns half-open, with its counters at zero, and the call
/// becomes the first probe. Everything else stays.
pub open spec fn after_admit(s: CircuitBreakerState, now: u64) -> CircuitBreakerState {
    if s.state == CircuitState::Open && window_over(s, now) {
        CircuitBreakerState {
            state: CircuitState::HalfOpen,
            failure_count: 0,
            success_count: 0,
            request_count: 0,
            next_attempt_time: None,
            ..s
        }
    } else {
        s
    }
}

/// The opened form of a state: calls are refused until the window is over.
pub open spec fn opened(c: CircuitBreakerConfig, s: CircuitBreakerState, now: u64) -> CircuitBreakerState {
    CircuitBreakerState {
        state: CircuitState::Open,
        next_attempt_time: Some(add_sat(now, c.sleep_window_ms)),
        ..s
    }
}

/// The state once the outcome of a call that was let through is known.
///
/// Closed: the outcome is counted; a failure opens the breaker if and only
/// if the calls seen have reached the volume threshold and the failures the
/// failure threshold. Half-open: a success is counted, and the breaker
/// closes with all counters at zero once the successes in a row reach the
/// success threshold; a failure opens it again. Open: the outcome of a call
/// that was let through before the breaker opened changes nothing.
pub open spec fn after_outcome(
    c: CircuitBreakerConfig,
    s: CircuitBreakerState,
    success: bool,
    now: u64,
) -> CircuitBreakerState {
    match s.state {
        CircuitState::Closed => {
            if success {
                CircuitBreakerState {
                    request_count: bump32(s.request_count),
                    success_count: bump32(s.success_count),
                    last_success_time: Some(now),
                    ..s
                }
            } else {
                let counted = CircuitBreakerState {
                    request_count: bump32(s.request_count),
                    failure_count: bump32(s.failure_count),
                    last_failure_time: Some(now),
                    ..s
                };
                if counted.request_count >= c.volume_threshold && counted.failure_count
                    >= c.failure_threshold {
                    opened(c, counted, now)
                } else {
                    counted
                }
            }
        },
        CircuitState::Open => s,
        CircuitState::HalfOpen => {
            if success {
                if bump32(s.success_count) >= c.success_threshold {
                    initial_state()
                } else {
                    CircuitBreakerState {
                        request_count: bump32(s.request_count),
                        success_count: bump32(s.success_count),
                        failure_count: 0,
                        last_success_time: Some(now),
                        ..s
                    }
                }
            } else {
                opened(
                    c,
                    CircuitBreakerState {
                        request_count: bump32(s.request_count),
                        failure_count: bump32(s.failure_count),
                        success_count: 0,
                        last_failure_time: Some(now),
                        ..s
                    },
                    now,
                )
            }
        },
    }
}

/// The milliseconds after which an open breaker lets a call through again;
/// `None` where the breaker is not open or its window is over.
pub open spec fn retry_after(c: CircuitBreakerConfig, s: CircuitBreakerState, now: u64) -> Option<
    u64,
> {
    if s.state == CircuitState::Open {
        match s.next_attempt_time {
            Some(t) => if t > now {
                Some((t - now) as u64)
            } else {
                None
            },
            None => Some(c.sleep_window_ms),
        }
    } else {
        None
    }
}

fn inc32(x: u32) -> (r: u32)
    ensures
        r == bump32(x),
{
    if x < u32::MAX {
        x + 1
    } else {
        x
    }
}

fn inc64(x: u64) -> (r: u64)
    ensures
        r == bump64(x),
{
    if x < u64::MAX {
        x + 1
    } else {
        x
    }
}

fn add_saturating(a: u64, b: u64) -> (r: u64)
    ensures
        r == add_sat(a, b),
{
    if a > u64::MAX - b {
        u64::MAX
    } else {
        a + b
    }
}

impl CircuitBreakerState {
    /// The state of a new breaker: closed, nothing counted.
    pub fn new() -> (r: Self)
        ensures
            r == initial_state(),
    {
        CircuitBreakerState {
            state: CircuitState::Closed,
            failure_count: 0,
            success_count: 0,
            request_count: 0,
            last_failure_time: None,
            last_success_time: None,
            next_attempt_time: None,
        }
    }

    /// Back to the state of a new breaker.
    pub fn reset(&mut self)
        ensures
            *final(self) == initial_state(),
    {
        self.failure_count = 0;
        self.success_count = 0;
        self.request_count = 0;
        self.last_failure_time = None;
        self.last_success_time = None;
        self.next_attempt_time = None;
        self.state = CircuitState::Closed;
    }
}

/// What a breaker has seen since it was made or reset.
#[derive(Debug, Clone, Copy, PartialEq, Eq, Structural)]
pub struct CircuitBreakerMetrics {
    pub total_requests: u64,
    pub successful_requests: u64,
    pub failed_requests: u64,
    pub circuit_opens: u64,
    pub circuit_closes: u64,
    pub state_changes: u64,
    pub last_state_change: Option<u64>,
}

/// Metrics with nothing counted.
pub open spec fn initial_metrics() -> CircuitBreakerMetrics {
    CircuitBreakerMetrics {
        total_requests: 0,
        successful_requests: 0,
        failed_requests: 0,
        circuit_opens: 0,
        circuit_closes: 0,
        state_changes: 0,
        last_state_change: None,
    }
}

impl Default for CircuitBreakerMetrics {
    fn default() -> (r: Self)
        ensures
            r == initial_metrics(),
    {
        CircuitBreakerMetrics {
            total_requests: 0,
            successful_requests: 0,
            failed_requests: 0,
            circuit_opens: 0,
            circuit_closes: 0,
            state_changes: 0,
            last_state_change: None,
        }
    }
}

/// The metrics once the breaker has gone from `before` to `after` at `now`.
pub open spec fn with_transition(
    m: CircuitBreakerMetrics,
    before: CircuitState,
    after: CircuitState,
    now: u64,
) -> CircuitBreakerMetrics {
    if before == after {
        m
    } else {
        CircuitBreakerMetrics {
            circuit_opens: if after == CircuitState::Open {
                bump64(m.circuit_opens)
            } else {
                m.circuit_opens
            },
            circuit_closes: if after == CircuitState::Closed {
                bump64(m.circuit_closes)
            } else {
                m.circuit_closes
            },
            state_changes: bump64(m.state_changes),
            last_state_change: Some(now),
            ..m
        }
    }
}

/// The metrics once an outcome has been counted.
pub open spec fn with_outcome(m: CircuitBreakerMetrics, success: bool) -> CircuitBreakerMetrics {
    CircuitBreakerMetrics {
        total_requests: bump64(m.total_requests),
        successful_requests: if success {
            bump64(m.successful_requests)
        } else {
            m.successful_requests
        },
        failed_requests: if success {
            m.failed_requests
        } else {
            bump64(m.failed_requests)
        },
        ..m
    }
}

/// What a refused call is told.
#[derive(Debug, Clone, Copy, PartialEq, Eq, Structural)]
pub struct CircuitOpen {
    /// Milliseconds until the breaker lets a call through again.
    pub retry_after_ms: u64,
}

/// A breaker for one dependency.
#[derive(Debug)]
pub struct CircuitBreaker {
    pub name: String,
    pub config: CircuitBreakerConfig,
    pub state: CircuitBreakerState,
    pub metrics: CircuitBreakerMetrics,
}

fn note_transition(m: &mut CircuitBreakerMetrics, before: CircuitState, after: CircuitState, now: u64)
    ensures
        *final(m) == with_transition(*old(m), before, after, now),
{
    let same = match (before, after) {
        (CircuitState::Closed, CircuitState::Closed) => true,
        (CircuitState::Open, CircuitState::Open) => true,
        (CircuitState::HalfOpen, CircuitState::HalfOpen) => true,
        _ => false,
    };
    if !same {
        match after {
            CircuitState::Open => {
                m.circuit_opens = inc64(m.circuit_opens);
            },
            CircuitState::Closed => {
                m.circuit_closes = inc64(m.circuit_closes);
            },
            CircuitState::HalfOpen => {},
        }
        m.state_changes = inc64(m.state_changes);
        m.last_state_change = Some(now);
    }
}

impl CircuitBreaker {
    /// A closed breaker with nothing counted.
    pub fn new(name: String, config: CircuitBreakerConfig) -> (r: Self)
        ensures
            r.name == name,
            r.config == config,
            r.state == initial_state(),
            r.metrics == initial_metrics(),
    {
        CircuitBreaker {
            name,
            config,
            state: CircuitBreakerState::new(),
            metrics: CircuitBreakerMetrics::default(),
        }
    }

    /// Whether a call would be let through at `now`.
    pub fn should_allow_request(&self, now: u64) -> (r: bool)
        ensures
            r == allows(self.state, now),
    {
        match self.state.state {
            CircuitState::Closed => true,
            CircuitState::Open => match self.state.next_attempt_time {
                Some(t) => now >= t,
                None => true,
            },
            CircuitState::HalfOpen => true,
        }
    }

    /// Asks to let a call pass at `now`. An open breaker whose window is
    /// not over refuses and changes nothing; one whose window is over turns
    /// half-open and lets the call pass as its first probe.
    pub fn begin_call(&mut self, now: u64) -> (r: Result<(), CircuitOpen>)
        ensures
            final(self).name == old(self).name,
            final(self).config == old(self).config,
            match r {
                Ok(()) => allows(old(self).state, now) && final(self).state == after_admit(
                    old(self).state,
                    now,
                ) && final(self).metrics == with_transition(
                    old(self).metrics,
                    old(self).state.state,
                    final(self).state.state,
                    now,
                ),
                Err(e) => !allows(old(self).state, now) && final(self).state == old(self).state
                    && final(self).metrics == old(self).metrics && Some(e.retry_after_ms)
                    == retry_after(old(self).config, old(self).state, now),
            },
    {
        match self.state.state {
            CircuitState::Open => {
                match self.state.next_attempt_time {
                    Some(t) => {
                        if now < t {
                            return Err(CircuitOpen { retry_after_ms: t - now });
                        }
                    },
                    None => {},
                }
                self.state.state = CircuitState::HalfOpen;
                self.state.failure_count = 0;
                self.state.success_count = 0;
                self.state.request_count = 0;
                self.state.next_attempt_time = None;
                note_transition(
                    &mut self.metrics,
                    CircuitState::Open,
                    CircuitState::HalfOpen,
                    now,
                );
                Ok(())
            },
            _ => Ok(()),
        }
    }

    /// Counts the outcome of a call that `begin_call` let through.
    pub fn update_state(&mut self, success: bool, now: u64)
        ensures
            final(self).name == old(self).name,
            final(self).config == old(self).config,
            final(self).state == after_outcome(old(self).config, old(self).state, success, now),
            final(self).metrics == with_transition(
                with_outcome(old(self).metrics, success),
                old(self).state.state,
                final(self).state.state,
                now,
            ),
    {
        let before = self.state.state;
        if self.metrics.total_requests < u64::MAX {
            self.metrics.total_requests = self.metrics.total_requests + 1;
        }
        if success {
            self.metrics.successful_requests = inc64(self.metrics.successful_requests);
        } else {
            self.metrics.failed_requests = inc64(self.metrics.failed_requests);
        }
        match before {
            CircuitState::Closed => {
                self.state.request_count = inc32(self.state.request_count);
                if success {
                    self.state.success_count = inc32(self.state.success_count);
                    self.state.last_success_time = Some(now);
                } else {
                    self.state.failure_count = inc32(self.state.failure_count);
                    self.state.last_failure_time = Some(now);
                    if self.state.request_count >= self.config.volume_threshold
                        && self.state.failure_count >= self.config.failure_threshold {
                        self.state.state = CircuitState::Open;
                        self.state.next_attempt_time = Some(
                            add_saturating(now, self.config.sleep_window_ms),
                        );
                    }
                }
            },
            CircuitState::Open => {},
            CircuitState::HalfOpen => {
                if success {
                    if inc32(self.state.success_count) >= self.config.success_threshold {
                        self.state.reset();
                    } else {
                        self.state.request_count = inc32(self.state.request_count);
                        self.state.success_count = inc32(self.state.success_count);
                        self.state.failure_count = 0;
                        self.state.last_success_time = Some(now);
                    }
                } else {
                    self.state.request_count = inc32(self.state.request_count);
                    self.state.failure_count = inc32(self.state.failure_count);
                    self.state.success_count = 0;
                    self.state.last_failure_time = Some(now);
                    self.state.state = CircuitState::Open;
                    self.state.next_attempt_time = Some(
                        add_saturating(now, self.config.sleep_window_ms),
                    );
                }
            },
        }
        let after = self.state.state;
        note_transition(&mut self.metrics, before, after, now);
    }

    /// Where the breaker stands for a call at `now`: an open breaker whose
    /// window is over counts as half-open.
    pub fn get_state(&self, now: u64) -> (r: CircuitState)
        ensures
            r == after_admit(self.state, now).state,
    {
        match self.state.state {
            CircuitState::Open => {
                if self.should_allow_request(now) {
                    CircuitState::HalfOpen
                } else {
                    CircuitState::Open
                }
            },
            CircuitState::Closed => CircuitState::Closed,
            CircuitState::HalfOpen => CircuitState::HalfOpen,
        }
    }

    /// What the breaker has seen.
    pub fn get_metrics(&self) -> (r: CircuitBreakerMetrics)
        ensures
            r == self.metrics,
    {
        self.metrics
    }

    /// Back to a new breaker: closed, nothing counted, metrics at zero.
    pub fn reset(&mut self)
        ensures
            final(self).name == old(self).name,
            final(self).config == old(self).config,
            final(self).state == initial_state(),
            final(self).metrics == initial_metrics(),
    {
        self.state.reset();
        self.metrics = CircuitBreakerMetrics::default();
    }

    /// Milliseconds until an open breaker lets a call through again.
    pub fn get_retry_after_ms(&self, now: u64) -> (r: Option<u64>)
        ensures
            r == retry_after(self.config, self.state, now),
    {
        match self.state.state {
            CircuitState::Open => match self.state.next_attempt_time {
                Some(t) => {
                    if t > now {
                        Some(t - now)
                    } else {
                        None
                    }
                },
                None => Some(self.config.sleep_window_ms),
            },
            _ => None,
        }
    }
}

/// The state after `n` successful probes in a row, each one admitted and
/// counted at `now`.
pub open spec fn after_probes(c: CircuitBreakerConfig, s: CircuitBreakerState, n: nat, now: u64) -> CircuitBreakerState
    decreases n,
{
    if n == 0 {
        s
    } else {
        after_probes(c, after_outcome(c, after_admit(s, now), true, now), (n - 1) as nat, now)
    }
}

/// Opening: in a closed breaker, a failure that brings the calls seen to
/// the volume threshold and the failures to the failure threshold opens it,
/// and until the window is over every call is refused.
pub proof fn lemma_opens_on_failures(c: CircuitBreakerConfig, s: CircuitBreakerState, now: u64, later: u64)
    requires
        s.state == CircuitState::Closed,
        bump32(s.request_count) >= c.volume_threshold,
        bump32(s.failure_count) >= c.failure_threshold,
        later < add_sat(now, c.sleep_window_ms),
    ensures
        after_outcome(c, s, false, now).state == CircuitState::Open,
        !allows(after_outcome(c, s, false, now), later),
        after_admit(after_outcome(c, s, false, now), later) == after_outcome(c, s, false, now),
{
}

/// A closed breaker stays closed on a failure that leaves the calls seen
/// under the volume threshold or the failures under the failure threshold,
/// and on every success.
pub proof fn lemma_stays_closed(c: CircuitBreakerConfig, s: CircuitBreakerState, success: bool, now: u64)
    requires
        s.state == CircuitState::Closed,
        success || bump32(s.request_count) < c.volume_threshold || bump32(s.failure_count)
            < c.failure_threshold,
    ensures
        after_outcome(c, s, success, now).state == CircuitState::Closed,
{
}

/// Recovery: once the window of an open breaker is over, the next call is
/// let through and the breaker is half-open; from there, as many successful
/// probes in a row as the success threshold asks for close the breaker and
/// put every counter back to zero, and a failed probe opens it again.
pub proof fn lemma_recovery(c: CircuitBreakerConfig, s: CircuitBreakerState, now: u64)
    requires
        s.state == CircuitState::Open,
        window_over(s, now),
        1 <= c.success_threshold < u32::MAX,
    ensures
        allows(s, now),
        after_admit(s, now).state == CircuitState::HalfOpen,
        after_admit(s, now).success_count == 0,
        after_probes(c, s, c.success_threshold as nat, now) == initial_state(),
        after_outcome(c, after_admit(s, now), false, now).state == CircuitState::Open,
{
    let h = after_admit(s, now);
    assert(after_probes(c, s, c.success_threshold as nat, now) == after_probes(
        c,
        after_outcome(c, h, true, now),
        (c.success_threshold - 1) as nat,
        now,
    ));
    if c.success_threshold == 1 {
        assert(after_outcome(c, h, true, now) == initial_state());
        assert(after_probes(c, initial_state(), 0, now) == initial_state());
    } else {
        lemma_probes_close(c, after_outcome(c, h, true, now), (c.success_threshold - 1) as nat, now);
    }
}

/// From a half-open breaker, the probes still missing close it.
proof fn lemma_probes_close(c: CircuitBreakerConfig, s: CircuitBreakerState, n: nat, now: u64)
    requires
        s.state == CircuitState::HalfOpen,
        n >= 1,
        s.success_count + n == c.success_threshold,
        c.success_threshold < u32::MAX,
    ensures
        after_probes(c, s, n, now) == initial_state(),
    decreases n,
{
    let next = after_outcome(c, after_admit(s, now), true, now);
    if n == 1 {
        assert(next == initial_state());
        assert(after_probes(c, next, 0, now) == next);
    } else {
        lemma_probes_close(c, next, (n - 1) as nat, now);
    }
}

/// Breakers by name.
#[derive(Debug)]
pub struct CircuitBreakerManager {
    pub breakers: Vec<CircuitBreaker>,
}

/// Index of the first breaker at or after `i` that is named `name`; the
/// number of breakers where there is none.
pub open spec fn breaker_index_from(b: Seq<CircuitBreaker>, name: Seq<char>, i: int) -> int
    decreases b.len() - i,
{
    if i < 0 || i >= b.len() {
        b.len() as int
    } else if b[i].name@ == name {
        i
    } else {
        breaker_index_from(b, name, i + 1)
    }
}

/// Index of the first breaker named `name`; the number of breakers where
/// there is none.
pub open spec fn breaker_index(b: Seq<CircuitBreaker>, name: Seq<char>) -> int {
    breaker_index_from(b, name, 0)
}

proof fn lemma_breaker_index_skip(b: Seq<CircuitBreaker>, name: Seq<char>, i: int)
    requires
        0 <= i <= b.len(),
        forall|j: int| 0 <= j < i ==> (#[trigger] b[j]).name@ != name,
    ensures
        breaker_index_from(b, name, i) == breaker_index(b, name),
    decreases i,
{
    if i > 0 {
        lemma_breaker_index_skip(b, name, i - 1);
        assert(b[i - 1].name@ != name);
    }
}

/// Whether asking for `name` adds a breaker: none carries the name yet.
pub open spec fn created(b: Seq<CircuitBreaker>, name: Seq<char>) -> bool {
    breaker_index(b, name) == b.len()
}

impl CircuitBreakerManager {
    /// A manager without breakers.
    pub fn new() -> (r: Self)
        ensures
            r.breakers@.len() == 0,
    {
        CircuitBreakerManager { breakers: Vec::new() }
    }

    /// Index of the breaker named `name`.
    pub fn find(&self, name: &str) -> (r: Option<usize>)
        ensures
            match r {
                Some(i) => i < self.breakers@.len() && i == breaker_index(self.breakers@, name@)
                    && self.breakers@[i as int].name@ == name@,
                None => breaker_index(self.breakers@, name@) == self.breakers@.len(),
            },
    {
        let mut i: usize = 0;
        while i < self.breakers.len()
            invariant
                i <= self.breakers.len(),
                forall|j: int| 0 <= j < i ==> (#[trigger] self.breakers@[j]).name@ != name@,
            decreases self.breakers.len() - i,
        {
            if str_eq(self.breakers[i].name.as_str(), name) {
                proof {
                    lemma_breaker_index_skip(self.breakers@, name@, i as int);
                }
                return Some(i);
            }
            i = i + 1;
        }
        proof {
            lemma_breaker_index_skip(self.breakers@, name@, i as int);
        }
        None
    }

    /// Index of the breaker named `name`; where there is none yet, a new
    /// closed breaker with `config` is added under the name.
    pub fn get_or_create(&mut self, name: String, config: CircuitBreakerConfig) -> (r: usize)
        ensures
            r < final(self).breakers@.len(),
            final(self).breakers@[r as int].name@ == name@,
            created(old(self).breakers@, name@) ==> {
                &&& r == old(self).breakers@.len()
                &&& final(self).breakers@.len() == r + 1
                &&& final(self).breakers@.subrange(0, r as int) == old(self).breakers@
                &&& final(self).breakers@[r as int].state == initial_state()
                &&& final(self).breakers@[r as int].metrics == initial_metrics()
                &&& final(self).breakers@[r as int].config == config
            },
            !created(old(self).breakers@, name@) ==> {
                &&& final(self).breakers@ == old(self).breakers@
                &&& r == breaker_index(old(self).breakers@, name@)
            },
    {
        match self.find(name.as_str()) {
            Some(i) => i,
            None => {
                let b = CircuitBreaker::new(name, config);
                self.breakers.push(b);
                assert(self.breakers@.subrange(0, self.breakers@.len() - 1) =~= old(self).breakers@);
                self.breakers.len() - 1
            },
        }
    }

    /// The breaker named `name`.
    pub fn get_breaker(&self, name: &str) -> (r: Option<&CircuitBreaker>)
        ensures
            match r {
                Some(b) => breaker_index(self.breakers@, name@) < self.breakers@.len() && *b
                    == self.breakers@[breaker_index(self.breakers@, name@)],
                None => breaker_index(self.breakers@, name@) == self.breakers@.len(),
            },
    {
        match self.find(name) {
            Some(i) => Some(&self.breakers[i]),
            None => None,
        }
    }

    /// The names of the breakers, in the order in which they were added.
    pub fn list_breakers(&self) -> (r: Vec<String>)
        ensures
            r@.len() == self.breakers@.len(),
            forall|i: int| 0 <= i < r@.len() ==> (#[trigger] r@[i])@ == self.breakers@[i].name@,
    {
        let mut out: Vec<String> = Vec::new();
        let mut i: usize = 0;
        while i < self.breakers.len()
            invariant
                i <= self.breakers.len(),
                out@.len() == i,
                forall|j: int| 0 <= j < i ==> (#[trigger] out@[j])@ == self.breakers@[j].name@,
            decreases self.breakers.len() - i,
        {
            out.push(self.breakers[i].name.clone());
            i = i + 1;
        }
        out
    }

    /// The metrics of every breaker, in the order in which they were added.
    pub fn get_all_metrics(&self) -> (r: Vec<(String, CircuitBreakerMetrics)>)
        ensures
            r@.len() == self.breakers@.len(),
            forall|i: int|
                0 <= i < r@.len() ==> (#[trigger] r@[i]).0@ == self.breakers@[i].name@ && r@[i].1
                    == self.breakers@[i].metrics,
    {
        let mut out: Vec<(String, CircuitBreakerMetrics)> = Vec::new();
        let mut i: usize = 0;
        while i < self.breakers.len()
            invariant
                i <= self.breakers.len(),
                out@.len() == i,
                forall|j: int|
                    0 <= j < i ==> (#[trigger] out@[j]).0@ == self.breakers@[j].name@ && out@[j].1
                        == self.breakers@[j].metrics,
            decreases self.breakers.len() - i,
        {
            out.push((self.breakers[i].name.clone(), self.breakers[i].metrics));
            i = i + 1;
        }
        out
    }
}

impl CircuitBreaker {
    /// Runs an operation under the guard of the breaker at `now`. A
    /// breaker that refuses does not run the operation and answers with
    /// the error "circuit breaker open". Otherwise the operation runs, the
    /// breaker is told whether it succeeded, and what the operation
    /// returned is handed back; the metrics count the outcome and every
    /// change of state on the way.
    pub fn call<T, F: FnOnce() -> Result<T, FauxDBError>>(&mut self, operation: F, now: u64) -> (r:
        Result<T, FauxDBError>)
        requires
            operation.requires(()),
        ensures
            final(self).name == old(self).name,
            final(self).config == old(self).config,
            if allows(old(self).state, now) {
                let admitted = after_admit(old(self).state, now);
                &&& operation.ensures((), r)
                &&& final(self).state == after_outcome(old(self).config, admitted, r is Ok, now)
                &&& final(self).metrics == with_transition(
                    with_outcome(
                        with_transition(
                            old(self).metrics,
                            old(self).state.state,
                            admitted.state,
                            now,
                        ),
                        r is Ok,
                    ),
                    admitted.state,
                    final(self).state.state,
                    now,
                )
            } else {
                (r matches Err(FauxDBError::CircuitBreaker(m)) && m@ == "circuit breaker is open"@)
                    && final(self).state == old(self).state && final(self).metrics == old(self).metrics
            },
    {
        match self.begin_call(now) {
            Err(_) => Err(FauxDBError::CircuitBreaker("circuit breaker is open".to_owned())),
            Ok(()) => {
                let outcome = operation();
                self.update_state(outcome.is_ok(), now);
                outcome
            },
        }
    }
}

impl CircuitBreakerManager {
    /// Puts every breaker back to a new one: closed, nothing counted,
    /// metrics at zero. Names, settings and order stay.
    pub fn reset_all(&mut self)
        ensures
            final(self).breakers@.len() == old(self).breakers@.len(),
            forall|i: int|
                0 <= i < final(self).breakers@.len() ==> {
                    &&& (#[trigger] final(self).breakers@[i]).name == old(self).breakers@[i].name
                    &&& final(self).breakers@[i].config == old(self).breakers@[i].config
                    &&& final(self).breakers@[i].state == initial_state()
                    &&& final(self).breakers@[i].metrics == initial_metrics()
                },
    {
        let mut rest: Vec<CircuitBreaker> = Vec::new();
        core::mem::swap(&mut rest, &mut self.breakers);
        let ghost all = rest@;
        let total = rest.len();
        let mut done: Vec<CircuitBreaker> = Vec::new();
        let mut i: usize = 0;
        while rest.len() > 0
            invariant
                i + rest@.len() == all.len(),
                all.len() == total,
                rest@ == all.skip(i as int),
                done@.len() == i,
                forall|j: int|
                    0 <= j < i ==> {
                        &&& (#[trigger] done@[j]).name == all[j].name
                        &&& done@[j].config == all[j].config
                        &&& done@[j].state == initial_state()
                        &&& done@[j].metrics == initial_metrics()
                    },
            decreases rest@.len(),
        {
            let mut b = rest.remove(0);
            assert(b == all[i as int]);
            assert(rest@ =~= all.skip(i as int + 1));
            b.reset();
            done.push(b);
            i = i + 1;
        }
        self.breakers = done;
    }
}

} // verus!
