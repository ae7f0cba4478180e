//! The health of a server: how the states of single checks add up.

use vstd::prelude::*;

verus! {

/// How well a server, or a part of it, is.
#[derive(Debug, Clone, Copy, PartialEq, Eq, Structural)]
pub enum HealthState {
    Healthy,
    Degraded,
    Unhealthy,
}

/// The outcome of one check.
#[derive(Debug, Clone)]
pub struct HealthCheck {
    pub status: HealthState,
    pub message: String,
    pub duration_ms: u64,
    pub details: Option<Vec<(String, String)>>,
}

/// How memory is used, in bytes.
#[derive(Debug, Clone, Copy, PartialEq, Eq, Structural)]
pub struct MemoryMetrics {
    pub used_bytes: u64,
    pub total_bytes: u64,
    pub free_bytes: u64,
    pub cache_bytes: u64,
    pub buffer_bytes: u64,
}

impl HealthState {
    /// The name of the state in lower case.
    pub fn as_str(&self) -> (r: &'static str)
        ensures
            r@ == match *self {
                HealthState::Healthy => "healthy"@,
                HealthState::Degraded => "degraded"@,
                HealthState::Unhealthy => "unhealthy"@,
            },
    {
        match self {
            HealthState::Healthy => "healthy",
            HealthState::Degraded => "degraded",
            HealthState::Unhealthy => "unhealthy",
        }
    }

    /// The HTTP status that reports the state: 200 for a server that works,
    /// with or without warnings, 503 for one that does not.
    pub fn http_status(&self) -> (r: u16)
        ensures
            r == (if *self == HealthState::Unhealthy {
                503u16
            } else {
                200u16
            }),
    {
        match self {
            HealthState::Healthy => 200,
            HealthState::Degraded => 200,
            HealthState::Unhealthy => 503,
        }
    }
}

/// Whether some check has the given state.
pub open spec fn some_check_is(checks: Seq<HealthCheck>, s: HealthState) -> bool {
    exists|i: int| 0 <= i < checks.len() && (#[trigger] checks[i]).status == s
}

/// The state of the whole: unhealthy where a check is unhealthy, else
/// degraded where a check is degraded, else healthy.
pub open spec fn overall(checks: Seq<HealthCheck>) -> HealthState {
    if some_check_is(checks, HealthState::Unhealthy) {
        HealthState::Unhealthy
    } else if some_check_is(checks, HealthState::Degraded) {
        HealthState::Degraded
    } else {
        HealthState::Healthy
    }
}

/// The state of the whole server, given the outcomes of its checks.
pub fn determine_overall_status(checks: &Vec<HealthCheck>) -> (r: HealthState)
    ensures
        r == overall(checks@),
{
    let mut has_unhealthy = false;
    let mut has_degraded = false;
    let mut i: usize = 0;
    while i < checks.len()
        invariant
            i <= checks.len(),
            has_unhealthy == some_check_is(checks@.take(i as int), HealthState::Unhealthy),
            has_degraded == some_check_is(checks@.take(i as int), HealthState::Degraded),
        decreases checks.len() - i,
    {
        proof {
            let before = checks@.take(i as int);
            let after = checks@.take(i + 1);
            assert forall|s: HealthState| #[trigger]
                some_check_is(after, s) == (some_check_is(before, s) || checks@[i as int].status
                    == s) by {
                if some_check_is(before, s) {
                    let k = choose|k: int| 0 <= k < before.len() && (#[trigger] before[k]).status == s;
                    assert(after[k].status == s);
                }
                if checks@[i as int].status == s {
                    assert(after[i as int].status == s);
                }
                if some_check_is(after, s) {
                    let k = choose|k: int| 0 <= k < after.len() && (#[trigger] after[k]).status == s;
                    if k < i {
                        assert(before[k].status == s);
                    }
                }
            }
        }
        match checks[i].status {
            HealthState::Unhealthy => {
                has_unhealthy = true;
            },
            HealthState::Degraded => {
                has_degraded = true;
            },
            HealthState::Healthy => {},
        }
        i = i + 1;
    }
    assert(checks@.take(checks@.len() as int) =~= checks@);
    if has_unhealthy {
        HealthState::Unhealthy
    } else if has_degraded {
        HealthState::Degraded
    } else {
        HealthState::Healthy
    }
}

/// The state that a share of use stands for: unhealthy above `bad` of a
/// hundred, degraded above `warn` of a hundred, healthy otherwise. A whole
/// of zero is healthy.
pub open spec fn usage_state(used: u64, total: u64, warn: u64, bad: u64) -> HealthState {
    if total > 0 && used * 100 > total * bad {
        HealthState::Unhealthy
    } else if total > 0 && used * 100 > total * warn {
        HealthState::Degraded
    } else {
        HealthState::Healthy
    }
}

/// The state that a share of use stands for.
pub fn classify_usage(used: u64, total: u64, warn: u64, bad: u64) -> (r: HealthState)
    requires
        warn <= 100,
        bad <= 100,
    ensures
        r == usage_state(used, total, warn, bad),
{
    if total == 0 {
        return HealthState::Healthy;
    }
    assert(total * bad <= u64::MAX * 100 && total * warn <= u64::MAX * 100) by (nonlinear_arith)
        requires
            total <= u64::MAX,
            bad <= 100,
            warn <= 100,
    ;
    let u: u128 = (used as u128) * 100;
    let b: u128 = (total as u128) * (bad as u128);
    let w: u128 = (total as u128) * (warn as u128);
    if u > b {
        HealthState::Unhealthy
    } else if u > w {
        HealthState::Degraded
    } else {
        HealthState::Healthy
    }
}

/// The state of the memory: unhealthy above ninety of a hundred in use,
/// degraded above eighty.
pub fn classify_memory(m: &MemoryMetrics) -> (r: HealthState)
    ensures
        r == usage_state(m.used_bytes, m.total_bytes, 80, 90),
{
    classify_usage(m.used_bytes, m.total_bytes, 80, 90)
}

/// The state of a disk: unhealthy above ninety-five of a hundred in use,
/// degraded above eighty-five.
pub fn classify_disk(used: u64, total: u64) -> (r: HealthState)
    ensures
        r == usage_state(used, total, 85, 95),
{
    classify_usage(used, total, 85, 95)
}

} // verus!
