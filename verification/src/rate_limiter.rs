//! Token-bucket rate limiting.
//!
//! A bucket holds up to `burst_size` tokens and gains `requests_per_second`
//! tokens for every second that passes. A request is admitted where it can
//! take one token. The limiter keeps no clock: the caller hands in the
//! current time, in milliseconds of a clock that never runs backwards.

use crate::bson::str_eq;
use crate::error::FauxDBError;
use crate::text::{concat, frame_text, framed, lemma_framed_injective};
use vstd::prelude::*;

verus! {

/// Milliseconds after which a bucket that nobody has asked is dropped.
pub const BUCKET_IDLE_MS: u64 = 3600000;

/// The limits of one rule.
#[derive(Debug, Clone, Copy, PartialEq, Eq, Structural)]
pub struct RateLimitConfig {
    /// Tokens that a bucket gains per second. At least one.
    pub requests_per_second: u32,
    /// Tokens that a bucket holds at most, and holds when it is made.
    pub burst_size: u32,
    /// Seconds over which admitted requests are counted.
    pub window_size_seconds: u64,
    /// A rule that is not enabled admits every request.
    pub enabled: bool,
}

impl Default for RateLimitConfig {
    fn default() -> (r: Self)
        ensures
            r == (RateLimitConfig {
                requests_per_second: 1000,
                burst_size: 2000,
                window_size_seconds: 60,
                enabled: true,
            }),
    {
        RateLimitConfig {
            requests_per_second: 1000,
            burst_size: 2000,
            window_size_seconds: 60,
            enabled: true,
        }
    }
}

/// Whose requests share a bucket.
#[derive(Debug, PartialEq, Eq)]
pub enum RateLimitScope {
    Global,
    PerUser(String),
    PerIP(String),
    PerDatabase(String),
    /// Database, then collection.
    PerCollection(String, String),
}

/// A named rule.
#[derive(Debug, PartialEq, Eq)]
pub struct RateLimitRule {
    pub name: String,
    pub config: RateLimitConfig,
    pub scope: RateLimitScope,
}

/// A bucket of tokens.
#[derive(Debug, Clone, Copy, PartialEq, Eq, Structural)]
pub struct TokenBucket {
    pub capacity: u32,
    pub tokens: u32,
    /// When tokens were last added, in milliseconds.
    pub last_refill: u64,
    /// Tokens gained per second.
    pub refill_rate: u32,
}

/// A bucket with what the limiter counts beside it.
#[derive(Debug, Clone, Copy, PartialEq, Eq, Structural)]
pub struct RateLimitEntry {
    pub bucket: TokenBucket,
    pub last_request: u64,
    pub request_count: u64,
    pub window_start: u64,
}

/// The answer to a request.
#[derive(Debug, Clone, Copy, PartialEq, Eq, Structural)]
pub enum RateLimitResult {
    Allowed,
    RateLimited { retry_after_seconds: u64, limit: u32, window_seconds: u64 },
}

/// Where a bucket stands.
#[derive(Debug)]
pub struct RateLimitStatus {
    pub rule_name: String,
    pub scope: RateLimitScope,
    pub tokens_available: u32,
    pub tokens_limit: u32,
    pub requests_in_window: u64,
    pub window_seconds: u64,
    pub time_until_next_token_ms: u64,
    pub last_request_time: u64,
}

impl RateLimitResult {
    /// Whether the request was admitted.
    pub fn is_allowed(&self) -> (r: bool)
        ensures
            r == (*self is Allowed),
    {
        match self {
            RateLimitResult::Allowed => true,
            _ => false,
        }
    }

    /// Seconds after which a refused request may be sent again.
    pub fn retry_after_seconds(&self) -> (r: Option<u64>)
        ensures
            r == match *self {
                RateLimitResult::Allowed => None::<u64>,
                RateLimitResult::RateLimited { retry_after_seconds, .. } => Some(
                    retry_after_seconds,
                ),
            },
    {
        match self {
            RateLimitResult::Allowed => None,
            RateLimitResult::RateLimited { retry_after_seconds, .. } => Some(*retry_after_seconds),
        }
    }
}

/// Milliseconds from `start` to `now`; zero where `now` is not later.
pub open spec fn since(start: u64, now: u64) -> u64 {
    if now >= start {
        (now - start) as u64
    } else {
        0
    }
}

/// Whole tokens that a bucket gains in `elapsed` milliseconds.
pub open spec fn tokens_due(elapsed: u64, rate: u32) -> int {
    (elapsed * rate) / 1000
}

/// The bucket at `now`: where at least one whole token is due since the
/// last refill, the tokens due are added, up to the capacity, and the time
/// of the refill moves to `now`.
pub open spec fn refilled(b: TokenBucket, now: u64) -> TokenBucket {
    let due = tokens_due(since(b.last_refill, now), b.refill_rate);
    if due > 0 {
        TokenBucket {
            tokens: if b.tokens + due >= b.capacity {
                b.capacity
            } else {
                (b.tokens + due) as u32
            },
            last_refill: now,
            ..b
        }
    } else {
        b
    }
}

/// The bucket after an attempt to take `n` tokens at `now`, and whether
/// the tokens were taken.
pub open spec fn consumed(b: TokenBucket, now: u64, n: u32) -> (TokenBucket, bool) {
    let r = refilled(b, now);
    if r.tokens >= n {
        (TokenBucket { tokens: (r.tokens - n) as u32, ..r }, true)
    } else {
        (r, false)
    }
}

/// The entry that a first request at `now` makes under a rule.
pub open spec fn fresh_entry(c: RateLimitConfig, now: u64) -> RateLimitEntry {
    RateLimitEntry {
        bucket: TokenBucket {
            capacity: c.burst_size,
            tokens: c.burst_size,
            last_refill: now,
            refill_rate: c.requests_per_second,
        },
        last_request: now,
        request_count: 0,
        window_start: now,
    }
}

/// The entry with its counting window started anew where the window is
/// over at `now`.
pub open spec fn window_reset(e: RateLimitEntry, window_seconds: u64, now: u64) -> RateLimitEntry {
    if since(e.window_start, now) / 1000 >= window_seconds {
        RateLimitEntry { window_start: now, request_count: 0, ..e }
    } else {
        e
    }
}

/// `x + 1`, or `x` at the top of the range.
pub open spec fn next_count(x: u64) -> u64 {
    if x < u64::MAX {
        (x + 1) as u64
    } else {
        x
    }
}

/// The entry after a request at `now`, and whether the request is admitted.
pub open spec fn checked(e: RateLimitEntry, c: RateLimitConfig, now: u64) -> (RateLimitEntry, bool) {
    let w = window_reset(e, c.window_size_seconds, now);
    let (b, ok) = consumed(w.bucket, now, 1);
    if ok {
        (
            RateLimitEntry {
                bucket: b,
                last_request: now,
                request_count: next_count(w.request_count),
                ..w
            },
            true,
        )
    } else {
        (RateLimitEntry { bucket: b, ..w }, false)
    }
}

/// Seconds that a refused request is told to wait: the time one token
/// takes, rounded down, and at least one second.
pub open spec fn retry_seconds(c: RateLimitConfig) -> u64 {
    let t = 1int / (c.requests_per_second as int);
    if t >= 1 {
        t as u64
    } else {
        1
    }
}

/// A rule that gains at least one token per second tells a refused request
/// to wait one second.
pub proof fn lemma_retry_seconds(c: RateLimitConfig)
    requires
        c.requests_per_second >= 1,
    ensures
        retry_seconds(c) == 1,
{
    let r = c.requests_per_second as int;
    assert(0 <= 1int / r <= 1) by (nonlinear_arith)
        requires
            r >= 1,
    ;
}

/// Milliseconds until a bucket gains a token: none where it holds one,
/// a thousand divided by the tokens that it gains in a second, rounded
/// up, where it is empty; a bucket that gains nothing waits for ever.
pub open spec fn wait_for_token(b: TokenBucket) -> u64 {
    if b.tokens > 0 {
        0
    } else if b.refill_rate == 0 {
        u64::MAX
    } else {
        ((1000 + b.refill_rate - 1) / (b.refill_rate as int)) as u64
    }
}

/// The answer that goes with the outcome of a check.
pub open spec fn answer(c: RateLimitConfig, admitted: bool) -> RateLimitResult {
    if admitted {
        RateLimitResult::Allowed
    } else {
        RateLimitResult::RateLimited {
            retry_after_seconds: retry_seconds(c),
            limit: c.requests_per_second,
            window_seconds: c.window_size_seconds,
        }
    }
}

/// `a` divided by `b`, rounded up.
pub open spec fn ceil_div(a: int, b: int) -> int {
    (a + b - 1) / b
}

/// The entry after `n` requests, all of them at `now`.
pub open spec fn after_checks(e: RateLimitEntry, c: RateLimitConfig, now: u64, n: nat) -> RateLimitEntry
    decreases n,
{
    if n == 0 {
        e
    } else {
        after_checks(checked(e, c, now).0, c, now, (n - 1) as nat)
    }
}

/// An entry that was made or refilled at `now` loses one token with each
/// request at `now`, as long as it has one.
proof fn lemma_checks_take_tokens(e: RateLimitEntry, c: RateLimitConfig, now: u64, n: nat)
    requires
        e.bucket.last_refill == now,
        e.window_start == now,
        e.bucket.tokens >= n,
    ensures
        after_checks(e, c, now, n).bucket.tokens == e.bucket.tokens - n,
        after_checks(e, c, now, n).bucket.last_refill == now,
        after_checks(e, c, now, n).window_start == now,
        after_checks(e, c, now, n).bucket.capacity == e.bucket.capacity,
        after_checks(e, c, now, n).bucket.refill_rate == e.bucket.refill_rate,
        n >= 1 ==> checked(e, c, now).1,
    decreases n,
{
    assert(tokens_due(0, e.bucket.refill_rate) == 0) by (nonlinear_arith);
    if n > 0 {
        assert(since(now, now) == 0);
        assert(refilled(e.bucket, now) == e.bucket);
        lemma_checks_take_tokens(checked(e, c, now).0, c, now, (n - 1) as nat);
    }
}

/// Rate limiting: of the requests that reach a new bucket at one instant,
/// the first `burst_size` are admitted and the next one is refused, with a
/// wait of at most the time one token takes, rounded up to whole seconds.
pub proof fn lemma_burst_then_limited(c: RateLimitConfig, now: u64, k: nat)
    requires
        c.requests_per_second >= 1,
        k < c.burst_size,
    ensures
        checked(after_checks(fresh_entry(c, now), c, now, k), c, now).1,
        !checked(after_checks(fresh_entry(c, now), c, now, c.burst_size as nat), c, now).1,
        answer(c, false) matches RateLimitResult::RateLimited { retry_after_seconds, .. }
            && retry_after_seconds <= ceil_div(1, c.requests_per_second as int),
{
    let f = fresh_entry(c, now);
    lemma_checks_take_tokens(f, c, now, k);
    let ek = after_checks(f, c, now, k);
    lemma_checks_take_tokens(ek, c, now, 1);
    lemma_checks_take_tokens(f, c, now, c.burst_size as nat);
    let eb = after_checks(f, c, now, c.burst_size as nat);
    assert(tokens_due(0, eb.bucket.refill_rate) == 0) by (nonlinear_arith);
    assert(refilled(eb.bucket, now) == eb.bucket);
    let r = c.requests_per_second as int;
    assert(ceil_div(1, r) == 1) by (nonlinear_arith)
        requires
            r >= 1,
    ;
    lemma_retry_seconds(c);
}

impl TokenBucket {
    /// A full bucket.
    pub fn new(capacity: u32, refill_rate: u32, now: u64) -> (r: Self)
        ensures
            r == (TokenBucket { capacity, tokens: capacity, last_refill: now, refill_rate }),
    {
        TokenBucket { capacity, tokens: capacity, last_refill: now, refill_rate }
    }

    /// Adds the tokens that are due at `now`.
    pub fn refill(&mut self, now: u64)
        ensures
            *final(self) == refilled(*old(self), now),
    {
        let elapsed: u64 = if now >= self.last_refill {
            now - self.last_refill
        } else {
            0
        };
        assert(elapsed * self.refill_rate <= u64::MAX * u32::MAX) by (nonlinear_arith)
            requires
                elapsed <= u64::MAX,
                self.refill_rate <= u32::MAX,
        ;
        let due: u128 = (elapsed as u128) * (self.refill_rate as u128) / 1000;
        if due > 0 {
            if self.tokens >= self.capacity {
                self.tokens = self.capacity;
            } else if due >= (self.capacity - self.tokens) as u128 {
                self.tokens = self.capacity;
            } else {
                self.tokens = self.tokens + (due as u32);
            }
            self.last_refill = now;
        }
    }

    /// Takes `n` tokens at `now` where the bucket holds as many.
    pub fn try_consume(&mut self, n: u32, now: u64) -> (r: bool)
        ensures
            (*final(self), r) == consumed(*old(self), now, n),
    {
        self.refill(now);
        if self.tokens >= n {
            self.tokens = self.tokens - n;
            true
        } else {
            false
        }
    }

    /// Milliseconds until the bucket gains a token.
    pub fn time_until_next_token(&self) -> (r: u64)
        ensures
            r == wait_for_token(*self),
    {
        if self.tokens > 0 {
            0
        } else if self.refill_rate == 0 {
            u64::MAX
        } else {
            (1000 + (self.refill_rate as u64) - 1) / (self.refill_rate as u64)
        }
    }

    /// The tokens that the bucket holds at `now`.
    pub fn tokens_available(&mut self, now: u64) -> (r: u32)
        ensures
            *final(self) == refilled(*old(self), now),
            r == final(self).tokens,
    {
        self.refill(now);
        self.tokens
    }
}

impl RateLimitEntry {
    /// The entry that a first request at `now` makes under a rule.
    pub fn new(config: &RateLimitConfig, now: u64) -> (r: Self)
        ensures
            r == fresh_entry(*config, now),
    {
        RateLimitEntry {
            bucket: TokenBucket::new(config.burst_size, config.requests_per_second, now),
            last_request: now,
            request_count: 0,
            window_start: now,
        }
    }

    /// Starts the counting window anew where it is over at `now`.
    pub fn reset_window_if_needed(&mut self, window_seconds: u64, now: u64)
        ensures
            *final(self) == window_reset(*old(self), window_seconds, now),
    {
        let elapsed: u64 = if now >= self.window_start {
            now - self.window_start
        } else {
            0
        };
        if elapsed / 1000 >= window_seconds {
            self.window_start = now;
            self.request_count = 0;
        }
    }

    /// Counts a request at `now` and says whether it is admitted.
    pub fn check(&mut self, config: &RateLimitConfig, now: u64) -> (r: bool)
        ensures
            (*final(self), r) == checked(*old(self), *config, now),
    {
        self.reset_window_if_needed(config.window_size_seconds, now);
        if self.bucket.try_consume(1, now) {
            self.last_request = now;
            if self.request_count < u64::MAX {
                self.request_count = self.request_count + 1;
            }
            true
        } else {
            false
        }
    }
}

/// Whether two scopes are the same: the same kind, with the same names.
pub open spec fn same_scope(a: RateLimitScope, b: RateLimitScope) -> bool {
    match (a, b) {
        (RateLimitScope::Global, RateLimitScope::Global) => true,
        (RateLimitScope::PerUser(x), RateLimitScope::PerUser(y)) => x@ == y@,
        (RateLimitScope::PerIP(x), RateLimitScope::PerIP(y)) => x@ == y@,
        (RateLimitScope::PerDatabase(x), RateLimitScope::PerDatabase(y)) => x@ == y@,
        (RateLimitScope::PerCollection(d, c), RateLimitScope::PerCollection(e, f)) => d@ == e@
            && c@ == f@,
        _ => false,
    }
}

/// The text of a scope: its kind and its names. The database of a
/// collection stands behind its length, so that the collection can be
/// told from it.
pub open spec fn scope_text(scope: RateLimitScope) -> Seq<char> {
    match scope {
        RateLimitScope::Global => "global"@,
        RateLimitScope::PerUser(u) => "user:"@ + u@,
        RateLimitScope::PerIP(ip) => "ip:"@ + ip@,
        RateLimitScope::PerDatabase(db) => "db:"@ + db@,
        RateLimitScope::PerCollection(db, c) => "coll:"@ + (framed(db@) + (seq![':'] + c@)),
    }
}

/// The name under which the requests of a scope share a bucket of a rule:
/// the name of the rule behind its length, a colon, and the text of the
/// scope.
pub open spec fn bucket_key(rule: Seq<char>, scope: RateLimitScope) -> Seq<char> {
    framed(rule) + (seq![':'] + scope_text(scope))
}

/// Different scopes have different texts.
pub proof fn lemma_scope_text_injective(a: RateLimitScope, b: RateLimitScope)
    requires
        scope_text(a) == scope_text(b),
    ensures
        same_scope(a, b),
{
    reveal_strlit("global");
    reveal_strlit("user:");
    reveal_strlit("ip:");
    reveal_strlit("db:");
    reveal_strlit("coll:");
    let s = scope_text(a);
    let t = scope_text(b);
    assert(s.len() > 0 && t.len() > 0 && s[0] == t[0]);
    assert(s[0] == match a {
        RateLimitScope::Global => 'g',
        RateLimitScope::PerUser(_) => 'u',
        RateLimitScope::PerIP(_) => 'i',
        RateLimitScope::PerDatabase(_) => 'd',
        RateLimitScope::PerCollection(_, _) => 'c',
    });
    assert(t[0] == match b {
        RateLimitScope::Global => 'g',
        RateLimitScope::PerUser(_) => 'u',
        RateLimitScope::PerIP(_) => 'i',
        RateLimitScope::PerDatabase(_) => 'd',
        RateLimitScope::PerCollection(_, _) => 'c',
    });
    match (a, b) {
        (RateLimitScope::PerUser(x), RateLimitScope::PerUser(y)) => {
            assert(x@ =~= s.skip(5));
            assert(y@ =~= t.skip(5));
        },
        (RateLimitScope::PerIP(x), RateLimitScope::PerIP(y)) => {
            assert(x@ =~= s.skip(3));
            assert(y@ =~= t.skip(3));
        },
        (RateLimitScope::PerDatabase(x), RateLimitScope::PerDatabase(y)) => {
            assert(x@ =~= s.skip(3));
            assert(y@ =~= t.skip(3));
        },
        (RateLimitScope::PerCollection(d, c), RateLimitScope::PerCollection(e, f)) => {
            let u = framed(d@) + (seq![':'] + c@);
            let v = framed(e@) + (seq![':'] + f@);
            assert(u =~= s.skip(5));
            assert(v =~= t.skip(5));
            lemma_framed_injective(d@, seq![':'] + c@, e@, seq![':'] + f@);
            assert(c@ =~= (seq![':'] + c@).skip(1));
            assert(f@ =~= (seq![':'] + f@).skip(1));
        },
        _ => {},
    }
}

/// No two buckets share a name: requests share a bucket only where they
/// come under the same rule from the same scope.
pub proof fn lemma_bucket_key_injective(
    rule: Seq<char>,
    scope: RateLimitScope,
    other_rule: Seq<char>,
    other_scope: RateLimitScope,
)
    requires
        bucket_key(rule, scope) == bucket_key(other_rule, other_scope),
    ensures
        rule == other_rule,
        same_scope(scope, other_scope),
{
    let a = seq![':'] + scope_text(scope);
    let b = seq![':'] + scope_text(other_scope);
    lemma_framed_injective(rule, a, other_rule, b);
    assert(scope_text(scope) =~= a.skip(1));
    assert(scope_text(other_scope) =~= b.skip(1));
    lemma_scope_text_injective(scope, other_scope);
}

/// Index of the first rule at or after `i` that is named `name`; the number
/// of rules where there is none.
pub open spec fn rule_index_from(rules: Seq<RateLimitRule>, name: Seq<char>, i: int) -> int
    decreases rules.len() - i,
{
    if i < 0 || i >= rules.len() {
        rules.len() as int
    } else if rules[i].name@ == name {
        i
    } else {
        rule_index_from(rules, name, i + 1)
    }
}

/// Index of the first rule named `name`; the number of rules where there
/// is none.
pub open spec fn rule_index(rules: Seq<RateLimitRule>, name: Seq<char>) -> int {
    rule_index_from(rules, name, 0)
}

/// The limits of the rule named `name`.
pub open spec fn rule_config(rules: Seq<RateLimitRule>, name: Seq<char>) -> Option<RateLimitConfig> {
    if rule_index(rules, name) < rules.len() {
        Some(rules[rule_index(rules, name)].config)
    } else {
        None
    }
}

/// Index of the first bucket at or after `i` under `key`; the number of
/// buckets where there is none.
pub open spec fn entry_index_from(b: Seq<(String, RateLimitEntry)>, key: Seq<char>, i: int) -> int
    decreases b.len() - i,
{
    if i < 0 || i >= b.len() {
        b.len() as int
    } else if b[i].0@ == key {
        i
    } else {
        entry_index_from(b, key, i + 1)
    }
}

/// Index of the first bucket under `key`; the number of buckets where
/// there is none.
pub open spec fn entry_index(b: Seq<(String, RateLimitEntry)>, key: Seq<char>) -> int {
    entry_index_from(b, key, 0)
}

/// The entry under `key`.
pub open spec fn entry_of(b: Seq<(String, RateLimitEntry)>, key: Seq<char>) -> Option<RateLimitEntry> {
    if entry_index(b, key) < b.len() {
        Some(b[entry_index(b, key)].1)
    } else {
        None
    }
}

proof fn lemma_rule_index_skip(rules: Seq<RateLimitRule>, name: Seq<char>, i: int)
    requires
        0 <= i <= rules.len(),
        forall|j: int| 0 <= j < i ==> (#[trigger] rules[j]).name@ != name,
    ensures
        rule_index_from(rules, name, i) == rule_index(rules, name),
    decreases i,
{
    if i > 0 {
        lemma_rule_index_skip(rules, name, i - 1);
        assert(rules[i - 1].name@ != name);
    }
}

proof fn lemma_entry_index_skip(b: Seq<(String, RateLimitEntry)>, key: Seq<char>, i: int)
    requires
        0 <= i <= b.len(),
        forall|j: int| 0 <= j < i ==> (#[trigger] b[j]).0@ != key,
    ensures
        entry_index_from(b, key, i) == entry_index(b, key),
    decreases i,
{
    if i > 0 {
        lemma_entry_index_skip(b, key, i - 1);
        assert(b[i - 1].0@ != key);
    }
}

proof fn lemma_entry_index_from(b: Seq<(String, RateLimitEntry)>, key: Seq<char>, i: int)
    requires
        0 <= i <= b.len(),
    ensures
        i <= entry_index_from(b, key, i) <= b.len(),
        entry_index_from(b, key, i) < b.len() ==> b[entry_index_from(b, key, i)].0@ == key,
        forall|j: int| i <= j < entry_index_from(b, key, i) ==> (#[trigger] b[j]).0@ != key,
    decreases b.len() - i,
{
    if i < b.len() && b[i].0@ != key {
        lemma_entry_index_from(b, key, i + 1);
    }
}

proof fn lemma_rule_index_from(rules: Seq<RateLimitRule>, name: Seq<char>, i: int)
    requires
        0 <= i <= rules.len(),
    ensures
        i <= rule_index_from(rules, name, i) <= rules.len(),
        rule_index_from(rules, name, i) < rules.len() ==> rules[rule_index_from(
            rules,
            name,
            i,
        )].name@ == name,
        forall|j: int| i <= j < rule_index_from(rules, name, i) ==> (#[trigger] rules[j]).name@ != name,
    decreases rules.len() - i,
{
    if i < rules.len() && rules[i].name@ != name {
        lemma_rule_index_from(rules, name, i + 1);
    }
}

/// The buckets that stay when the idle ones are dropped at `now`.
pub open spec fn kept(b: Seq<(String, RateLimitEntry)>, now: u64) -> Seq<(String, RateLimitEntry)>
    decreases b.len(),
{
    if b.len() == 0 {
        b
    } else if since(b.last().1.last_request, now) < BUCKET_IDLE_MS {
        kept(b.drop_last(), now).push(b.last())
    } else {
        kept(b.drop_last(), now)
    }
}

/// The rules and buckets of a limiter.
#[derive(Debug)]
pub struct RateLimiter {
    pub rules: Vec<RateLimitRule>,
    pub buckets: Vec<(String, RateLimitEntry)>,
    pub cleanup_interval_ms: u64,
}

impl RateLimitScope {
    /// A copy of the scope.
    pub fn clone_scope(&self) -> (r: Self)
        ensures
            r == *self,
    {
        match self {
            RateLimitScope::Global => RateLimitScope::Global,
            RateLimitScope::PerUser(u) => RateLimitScope::PerUser(u.clone()),
            RateLimitScope::PerIP(ip) => RateLimitScope::PerIP(ip.clone()),
            RateLimitScope::PerDatabase(db) => RateLimitScope::PerDatabase(db.clone()),
            RateLimitScope::PerCollection(db, c) => RateLimitScope::PerCollection(
                db.clone(),
                c.clone(),
            ),
        }
    }
}

/// What is said of a rule that the limiter does not hold.
pub open spec fn no_such_rule(name: Seq<char>) -> Seq<char> {
    "Rate limit rule '"@ + name + "' not found"@
}

impl RateLimiter {
    /// Every rule gains at least one token per second.
    pub open spec fn wf(&self) -> bool {
        forall|i: int|
            0 <= i < self.rules@.len() ==> (#[trigger] self.rules@[i]).config.requests_per_second
                >= 1
    }

    /// A limiter without rules.
    pub fn new() -> (r: Self)
        ensures
            r.wf(),
            r.rules@.len() == 0,
            r.buckets@.len() == 0,
            r.cleanup_interval_ms == 300000,
    {
        RateLimiter { rules: Vec::new(), buckets: Vec::new(), cleanup_interval_ms: 300000 }
    }

    /// Index of the rule named `name`.
    pub fn find_rule(&self, name: &str) -> (r: Option<usize>)
        ensures
            match r {
                Some(i) => i < self.rules@.len() && i == rule_index(self.rules@, name@)
                    && self.rules@[i as int].name@ == name@,
                None => rule_index(self.rules@, name@) == self.rules@.len(),
            },
    {
        let mut i: usize = 0;
        while i < self.rules.len()
            invariant
                i <= self.rules.len(),
                forall|j: int| 0 <= j < i ==> (#[trigger] self.rules@[j]).name@ != name@,
            decreases self.rules.len() - i,
        {
            if str_eq(self.rules[i].name.as_str(), name) {
                proof {
                    lemma_rule_index_skip(self.rules@, name@, i as int);
                }
                return Some(i);
            }
            i = i + 1;
        }
        proof {
            lemma_rule_index_skip(self.rules@, name@, i as int);
        }
        None
    }

    /// Index of the bucket under `key`.
    pub fn find_bucket(&self, key: &str) -> (r: Option<usize>)
        ensures
            match r {
                Some(i) => i < self.buckets@.len() && i == entry_index(self.buckets@, key@)
                    && self.buckets@[i as int].0@ == key@,
                None => entry_index(self.buckets@, key@) == self.buckets@.len(),
            },
    {
        let mut i: usize = 0;
        while i < self.buckets.len()
            invariant
                i <= self.buckets.len(),
                forall|j: int| 0 <= j < i ==> (#[trigger] self.buckets@[j]).0@ != key@,
            decreases self.buckets.len() - i,
        {
            if str_eq(self.buckets[i].0.as_str(), key) {
                proof {
                    lemma_entry_index_skip(self.buckets@, key@, i as int);
                }
                return Some(i);
            }
            i = i + 1;
        }
        proof {
            lemma_entry_index_skip(self.buckets@, key@, i as int);
        }
        None
    }

    /// Adds a rule. A rule of the same name that is already there is
    /// replaced and keeps its place; the other rules and the buckets stay.
    pub fn add_rule(&mut self, rule: RateLimitRule)
        requires
            old(self).wf(),
            rule.config.requests_per_second >= 1,
        ensures
            final(self).wf(),
            final(self).buckets == old(self).buckets,
            final(self).cleanup_interval_ms == old(self).cleanup_interval_ms,
            rule_config(final(self).rules@, rule.name@) == Some(rule.config),
            forall|n: Seq<char>|
                n != rule.name@ ==> rule_config(final(self).rules@, n) == rule_config(
                    old(self).rules@,
                    n,
                ),
    {
        let ghost before = self.rules@;
        let ghost name = rule.name@;
        match self.find_rule(rule.name.as_str()) {
            Some(i) => {
                let _ = self.rules.remove(i);
                self.rules.insert(i, rule);
                proof {
                    let after = self.rules@;
                    assert(after =~= before.update(i as int, rule));
                    assert forall|j: int| 0 <= j < before.len() implies (
                    #[trigger] before[j]).name@ == after[j].name@ by {}
                    lemma_same_names(before, after, name, 0);
                    assert(after[i as int].config == rule.config);
                    assert forall|n: Seq<char>| n != name implies rule_config(after, n)
                        == rule_config(before, n) by {
                        lemma_same_names(before, after, n, 0);
                        lemma_rule_index_from(before, n, 0);
                        let k = rule_index(before, n);
                        if k < before.len() {
                            assert(k != i);
                            assert(after[k] == before[k]);
                        }
                    }
                }
            },
            None => {
                self.rules.push(rule);
                proof {
                    let after = self.rules@;
                    assert(after =~= before.push(rule));
                    assert forall|n: Seq<char>| n != name implies rule_config(after, n)
                        == rule_config(before, n) by {
                        lemma_rule_index_pushed(before, rule, n, 0);
                        lemma_rule_index_from(before, n, 0);
                        let k = rule_index(before, n);
                        if k < before.len() {
                            assert(after[k] == before[k]);
                        }
                    }
                    lemma_rule_index_pushed(before, rule, name, 0);
                    lemma_rule_index_from(before, name, 0);
                }
            },
        }
    }

    /// The name under which the requests of `scope` share a bucket of the
    /// rule `rule_name`.
    pub fn get_bucket_key(rule_name: &str, scope: &RateLimitScope) -> (r: String)
        ensures
            r@ == bucket_key(rule_name@, *scope),
    {
        proof {
            reveal_strlit(":");
        }
        let mut s = frame_text(rule_name);
        s.append(":");
        match scope {
            RateLimitScope::Global => {
                s.append("global");
            },
            RateLimitScope::PerUser(u) => {
                s.append("user:");
                s.append(u.as_str());
            },
            RateLimitScope::PerIP(ip) => {
                s.append("ip:");
                s.append(ip.as_str());
            },
            RateLimitScope::PerDatabase(db) => {
                s.append("db:");
                s.append(db.as_str());
            },
            RateLimitScope::PerCollection(db, c) => {
                let framed_db = frame_text(db.as_str());
                s.append("coll:");
                s.append(framed_db.as_str());
                s.append(":");
                s.append(c.as_str());
            },
        }
        assert(s@ =~= bucket_key(rule_name@, *scope));
        s
    }

    /// Counts a request of `scope` under the rule `rule_name` at `now`.
    ///
    /// A name that is no rule gives a configuration error and changes
    /// nothing. A rule that is not enabled admits the request and changes
    /// nothing. Otherwise the bucket of the scope, a full one where the
    /// scope has none yet, is refilled and asked for one token: the request
    /// is admitted where it gets the token and refused where it does not.
    /// The buckets of other scopes stay as they are.
    pub fn check_rate_limit(&mut self, rule_name: &str, scope: &RateLimitScope, now: u64) -> (r:
        Result<RateLimitResult, FauxDBError>)
        requires
            old(self).wf(),
        ensures
            final(self).wf(),
            final(self).rules == old(self).rules,
            final(self).cleanup_interval_ms == old(self).cleanup_interval_ms,
            match rule_config(old(self).rules@, rule_name@) {
                None => (r matches Err(FauxDBError::Configuration(m)) && m@ == no_such_rule(
                    rule_name@,
                )) && final(self).buckets == old(self).buckets,
                Some(c) => {
                    let key = bucket_key(rule_name@, *scope);
                    let before = match entry_of(old(self).buckets@, key) {
                        Some(e) => e,
                        None => fresh_entry(c, now),
                    };
                    if !c.enabled {
                        r == Ok::<RateLimitResult, FauxDBError>(RateLimitResult::Allowed)
                            && final(self).buckets == old(self).buckets
                    } else {
                        &&& r == Ok::<RateLimitResult, FauxDBError>(
                            answer(c, checked(before, c, now).1),
                        )
                        &&& entry_of(final(self).buckets@, key) == Some(checked(before, c, now).0)
                        &&& forall|k: Seq<char>|
                            k != key ==> entry_of(final(self).buckets@, k) == entry_of(
                                old(self).buckets@,
                                k,
                            )
                    }
                },
            },
    {
        let ri = match self.find_rule(rule_name) {
            Some(i) => i,
            None => {
                let mut msg = concat("Rate limit rule '", rule_name);
                msg.append("' not found");
                return Err(FauxDBError::Configuration(msg));
            },
        };
        let config = self.rules[ri].config;
        if !config.enabled {
            return Ok(RateLimitResult::Allowed);
        }
        let key = Self::get_bucket_key(rule_name, scope);
        let ghost old_buckets = self.buckets@;
        let admitted;
        match self.find_bucket(key.as_str()) {
            Some(i) => {
                let (k, mut entry) = self.buckets.remove(i);
                admitted = entry.check(&config, now);
                self.buckets.insert(i, (k, entry));
                proof {
                    let after = self.buckets@;
                    assert(after =~= old_buckets.update(i as int, (k, entry)));
                    assert forall|j: int| 0 <= j < old_buckets.len() implies (
                    #[trigger] old_buckets[j]).0@ == after[j].0@ by {}
                    lemma_same_keys(old_buckets, after, key@, 0);
                    assert(after[i as int].1 == entry);
                    assert forall|n: Seq<char>| n != key@ implies entry_of(after, n) == entry_of(
                        old_buckets,
                        n,
                    ) by {
                        lemma_same_keys(old_buckets, after, n, 0);
                        lemma_entry_index_from(old_buckets, n, 0);
                        let x = entry_index(old_buckets, n);
                        if x < old_buckets.len() {
                            assert(x != i);
                            assert(after[x] == old_buckets[x]);
                        }
                    }
                }
            },
            None => {
                let mut entry = RateLimitEntry::new(&config, now);
                admitted = entry.check(&config, now);
                self.buckets.push((key, entry));
                proof {
                    let after = self.buckets@;
                    let last = after.last();
                    assert(after =~= old_buckets.push(last));
                    assert(last.0@ == key@);
                    assert forall|n: Seq<char>| n != key@ implies entry_of(after, n) == entry_of(
                        old_buckets,
                        n,
                    ) by {
                        lemma_entry_index_pushed(old_buckets, last, n, 0);
                        lemma_entry_index_from(old_buckets, n, 0);
                        let k = entry_index(old_buckets, n);
                        if k < old_buckets.len() {
                            assert(after[k] == old_buckets[k]);
                        }
                    }
                    lemma_entry_index_pushed(old_buckets, last, key@, 0);
                    lemma_entry_index_from(old_buckets, key@, 0);
                }
            },
        }
        proof {
            lemma_retry_seconds(config);
        }
        if admitted {
            Ok(RateLimitResult::Allowed)
        } else {
            Ok(
                RateLimitResult::RateLimited {
                    retry_after_seconds: 1,
                    limit: config.requests_per_second,
                    window_seconds: config.window_size_seconds,
                },
            )
        }
    }

    /// Where the bucket of `scope` under the rule `rule_name` stands at
    /// `now`. Nothing is changed: a scope without a bucket is shown a full
    /// one.
    pub fn get_rate_limit_status(&self, rule_name: &str, scope: &RateLimitScope, now: u64) -> (r:
        Result<RateLimitStatus, FauxDBError>)
        ensures
            match rule_config(self.rules@, rule_name@) {
                None => r matches Err(FauxDBError::Configuration(m)) && m@ == no_such_rule(
                    rule_name@,
                ),
                Some(c) => {
                    let key = bucket_key(rule_name@, *scope);
                    let e = match entry_of(self.buckets@, key) {
                        Some(e) => e,
                        None => fresh_entry(c, now),
                    };
                    r matches Ok(s) && s.rule_name@ == rule_name@ && s.scope == *scope
                        && s.tokens_available == refilled(e.bucket, now).tokens && s.tokens_limit
                        == c.burst_size && s.requests_in_window == e.request_count
                        && s.window_seconds == c.window_size_seconds && s.last_request_time
                        == e.last_request && s.time_until_next_token_ms == wait_for_token(
                        refilled(e.bucket, now),
                    )
                },
            },
    {
        let ri = match self.find_rule(rule_name) {
            Some(i) => i,
            None => {
                let mut msg = concat("Rate limit rule '", rule_name);
                msg.append("' not found");
                return Err(FauxDBError::Configuration(msg));
            },
        };
        let config = self.rules[ri].config;
        let key = Self::get_bucket_key(rule_name, scope);
        let entry = match self.find_bucket(key.as_str()) {
            Some(i) => self.buckets[i].1,
            None => RateLimitEntry::new(&config, now),
        };
        let mut bucket = entry.bucket;
        let tokens = bucket.tokens_available(now);
        Ok(
            RateLimitStatus {
                rule_name: rule_name.to_owned(),
                scope: scope.clone_scope(),
                tokens_available: tokens,
                tokens_limit: config.burst_size,
                requests_in_window: entry.request_count,
                window_seconds: config.window_size_seconds,
                time_until_next_token_ms: bucket.time_until_next_token(),
                last_request_time: entry.last_request,
            },
        )
    }

    /// Drops the buckets that nobody has asked for an hour.
    pub fn cleanup(&mut self, now: u64) -> (dropped: usize)
        ensures
            final(self).rules == old(self).rules,
            final(self).cleanup_interval_ms == old(self).cleanup_interval_ms,
            final(self).buckets@ == kept(old(self).buckets@, now),
            dropped == old(self).buckets@.len() - final(self).buckets@.len(),
    {
        let mut out: Vec<(String, RateLimitEntry)> = Vec::new();
        let mut i: usize = 0;
        while i < self.buckets.len()
            invariant
                i <= self.buckets.len(),
                out@ == kept(self.buckets@.take(i as int), now),
                out@.len() <= i,
            decreases self.buckets.len() - i,
        {
            proof {
                assert(self.buckets@.take(i + 1).drop_last() =~= self.buckets@.take(i as int));
                assert(self.buckets@.take(i + 1).last() == self.buckets@[i as int]);
            }
            let e = self.buckets[i].1;
            let elapsed: u64 = if now >= e.last_request {
                now - e.last_request
            } else {
                0
            };
            if elapsed < BUCKET_IDLE_MS {
                let k = self.buckets[i].0.clone();
                out.push((k, e));
            }
            i = i + 1;
        }
        proof {
            assert(self.buckets@.take(self.buckets@.len() as int) =~= self.buckets@);
        }
        let dropped = self.buckets.len() - out.len();
        self.buckets = out;
        dropped
    }

    /// Adds the five rules that a server starts with: `global`, `per_user`,
    /// `per_ip`, `database_ops` and `write_ops`.
    pub fn create_default_rules(&mut self)
        requires
            old(self).wf(),
        ensures
            final(self).wf(),
            final(self).buckets == old(self).buckets,
            final(self).cleanup_interval_ms == old(self).cleanup_interval_ms,
            rule_config(final(self).rules@, "global"@) == Some(default_rule_config(10000, 20000)),
            rule_config(final(self).rules@, "per_user"@) == Some(default_rule_config(1000, 2000)),
            rule_config(final(self).rules@, "per_ip"@) == Some(default_rule_config(500, 1000)),
            rule_config(final(self).rules@, "database_ops"@) == Some(
                default_rule_config(2000, 4000),
            ),
            rule_config(final(self).rules@, "write_ops"@) == Some(default_rule_config(500, 1000)),
            forall|n: Seq<char>|
                n != "global"@ && n != "per_user"@ && n != "per_ip"@ && n != "database_ops"@ && n
                    != "write_ops"@ ==> rule_config(final(self).rules@, n) == rule_config(
                    old(self).rules@,
                    n,
                ),
    {
        proof {
            reveal_strlit("global");
            reveal_strlit("per_user");
            reveal_strlit("per_ip");
            reveal_strlit("database_ops");
            reveal_strlit("write_ops");
            assert("global"@.len() == 6);
            assert("per_user"@.len() == 8);
            assert("per_ip"@.len() == 6);
            assert("database_ops"@.len() == 12);
            assert("write_ops"@.len() == 9);
            assert("global"@[0] != "per_ip"@[0]);
        }
        self.add_rule(
            RateLimitRule {
                name: String::from_str("global"),
                config: RateLimitConfig {
                    requests_per_second: 10000,
                    burst_size: 20000,
                    window_size_seconds: 60,
                    enabled: true,
                },
                scope: RateLimitScope::Global,
            },
        );
        self.add_rule(
            RateLimitRule {
                name: String::from_str("per_user"),
                config: RateLimitConfig {
                    requests_per_second: 1000,
                    burst_size: 2000,
                    window_size_seconds: 60,
                    enabled: true,
                },
                scope: RateLimitScope::Global,
            },
        );
        self.add_rule(
            RateLimitRule {
                name: String::from_str("per_ip"),
                config: RateLimitConfig {
                    requests_per_second: 500,
                    burst_size: 1000,
                    window_size_seconds: 60,
                    enabled: true,
                },
                scope: RateLimitScope::Global,
            },
        );
        self.add_rule(
            RateLimitRule {
                name: String::from_str("database_ops"),
                config: RateLimitConfig {
                    requests_per_second: 2000,
                    burst_size: 4000,
                    window_size_seconds: 60,
                    enabled: true,
                },
                scope: RateLimitScope::Global,
            },
        );
        self.add_rule(
            RateLimitRule {
                name: String::from_str("write_ops"),
                config: RateLimitConfig {
                    requests_per_second: 500,
                    burst_size: 1000,
                    window_size_seconds: 60,
                    enabled: true,
                },
                scope: RateLimitScope::Global,
            },
        );
    }
}

/// The limits of a rule that a server starts with.
pub open spec fn default_rule_config(rate: u32, burst: u32) -> RateLimitConfig {
    RateLimitConfig {
        requests_per_second: rate,
        burst_size: burst,
        window_size_seconds: 60,
        enabled: true,
    }
}

proof fn lemma_same_names(a: Seq<RateLimitRule>, b: Seq<RateLimitRule>, n: Seq<char>, i: int)
    requires
        a.len() == b.len(),
        forall|j: int| 0 <= j < a.len() ==> (#[trigger] a[j]).name@ == b[j].name@,
        0 <= i <= a.len(),
    ensures
        rule_index_from(a, n, i) == rule_index_from(b, n, i),
    decreases a.len() - i,
{
    if i < a.len() {
        assert(a[i].name@ == b[i].name@);
        lemma_same_names(a, b, n, i + 1);
    }
}

proof fn lemma_same_keys(
    a: Seq<(String, RateLimitEntry)>,
    b: Seq<(String, RateLimitEntry)>,
    n: Seq<char>,
    i: int,
)
    requires
        a.len() == b.len(),
        forall|j: int| 0 <= j < a.len() ==> (#[trigger] a[j]).0@ == b[j].0@,
        0 <= i <= a.len(),
    ensures
        entry_index_from(a, n, i) == entry_index_from(b, n, i),
    decreases a.len() - i,
{
    if i < a.len() {
        assert(a[i].0@ == b[i].0@);
        lemma_same_keys(a, b, n, i + 1);
    }
}

proof fn lemma_rule_index_pushed(a: Seq<RateLimitRule>, r: RateLimitRule, n: Seq<char>, i: int)
    requires
        0 <= i <= a.len(),
    ensures
        rule_index_from(a, n, i) < a.len() ==> rule_index_from(a.push(r), n, i)
            == rule_index_from(a, n, i),
        rule_index_from(a, n, i) == a.len() && r.name@ == n ==> rule_index_from(a.push(r), n, i)
            == a.len(),
        rule_index_from(a, n, i) == a.len() && r.name@ != n ==> rule_index_from(a.push(r), n, i)
            == a.len() + 1,
    decreases a.len() - i,
{
    if i < a.len() {
        assert(a.push(r)[i] == a[i]);
        if a[i].name@ != n {
            lemma_rule_index_pushed(a, r, n, i + 1);
        }
    } else {
        assert(a.push(r)[i] == r);
        assert(rule_index_from(a.push(r), n, i + 1) == a.len() + 1);
    }
}

proof fn lemma_entry_index_pushed(
    a: Seq<(String, RateLimitEntry)>,
    e: (String, RateLimitEntry),
    n: Seq<char>,
    i: int,
)
    requires
        0 <= i <= a.len(),
    ensures
        entry_index_from(a, n, i) < a.len() ==> entry_index_from(a.push(e), n, i)
            == entry_index_from(a, n, i),
        entry_index_from(a, n, i) == a.len() && e.0@ == n ==> entry_index_from(a.push(e), n, i)
            == a.len(),
        entry_index_from(a, n, i) == a.len() && e.0@ != n ==> entry_index_from(a.push(e), n, i)
            == a.len() + 1,
    decreases a.len() - i,
{
    if i < a.len() {
        assert(a.push(e)[i] == a[i]);
        if a[i].0@ != n {
            lemma_entry_index_pushed(a, e, n, i + 1);
        }
    } else {
        assert(a.push(e)[i] == e);
        assert(entry_index_from(a.push(e), n, i + 1) == a.len() + 1);
    }
}

impl RateLimiter {
    /// Whether every rule gains at least one token per second.
    pub fn is_consistent(&self) -> (r: bool)
        ensures
            r == self.wf(),
    {
        let mut i: usize = 0;
        while i < self.rules.len()
            invariant
                i <= self.rules.len(),
                forall|j: int|
                    0 <= j < i ==> (#[trigger] self.rules@[j]).config.requests_per_second >= 1,
            decreases self.rules.len() - i,
        {
            if self.rules[i].config.requests_per_second < 1 {
                return false;
            }
            i = i + 1;
        }
        true
    }
}

} // verus!
