//! Token-bucket rate limiting keyed by arbitrary strings, with per-provider
//! override limits and reclamation of idle buckets.
//!
//! Time is counted in nanoseconds since the limiter's clock origin. A bucket
//! with `max_tokens` tokens per `window_seconds` refills at the rate
//! `max_tokens / window_seconds` tokens per second; whole tokens only ever
//! enter the bucket.
use std::time::Instant;
use vstd::prelude::*;

use crate::keyed::{
    filtered, keyed_map, lemma_filter_step, lemma_keyed_map_keys, lemma_keyed_map_last,
    lemma_keyed_map_push, lemma_keyed_map_update, lemma_keyed_map_value,
    lemma_keyed_map_value_from, unique_keys,
};
use crate::text::{before_first, prefix_before};

verus! {

pub const NANOS_PER_SECOND: u64 = 1_000_000_000;

/// How often the idle sweep runs.
pub const CLEANUP_INTERVAL_SECONDS: u64 = 300;

/// A bucket untouched for longer than this is reclaimed by the sweep.
pub const MAX_IDLE_SECONDS: u64 = 3600;

#[verifier::external_type_specification]
#[verifier::external_body]
pub struct ExInstant(std::time::Instant);

/// Relies on std's Instant::now: the current reading of the monotonic clock.
#[verifier::external_body]
pub(crate) fn clock_origin() -> (r: Instant) {
    Instant::now()
}

/// Relies on std's Instant::elapsed: the time since `origin`, in whole
/// nanoseconds, saturated to `u64`.
#[verifier::external_body]
pub(crate) fn nanos_since(origin: &Instant) -> (r: u64) {
    u64::try_from(origin.elapsed().as_nanos()).unwrap_or(u64::MAX)
}

/// Rate limit that applies to one provider instead of the global one.
#[derive(Debug, Clone, Copy, PartialEq, Eq, Structural)]
pub struct ProviderRateLimit {
    pub max_requests: u32,
    pub window_seconds: u64,
}

impl ProviderRateLimit {
    /// A limit the buckets can run on: at least one request per window of at
    /// least one second.
    pub open spec fn valid(self) -> bool {
        self.max_requests >= 1 && self.window_seconds >= 1
    }
}

/// Configuration for rate limiting.
#[derive(Debug, Clone)]
pub struct RateLimitConfig {
    /// Maximum number of requests per window
    pub max_requests: u32,
    /// Window duration in seconds
    pub window_seconds: u64,
    /// Whether rate limiting is on
    pub enabled: bool,
    /// Per-provider limits, keyed by provider name; a later entry for a
    /// name wins over an earlier one
    pub per_provider: Vec<(String, ProviderRateLimit)>,
}

impl RateLimitConfig {
    pub open spec fn global(self) -> ProviderRateLimit {
        ProviderRateLimit { max_requests: self.max_requests, window_seconds: self.window_seconds }
    }

    /// The per-provider limits as a map.
    pub open spec fn overrides(self) -> Map<Seq<char>, ProviderRateLimit> {
        keyed_map(self.per_provider@)
    }

    /// Every limit in the configuration can run a bucket.
    pub open spec fn valid(self) -> bool {
        &&& self.global().valid()
        &&& forall|i: int|
            0 <= i < self.per_provider@.len() ==> (#[trigger] self.per_provider@[i]).1.valid()
    }
}

impl Default for RateLimitConfig {
    fn default() -> (r: Self)
        ensures
            r.max_requests == 100,
            r.window_seconds == 60,
            r.enabled,
            r.per_provider@.len() == 0,
    {
        RateLimitConfig {
            max_requests: 100,
            window_seconds: 60,
            enabled: true,
            per_provider: Vec::new(),
        }
    }
}

/// The provider part of a key: what stands before its first `:`.
pub open spec fn provider_prefix(key: Seq<char>) -> Seq<char> {
    prefix_before(key, ':')
}

/// The limit that governs `key`: the override of its provider prefix where
/// one is configured, else the global limit.
pub open spec fn limit_for(c: RateLimitConfig, key: Seq<char>) -> ProviderRateLimit {
    if c.overrides().contains_key(provider_prefix(key)) {
        c.overrides()[provider_prefix(key)]
    } else {
        c.global()
    }
}

/// A token bucket; `last_refill` is in nanoseconds on the limiter's clock.
#[derive(Debug, Clone, Copy, PartialEq, Eq, Structural)]
pub struct TokenBucket {
    pub tokens: u32,
    pub last_refill: u64,
    pub max_tokens: u32,
    pub window_seconds: u64,
}

/// A full bucket for `limit`, created at `now`.
pub open spec fn fresh_bucket(limit: ProviderRateLimit, now: int) -> TokenBucket {
    TokenBucket {
        tokens: limit.max_requests,
        last_refill: now as u64,
        max_tokens: limit.max_requests,
        window_seconds: limit.window_seconds,
    }
}

/// Whole tokens accrued between the last refill and `now`:
/// floor(elapsed_seconds * max_tokens / window_seconds).
pub open spec fn refill_amount(b: TokenBucket, now: int) -> int {
    if now > b.last_refill {
        (now - b.last_refill) * b.max_tokens / (b.window_seconds * NANOS_PER_SECOND)
    } else {
        0
    }
}

/// The bucket after the lazy refill at `now`: the last refill time moves
/// only when at least one token was added.
pub open spec fn refilled(b: TokenBucket, now: int) -> TokenBucket {
    let added = refill_amount(b, now);
    if added > 0 {
        TokenBucket {
            tokens: if b.tokens + added < b.max_tokens {
                (b.tokens + added) as u32
            } else {
                b.max_tokens
            },
            last_refill: now as u64,
            max_tokens: b.max_tokens,
            window_seconds: b.window_seconds,
        }
    } else {
        b
    }
}

/// Whether a check at `now` is allowed.
pub open spec fn allows(b: TokenBucket, now: int) -> bool {
    refilled(b, now).tokens > 0
}

/// The bucket after a check at `now`.
pub open spec fn checked(b: TokenBucket, now: int) -> TokenBucket {
    let r = refilled(b, now);
    if r.tokens > 0 {
        TokenBucket {
            tokens: (r.tokens - 1) as u32,
            last_refill: r.last_refill,
            max_tokens: r.max_tokens,
            window_seconds: r.window_seconds,
        }
    } else {
        r
    }
}

/// Seconds until one token becomes available: ceil(window_seconds / max_tokens).
pub open spec fn retry_after_secs(b: TokenBucket) -> int {
    (b.window_seconds + b.max_tokens - 1) / (b.max_tokens as int)
}

impl TokenBucket {
    pub open spec fn valid(self) -> bool {
        &&& self.max_tokens >= 1
        &&& self.window_seconds >= 1
        &&& self.tokens <= self.max_tokens
    }

    fn new(limit: ProviderRateLimit, now: u64) -> (r: TokenBucket)
        ensures
            r == fresh_bucket(limit, now as int),
    {
        TokenBucket {
            tokens: limit.max_requests,
            last_refill: now,
            max_tokens: limit.max_requests,
            window_seconds: limit.window_seconds,
        }
    }

    fn refill(&mut self, now: u64)
        requires
            old(self).valid(),
        ensures
            *final(self) == refilled(*old(self), now as int),
    {
        if now > self.last_refill {
            let elapsed: u64 = now - self.last_refill;
            let max: u64 = self.max_tokens as u64;
            assert(elapsed as int * max as int <= 0xffff_ffff_ffff_ffff * 0xffff_ffff)
                by (nonlinear_arith)
                requires
                    elapsed <= 0xffff_ffff_ffff_ffff,
                    max <= 0xffff_ffff,
            ;
            let num: u128 = elapsed as u128 * max as u128;
            assert(self.window_seconds as int * 1_000_000_000 <= 0xffff_ffff_ffff_ffff
                * 1_000_000_000) by (nonlinear_arith)
                requires
                    self.window_seconds <= 0xffff_ffff_ffff_ffff,
            ;
            let den: u128 = self.window_seconds as u128 * NANOS_PER_SECOND as u128;
            let added: u128 = num / den;
            assert(added <= num) by (nonlinear_arith)
                requires
                    den >= 1,
                    added as int == num as int / den as int,
            ;
            if added > 0 {
                let total: u128 = self.tokens as u128 + added;
                if total < self.max_tokens as u128 {
                    self.tokens = total as u32;
                } else {
                    self.tokens = self.max_tokens;
                }
                self.last_refill = now;
            }
        }
    }

    /// Refill, then take one token if there is one.
    fn try_consume(&mut self, now: u64) -> (r: bool)
        requires
            old(self).valid(),
        ensures
            r == allows(*old(self), now as int),
            *final(self) == checked(*old(self), now as int),
            final(self).valid(),
    {
        self.refill(now);
        if self.tokens > 0 {
            self.tokens = self.tokens - 1;
            true
        } else {
            false
        }
    }

    fn retry_after(&self) -> (r: u64)
        requires
            self.valid(),
        ensures
            r == retry_after_secs(*self),
    {
        let w: u128 = self.window_seconds as u128;
        let m: u128 = self.max_tokens as u128;
        let q: u128 = (w + m - 1) / m;
        assert(q <= w) by (nonlinear_arith)
            requires
                m >= 1,
                q as int == (w + m - 1) as int / m as int,
        ;
        q as u64
    }
}

/// The bucket after `n` checks at the one instant `now`, starting from `b`.
pub open spec fn run_at(b: TokenBucket, now: int, n: nat) -> TokenBucket
    decreases n,
{
    if n == 0 {
        b
    } else {
        checked(run_at(b, now, (n - 1) as nat), now)
    }
}

proof fn lemma_run_at_fresh(limit: ProviderRateLimit, now: u64, n: nat)
    requires
        limit.valid(),
        n <= limit.max_requests,
    ensures
        run_at(fresh_bucket(limit, now as int), now as int, n) == (TokenBucket {
            tokens: (limit.max_requests - n) as u32,
            last_refill: now,
            max_tokens: limit.max_requests,
            window_seconds: limit.window_seconds,
        }),
    decreases n,
{
    if n > 0 {
        lemma_run_at_fresh(limit, now, (n - 1) as nat);
    }
}

/// Starting full at `N = max_requests` tokens, the first `N` checks at one
/// instant are allowed and the next is limited; after a wait of
/// `window_seconds / max_requests` seconds (rounded up to whole
/// nanoseconds) exactly one more check is allowed.
pub proof fn lemma_burst_then_limited(limit: ProviderRateLimit, now: u64, wait: u64)
    requires
        limit.valid(),
        limit.max_requests <= limit.window_seconds * NANOS_PER_SECOND,
        wait == (limit.window_seconds * NANOS_PER_SECOND + limit.max_requests - 1)
            / (limit.max_requests as int),
        now + wait <= u64::MAX,
    ensures
        forall|i: nat|
            i < limit.max_requests ==> #[trigger] allows(
                run_at(fresh_bucket(limit, now as int), now as int, i),
                now as int,
            ),
        !allows(
            run_at(fresh_bucket(limit, now as int), now as int, limit.max_requests as nat),
            now as int,
        ),
        allows(
            run_at(fresh_bucket(limit, now as int), now as int, limit.max_requests as nat + 1),
            now + wait,
        ),
        !allows(
            checked(
                run_at(
                    fresh_bucket(limit, now as int),
                    now as int,
                    limit.max_requests as nat + 1,
                ),
                now + wait,
            ),
            now + wait,
        ),
{
    let fresh = fresh_bucket(limit, now as int);
    let max = limit.max_requests as int;
    assert forall|i: nat| i < limit.max_requests implies #[trigger] allows(
        run_at(fresh, now as int, i),
        now as int,
    ) by {
        lemma_run_at_fresh(limit, now, i);
    }
    lemma_run_at_fresh(limit, now, limit.max_requests as nat);
    let empty = run_at(fresh, now as int, limit.max_requests as nat + 1);
    assert(empty == run_at(fresh, now as int, limit.max_requests as nat));
    let w = limit.window_seconds * NANOS_PER_SECOND;
    assert(wait * max >= w && wait * max < 2 * w && wait >= 1) by (nonlinear_arith)
        requires
            max >= 1,
            max <= w,
            wait == (w + max - 1) / max,
    ;
    assert(empty.last_refill == now && empty.max_tokens == max && empty.tokens == 0);
    assert(refill_amount(empty, now + wait) == (wait * max) / w);
    assert(refill_amount(empty, now + wait) == 1) by (nonlinear_arith)
        requires
            refill_amount(empty, now + wait) == (wait * max) / w,
            wait * max >= w,
            wait * max < 2 * w,
            w >= 1,
    ;
}

/// The bucket after checks at the instants `times`, in that order.
pub open spec fn run_times(b: TokenBucket, times: Seq<int>) -> TokenBucket
    decreases times.len(),
{
    if times.len() == 0 {
        b
    } else {
        checked(run_times(b, times.drop_last()), times.last())
    }
}

/// How many of the checks at `times` are allowed.
pub open spec fn granted(b: TokenBucket, times: Seq<int>) -> nat
    decreases times.len(),
{
    if times.len() == 0 {
        0
    } else {
        granted(b, times.drop_last()) + if allows(run_times(b, times.drop_last()), times.last()) {
            1nat
        } else {
            0nat
        }
    }
}

/// None of the checks at `times` adds a token.
pub open spec fn refill_free(b: TokenBucket, times: Seq<int>) -> bool
    decreases times.len(),
{
    if times.len() == 0 {
        true
    } else {
        refill_free(b, times.drop_last()) && refill_amount(
            run_times(b, times.drop_last()),
            times.last(),
        ) == 0
    }
}

/// However many checks reach one bucket, in whatever order, as long as no
/// token is added in between exactly min(checks, tokens held) of them are
/// granted, and so at most the bucket's maximum: no token is spent twice.
pub proof fn lemma_no_double_spend(b: TokenBucket, times: Seq<int>)
    requires
        b.valid(),
        refill_free(b, times),
    ensures
        granted(b, times) + run_times(b, times).tokens == b.tokens,
        granted(b, times) == if times.len() < b.tokens {
            times.len() as int
        } else {
            b.tokens as int
        },
        granted(b, times) <= b.max_tokens,
    decreases times.len(),
{
    if times.len() > 0 {
        lemma_no_double_spend(b, times.drop_last());
    }
}

/// Checks at the instant of a bucket's last refill add no token, and leave
/// that instant as it is.
proof fn lemma_same_instant_run(b: TokenBucket, t: int, times: Seq<int>)
    requires
        b.last_refill == t,
        forall|i: int| 0 <= i < times.len() ==> times[i] == t,
    ensures
        refill_free(b, times),
        run_times(b, times).last_refill == t,
    decreases times.len(),
{
    if times.len() > 0 {
        lemma_same_instant_run(b, t, times.drop_last());
    }
}

/// Result of a rate-limit check; `retry_after` is in whole seconds.
#[derive(Debug, Clone, Copy, PartialEq, Eq, Structural)]
pub enum RateLimitResult {
    Allowed,
    Limited { retry_after: u64 },
}

/// One check of `key` at `now`: how the buckets `before` become `after` and
/// what the check answers.
pub open spec fn check_step(
    c: RateLimitConfig,
    before: Map<Seq<char>, TokenBucket>,
    key: Seq<char>,
    now: int,
    after: Map<Seq<char>, TokenBucket>,
    r: RateLimitResult,
) -> bool {
    if !c.enabled {
        after == before && r == RateLimitResult::Allowed
    } else {
        let b = if before.contains_key(key) {
            before[key]
        } else {
            fresh_bucket(limit_for(c, key), now)
        };
        &&& after == before.insert(key, checked(b, now))
        &&& r == if allows(b, now) {
            RateLimitResult::Allowed
        } else {
            RateLimitResult::Limited { retry_after: retry_after_secs(checked(b, now)) as u64 }
        }
    }
}

/// A bucket has been idle for longer than `max_idle` nanoseconds at `now`.
pub open spec fn is_idle(b: TokenBucket, now: int, max_idle: int) -> bool {
    now - b.last_refill > max_idle
}

/// The buckets `after` are `before` without those idle for longer than
/// `max_idle` nanoseconds at `now`; the others keep their state.
pub open spec fn swept(
    before: Map<Seq<char>, TokenBucket>,
    after: Map<Seq<char>, TokenBucket>,
    now: int,
    max_idle: int,
) -> bool {
    filtered(before, after, |b: TokenBucket| !is_idle(b, now, max_idle))
}

/// Rate limiter over token buckets, one per key.
#[derive(Debug)]
pub struct RateLimiter {
    config: RateLimitConfig,
    buckets: Vec<(String, TokenBucket)>,
    origin: Instant,
    latest: u64,
}

impl RateLimiter {
    pub closed spec fn wf(&self) -> bool {
        &&& self.config.enabled ==> self.config.valid()
        &&& unique_keys(self.buckets@)
        &&& forall|i: int|
            0 <= i < self.buckets@.len() ==> (#[trigger] self.buckets@[i]).1.valid()
                && self.buckets@[i].1.last_refill <= self.latest
    }

    /// The latest instant the limiter has seen, in nanoseconds on its clock;
    /// no bucket was refilled after it.
    pub closed spec fn latest(&self) -> int {
        self.latest as int
    }

    pub closed spec fn config(&self) -> RateLimitConfig {
        self.config
    }

    /// The buckets by key.
    pub closed spec fn view(&self) -> Map<Seq<char>, TokenBucket> {
        keyed_map(self.buckets@)
    }

    /// Every bucket holds at most its maximum of tokens.
    pub proof fn lemma_buckets_valid(&self)
        requires
            self.wf(),
        ensures
            forall|k: Seq<char>| #[trigger] self@.contains_key(k) ==> self@[k].valid(),
    {
        assert forall|k: Seq<char>| #[trigger] self@.contains_key(k) implies self@[k].valid() by {
            lemma_keyed_map_keys(self.buckets@, k);
            let i = choose|i: int| 0 <= i < self.buckets@.len() && self.buckets@[i].0@ == k;
            lemma_keyed_map_value(self.buckets@, i);
        }
    }

    /// A limiter with no buckets. An enabled configuration must hold limits
    /// of at least one request per window of at least one second.
    pub fn new(config: RateLimitConfig) -> (r: Self)
        requires
            config.enabled ==> config.valid(),
        ensures
            r.wf(),
            r.config() == config,
            r@ == Map::<Seq<char>, TokenBucket>::empty(),
            r.latest() == 0,
    {
        RateLimiter { config, buckets: Vec::new(), origin: clock_origin(), latest: 0 }
    }

    fn limit_for_key(&self, key: &str) -> (r: ProviderRateLimit)
        requires
            self.config.valid(),
        ensures
            r == limit_for(self.config, key@),
            r.valid(),
    {
        let prefix = String::from_str(before_first(key, ':'));
        let entries = &self.config.per_provider;
        let mut j: usize = entries.len();
        while j > 0
            invariant
                j <= entries@.len(),
                prefix@ == provider_prefix(key@),
                self.config.valid(),
                entries == &self.config.per_provider,
                forall|m: int| j <= m < entries@.len() ==> #[trigger] entries@[m].0@ != prefix@,
            decreases j,
        {
            j = j - 1;
            if entries[j].0 == prefix {
                proof {
                    lemma_keyed_map_last(entries@, j as int);
                }
                return entries[j].1;
            }
        }
        proof {
            lemma_keyed_map_keys(entries@, prefix@);
            if keyed_map(entries@).contains_key(prefix@) {
                let m = choose|m: int| 0 <= m < entries@.len() && entries@[m].0@ == prefix@;
                assert(entries@[m].0@ != prefix@);
            }
        }
        ProviderRateLimit {
            max_requests: self.config.max_requests,
            window_seconds: self.config.window_seconds,
        }
    }

    /// Index of the bucket of `key`, if there is one.
    fn find(&self, key: &String) -> (r: Option<usize>)
        requires
            self.wf(),
        ensures
            match r {
                Some(i) => i < self.buckets@.len() && self.buckets@[i as int].0@ == key@
                    && self@.contains_key(key@),
                None => !self@.contains_key(key@),
            },
    {
        let n = self.buckets.len();
        let mut i: usize = 0;
        while i < n
            invariant
                n == self.buckets@.len(),
                i <= n,
                forall|j: int| 0 <= j < i ==> #[trigger] self.buckets@[j].0@ != key@,
            decreases n - i,
        {
            if self.buckets[i].0 == *key {
                proof {
                    lemma_keyed_map_keys(self.buckets@, key@);
                }
                return Some(i);
            }
            i = i + 1;
        }
        proof {
            lemma_keyed_map_keys(self.buckets@, key@);
        }
        None
    }

    /// Check `key` at time `now` (nanoseconds on the limiter's clock).
    pub fn check_rate_limit_at(&mut self, key: &str, now: u64) -> (r: RateLimitResult)
        requires
            old(self).wf(),
        ensures
            final(self).wf(),
            final(self).config() == old(self).config(),
            final(self).latest() == if now > old(self).latest() {
                now as int
            } else {
                old(self).latest()
            },
            check_step(old(self).config(), old(self)@, key@, now as int, final(self)@, r),
    {
        if now > self.latest {
            self.latest = now;
        }
        if !self.config.enabled {
            return RateLimitResult::Allowed;
        }
        let k = String::from_str(key);
        match self.find(&k) {
            Some(i) => {
                let mut b = self.buckets[i].1;
                proof {
                    lemma_keyed_map_value(self.buckets@, i as int);
                }
                let ok = b.try_consume(now);
                let ghost before = self.buckets@;
                self.buckets.set(i, (k, b));
                proof {
                    lemma_keyed_map_update(before, i as int, (k, b));
                    assert forall|j: int| 0 <= j < self.buckets@.len() implies (
                    #[trigger] self.buckets@[j]).1.valid() && self.buckets@[j].1.last_refill
                        <= self.latest by {
                        if j != i {
                            assert(self.buckets@[j] == before[j]);
                        }
                    }
                }
                if ok {
                    RateLimitResult::Allowed
                } else {
                    RateLimitResult::Limited { retry_after: b.retry_after() }
                }
            },
            None => {
                let limit = self.limit_for_key(key);
                let mut b = TokenBucket::new(limit, now);
                let ok = b.try_consume(now);
                let ghost before = self.buckets@;
                self.buckets.push((k, b));
                proof {
                    lemma_keyed_map_push(before, (k, b));
                    assert forall|j: int| 0 <= j < self.buckets@.len() implies (
                    #[trigger] self.buckets@[j]).1.valid() && self.buckets@[j].1.last_refill
                        <= self.latest by {
                        if j < before.len() {
                            assert(self.buckets@[j] == before[j]);
                        }
                    }
                }
                if ok {
                    RateLimitResult::Allowed
                } else {
                    RateLimitResult::Limited { retry_after: b.retry_after() }
                }
            },
        }
    }

    /// The limiter's clock: its reading now, and never earlier than an
    /// instant the limiter has already seen.
    fn now(&self) -> (r: u64)
        ensures
            r >= self.latest,
    {
        let reading = nanos_since(&self.origin);
        if reading > self.latest {
            reading
        } else {
            self.latest
        }
    }

    /// Check `key` now, reading the limiter's clock; the check happens at
    /// the limiter's new latest instant.
    pub fn check_rate_limit(&mut self, key: &str) -> (r: RateLimitResult)
        requires
            old(self).wf(),
        ensures
            final(self).wf(),
            final(self).config() == old(self).config(),
            final(self).latest() >= old(self).latest(),
            check_step(
                old(self).config(),
                old(self)@,
                key@,
                final(self).latest(),
                final(self)@,
                r,
            ),
    {
        let now = self.now();
        self.check_rate_limit_at(key, now)
    }

    /// Whether `key` has a bucket.
    pub fn has_bucket(&self, key: &str) -> (r: bool)
        requires
            self.wf(),
        ensures
            r == self@.contains_key(key@),
    {
        let k = String::from_str(key);
        self.find(&k).is_some()
    }

    /// Remove every bucket idle for longer than `max_idle` nanoseconds at
    /// `now`; the others stay as they are.
    pub fn cleanup_old_buckets_at(&mut self, now: u64, max_idle: u64)
        requires
            old(self).wf(),
        ensures
            final(self).wf(),
            final(self).config() == old(self).config(),
            final(self).latest() == if now > old(self).latest() {
                now as int
            } else {
                old(self).latest()
            },
            swept(old(self)@, final(self)@, now as int, max_idle as int),
    {
        let ghost src = self.buckets@;
        let ghost keep: spec_fn(TokenBucket) -> bool = |b: TokenBucket|
            !is_idle(b, now as int, max_idle as int);
        let n = self.buckets.len();
        let mut out: Vec<(String, TokenBucket)> = Vec::new();
        let mut i: usize = 0;
        while i < n
            invariant
                src == self.buckets@,
                unique_keys(src),
                forall|j: int|
                    0 <= j < src.len() ==> (#[trigger] src[j]).1.valid() && src[j].1.last_refill
                        <= self.latest,
                n == src.len(),
                i <= n,
                unique_keys(out@),
                forall|j: int|
                    0 <= j < out@.len() ==> (#[trigger] out@[j]).1.valid() && out@[j].1.last_refill
                        <= self.latest,
                filtered(keyed_map(src.subrange(0, i as int)), keyed_map(out@), keep),
                forall|b: TokenBucket| #[trigger] keep(b) == !is_idle(b, now as int, max_idle as int),
            decreases n - i,
        {
            let b = self.buckets[i].1;
            let k = self.buckets[i].0.clone();
            proof {
                lemma_filter_step(src, i as int, out@, (k, b), keep);
            }
            let idle = now >= b.last_refill && now - b.last_refill > max_idle;
            if !idle {
                let ghost old_out = out@;
                out.push((k, b));
                assert forall|j: int| 0 <= j < out@.len() implies (#[trigger] out@[j]).1.valid()
                    && out@[j].1.last_refill <= self.latest by {
                    if j < old_out.len() {
                        assert(out@[j] == old_out[j]);
                    }
                }
            }
            i = i + 1;
        }
        assert(src.subrange(0, n as int) =~= src);
        self.buckets = out;
        if now > self.latest {
            self.latest = now;
        }
    }

    /// Remove the buckets idle for longer than an hour, reading the clock;
    /// the sweep happens at the limiter's new latest instant.
    pub fn cleanup_old_buckets(&mut self)
        requires
            old(self).wf(),
        ensures
            final(self).wf(),
            final(self).config() == old(self).config(),
            final(self).latest() >= old(self).latest(),
            swept(
                old(self)@,
                final(self)@,
                final(self).latest(),
                (MAX_IDLE_SECONDS * NANOS_PER_SECOND) as int,
            ),
    {
        let now = self.now();
        self.cleanup_old_buckets_at(now, MAX_IDLE_SECONDS * NANOS_PER_SECOND);
    }
}

/// How many of `results` are `Allowed`.
pub open spec fn allowed_count(results: Seq<RateLimitResult>) -> nat
    decreases results.len(),
{
    if results.len() == 0 {
        0
    } else {
        allowed_count(results.drop_last()) + if results.last() == RateLimitResult::Allowed {
            1nat
        } else {
            0nat
        }
    }
}

/// The bucket that the first of a run of checks of `key` at `now` meets.
pub open spec fn first_bucket(
    c: RateLimitConfig,
    buckets: Map<Seq<char>, TokenBucket>,
    key: Seq<char>,
    now: int,
) -> TokenBucket {
    if buckets.contains_key(key) {
        buckets[key]
    } else {
        fresh_bucket(limit_for(c, key), now)
    }
}

proof fn lemma_limit_valid(c: RateLimitConfig, key: Seq<char>)
    requires
        c.valid(),
    ensures
        limit_for(c, key).valid(),
{
    let p = provider_prefix(key);
    if c.overrides().contains_key(p) {
        lemma_keyed_map_value_from(c.per_provider@, p);
        let j = choose|j: int|
            0 <= j < c.per_provider@.len() && c.per_provider@[j].0@ == p && keyed_map(
                c.per_provider@,
            )[p] == c.per_provider@[j].1;
        assert(c.per_provider@[j].1.valid());
    }
}

proof fn lemma_run_of_checks(
    c: RateLimitConfig,
    states: Seq<Map<Seq<char>, TokenBucket>>,
    key: Seq<char>,
    times: Seq<int>,
    results: Seq<RateLimitResult>,
    k: int,
)
    requires
        c.enabled,
        times.len() > 0,
        states.len() == times.len() + 1,
        results.len() == times.len(),
        forall|i: int|
            0 <= i < times.len() ==> #[trigger] check_step(
                c,
                states[i],
                key,
                times[i],
                states[i + 1],
                results[i],
            ),
        0 <= k <= times.len(),
    ensures
        k > 0 ==> states[k].contains_key(key) && states[k][key] == run_times(
            first_bucket(c, states[0], key, times[0]),
            times.subrange(0, k),
        ),
        allowed_count(results.subrange(0, k)) == granted(
            first_bucket(c, states[0], key, times[0]),
            times.subrange(0, k),
        ),
    decreases k,
{
    let b0 = first_bucket(c, states[0], key, times[0]);
    if k == 0 {
        assert(results.subrange(0, 0) =~= Seq::<RateLimitResult>::empty());
        assert(times.subrange(0, 0) =~= Seq::<int>::empty());
    } else {
        lemma_run_of_checks(c, states, key, times, results, k - 1);
        let i = k - 1;
        assert(check_step(c, states[i], key, times[i], states[i + 1], results[i]));
        assert(times.subrange(0, k).drop_last() =~= times.subrange(0, i));
        assert(results.subrange(0, k).drop_last() =~= results.subrange(0, i));
        let b = if states[i].contains_key(key) {
            states[i][key]
        } else {
            fresh_bucket(limit_for(c, key), times[i])
        };
        if i == 0 {
            assert(times.subrange(0, 0) =~= Seq::<int>::empty());
            assert(b == b0);
        }
        assert(b == run_times(b0, times.subrange(0, i)));
        assert(states[k] == states[i].insert(key, checked(b, times[i])));
    }
}

/// Checks of one key reach the limiter one at a time (each takes it by
/// `&mut`), whatever number of callers issue them at once. As long as no
/// token is added in between, such a run of checks is granted at most the
/// tokens of the bucket it meets, and so at most that bucket's maximum: no
/// token is spent twice.
pub proof fn lemma_checks_on_one_key(
    l: RateLimiter,
    states: Seq<Map<Seq<char>, TokenBucket>>,
    key: Seq<char>,
    times: Seq<int>,
    results: Seq<RateLimitResult>,
)
    requires
        l.wf(),
        l.config().enabled,
        times.len() > 0,
        states.len() == times.len() + 1,
        results.len() == times.len(),
        states[0] == l@,
        forall|i: int|
            0 <= i < times.len() ==> #[trigger] check_step(
                l.config(),
                states[i],
                key,
                times[i],
                states[i + 1],
                results[i],
            ),
        refill_free(first_bucket(l.config(), l@, key, times[0]), times),
    ensures
        allowed_count(results) == if times.len() < first_bucket(l.config(), l@, key, times[0]).tokens {
            times.len() as int
        } else {
            first_bucket(l.config(), l@, key, times[0]).tokens as int
        },
        allowed_count(results) <= first_bucket(l.config(), l@, key, times[0]).max_tokens,
{
    let c = l.config();
    let b0 = first_bucket(c, l@, key, times[0]);
    l.lemma_buckets_valid();
    if !l@.contains_key(key) {
        lemma_limit_valid(c, key);
    }
    lemma_run_of_checks(c, states, key, times, results, times.len() as int);
    assert(times.subrange(0, times.len() as int) =~= times);
    assert(results.subrange(0, results.len() as int) =~= results);
    lemma_no_double_spend(b0, times);
}

/// A key the limiter has no bucket for, governed by a limit of `N` requests:
/// of `N + 1` checks at one instant the first `N` are allowed and the last
/// is limited.
pub proof fn lemma_burst_on_new_key(
    l: RateLimiter,
    states: Seq<Map<Seq<char>, TokenBucket>>,
    key: Seq<char>,
    times: Seq<int>,
    results: Seq<RateLimitResult>,
)
    requires
        l.wf(),
        l.config().enabled,
        !l@.contains_key(key),
        times.len() == limit_for(l.config(), key).max_requests + 1,
        states.len() == times.len() + 1,
        results.len() == times.len(),
        states[0] == l@,
        forall|i: int|
            0 <= i < times.len() ==> #[trigger] check_step(
                l.config(),
                states[i],
                key,
                times[i],
                states[i + 1],
                results[i],
            ),
        forall|i: int| 0 <= i < times.len() ==> #[trigger] times[i] == times[0],
        0 <= times[0] <= u64::MAX,
    ensures
        forall|i: int|
            0 <= i < limit_for(l.config(), key).max_requests ==> results[i]
                == RateLimitResult::Allowed,
        results[limit_for(l.config(), key).max_requests as int] is Limited,
{
    let c = l.config();
    let n = limit_for(c, key).max_requests as int;
    let b0 = first_bucket(c, l@, key, times[0]);
    lemma_limit_valid(c, key);
    assert(b0.tokens == n && b0.valid());
    assert forall|i: int| 0 <= i <= n + 1 implies allowed_count(#[trigger] results.subrange(0, i))
        == if i < n {
        i
    } else {
        n
    } by {
        lemma_run_of_checks(c, states, key, times, results, i);
        lemma_same_instant_run(b0, times[0], times.subrange(0, i));
        lemma_no_double_spend(b0, times.subrange(0, i));
    }
    assert forall|i: int| 0 <= i <= n implies (#[trigger] results[i] == RateLimitResult::Allowed)
        == (i < n) by {
        assert(results.subrange(0, i + 1).drop_last() =~= results.subrange(0, i));
        assert(results.subrange(0, i + 1).last() == results[i]);
        assert(allowed_count(results.subrange(0, i + 1)) == if i + 1 < n {
            i + 1
        } else {
            n
        });
        assert(allowed_count(results.subrange(0, i)) == if i < n {
            i
        } else {
            n
        });
    }
}

/// An empty bucket whose last refill was at `t0`, with `N` tokens per
/// window: checks at `t0` plus `window_seconds / N` seconds (rounded up to
/// whole nanoseconds) find exactly one more token, so the first is allowed
/// and the second limited.
pub proof fn lemma_one_more_after_refill(
    c: RateLimitConfig,
    before: Map<Seq<char>, TokenBucket>,
    key: Seq<char>,
    wait: int,
    mid: Map<Seq<char>, TokenBucket>,
    after: Map<Seq<char>, TokenBucket>,
    first: RateLimitResult,
    second: RateLimitResult,
)
    requires
        c.enabled,
        before.contains_key(key),
        before[key].valid(),
        before[key].tokens == 0,
        before[key].max_tokens <= before[key].window_seconds * NANOS_PER_SECOND,
        wait == (before[key].window_seconds * NANOS_PER_SECOND + before[key].max_tokens - 1)
            / (before[key].max_tokens as int),
        before[key].last_refill + wait <= u64::MAX,
        check_step(c, before, key, before[key].last_refill + wait, mid, first),
        check_step(c, mid, key, before[key].last_refill + wait, after, second),
    ensures
        first == RateLimitResult::Allowed,
        second is Limited,
{
    let b = before[key];
    let t = b.last_refill + wait;
    let max = b.max_tokens as int;
    let w = b.window_seconds * NANOS_PER_SECOND;
    assert(wait * max >= w && wait * max < 2 * w && wait >= 1) by (nonlinear_arith)
        requires
            max >= 1,
            max <= w,
            wait == (w + max - 1) / max,
    ;
    assert(refill_amount(b, t) == (wait * max) / w);
    assert(refill_amount(b, t) == 1) by (nonlinear_arith)
        requires
            refill_amount(b, t) == (wait * max) / w,
            wait * max >= w,
            wait * max < 2 * w,
            w >= 1,
    ;
    assert(mid[key] == checked(b, t));
}

} // verus!
