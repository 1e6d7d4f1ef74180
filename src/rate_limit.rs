//! Per-client rate limiting for webhook endpoints: each client address gets
//! a burst of tokens, refilled at a number of requests per minute counted in
//! whole elapsed seconds; clients silent for ten minutes are dropped every
//! five minutes.
//!
//! Time is counted in nanoseconds since the limiter's clock origin.
use std::time::Instant;
use vstd::prelude::*;

use crate::keyed::{
    filtered, keyed_map, lemma_filter_step, lemma_keyed_map_keys, lemma_keyed_map_push,
    lemma_keyed_map_update, lemma_keyed_map_value, unique_keys,
};
use crate::rate_limiter::{clock_origin, nanos_since, NANOS_PER_SECOND};

verus! {

/// How often stale clients are dropped, in nanoseconds.
pub const CLIENT_CLEANUP_INTERVAL: u64 = 300 * NANOS_PER_SECOND;

/// A client with no request for this long, in nanoseconds, is stale.
pub const CLIENT_MAX_IDLE: u64 = 600 * NANOS_PER_SECOND;

/// Token state of one client.
#[derive(Debug, Clone, Copy, PartialEq, Eq, Structural)]
pub struct ClientState {
    pub tokens: u32,
    pub last_refill: u64,
    pub last_request: u64,
}

/// Current rate limit status of a client.
#[derive(Debug, Clone, Copy, PartialEq, Eq, Structural)]
pub struct RateLimitStatus {
    /// Remaining requests
    pub remaining: u32,
    /// Total request limit
    pub limit: u32,
    /// When the rate limit resets, in nanoseconds on the limiter's clock
    pub reset_time: u64,
}

/// Tokens accrued since the last refill: whole elapsed seconds times the
/// per-minute rate, over sixty.
pub open spec fn accrued(st: ClientState, now: int, per_minute: int) -> int {
    if now > st.last_refill {
        ((now - st.last_refill) / NANOS_PER_SECOND as int) * per_minute / 60
    } else {
        0
    }
}

/// The tokens a client holds at `now`, at most `burst`.
pub open spec fn available(st: ClientState, now: int, per_minute: int, burst: int) -> int {
    if st.tokens + accrued(st, now, per_minute) < burst {
        st.tokens + accrued(st, now, per_minute)
    } else {
        burst
    }
}

/// The state of a client after a request at `now`.
pub open spec fn after_request(st: ClientState, now: int, per_minute: int, burst: int) -> ClientState {
    let refilled = accrued(st, now, per_minute) > 0;
    let tokens = if refilled {
        available(st, now, per_minute, burst)
    } else {
        st.tokens as int
    };
    ClientState {
        tokens: if tokens > 0 {
            (tokens - 1) as u32
        } else {
            0
        },
        last_refill: if refilled {
            now as u64
        } else {
            st.last_refill
        },
        last_request: now as u64,
    }
}

/// Whether a request at `now` is allowed.
pub open spec fn request_allowed(st: ClientState, now: int, per_minute: int, burst: int) -> bool {
    if accrued(st, now, per_minute) > 0 {
        available(st, now, per_minute, burst) > 0
    } else {
        st.tokens > 0
    }
}

/// A client that made a request within the idle limit before `now`.
pub open spec fn recent(st: ClientState, now: int) -> bool {
    st.last_request + CLIENT_MAX_IDLE > now
}

/// The clients of `m` that are recent at `now`.
pub open spec fn retained(m: Map<Seq<char>, ClientState>, now: int) -> Map<Seq<char>, ClientState> {
    Map::new(|k: Seq<char>| m.contains_key(k) && recent(m[k], now), |k: Seq<char>| m[k])
}

/// A new client's state at `now`: a full burst.
pub open spec fn new_client(burst: int, now: int) -> ClientState {
    ClientState { tokens: burst as u32, last_refill: now as u64, last_request: now as u64 }
}

/// One request from `ip` at `now`: stale clients are dropped first when a
/// cleanup is due, then the client's tokens are refilled and one is taken
/// if there is one.
pub open spec fn request_step(
    before: Map<Seq<char>, ClientState>,
    last_cleanup: int,
    per_minute: int,
    burst: int,
    ip: Seq<char>,
    now: int,
    after: Map<Seq<char>, ClientState>,
    after_cleanup: int,
    r: bool,
) -> bool {
    let due = now - last_cleanup > CLIENT_CLEANUP_INTERVAL;
    let mid = if due {
        retained(before, now)
    } else {
        before
    };
    let st = if mid.contains_key(ip) {
        mid[ip]
    } else {
        new_client(burst, now)
    };
    &&& after == mid.insert(ip, after_request(st, now, per_minute, burst))
    &&& r == request_allowed(st, now, per_minute, burst)
    &&& after_cleanup == if due {
        now
    } else {
        last_cleanup
    }
}

/// When the limit of a client resets: one refill period after its last
/// refill, at most the end of the clock.
pub open spec fn reset_time(st: ClientState, per_minute: int) -> int {
    if st.last_refill + (60int / per_minute) * NANOS_PER_SECOND <= u64::MAX {
        st.last_refill + (60int / per_minute) * NANOS_PER_SECOND
    } else {
        u64::MAX as int
    }
}

/// Rate limiter for webhook endpoints, keyed by client address.
#[derive(Debug)]
pub struct RateLimiter {
    clients: Vec<(String, ClientState)>,
    last_cleanup: u64,
    requests_per_minute: u32,
    burst_size: u32,
    origin: Instant,
    latest: u64,
}

impl RateLimiter {
    pub closed spec fn wf(&self) -> bool {
        &&& unique_keys(self.clients@)
        &&& forall|i: int|
            0 <= i < self.clients@.len() ==> (#[trigger] self.clients@[i]).1.tokens
                <= self.burst_size
    }

    /// The clients by address.
    pub closed spec fn view(&self) -> Map<Seq<char>, ClientState> {
        keyed_map(self.clients@)
    }

    /// The latest instant the limiter has seen, in nanoseconds on its clock.
    pub closed spec fn latest(&self) -> int {
        self.latest as int
    }

    pub closed spec fn last_cleanup(&self) -> int {
        self.last_cleanup as int
    }

    pub closed spec fn requests_per_minute(&self) -> int {
        self.requests_per_minute as int
    }

    pub closed spec fn burst_size(&self) -> int {
        self.burst_size as int
    }

    /// Create a new rate limiter.
    pub fn new(requests_per_minute: u32, burst_size: u32) -> (r: Self)
        ensures
            r.wf(),
            r@ == Map::<Seq<char>, ClientState>::empty(),
            r.requests_per_minute() == requests_per_minute,
            r.burst_size() == burst_size,
            r.last_cleanup() == 0,
            r.latest() == 0,
    {
        RateLimiter {
            clients: Vec::new(),
            last_cleanup: 0,
            requests_per_minute,
            burst_size,
            origin: clock_origin(),
            latest: 0,
        }
    }

    fn find(&self, ip: &String) -> (r: Option<usize>)
        requires
            self.wf(),
        ensures
            match r {
                Some(i) => i < self.clients@.len() && self.clients@[i as int].0@ == ip@
                    && self@.contains_key(ip@),
                None => !self@.contains_key(ip@),
            },
    {
        let n = self.clients.len();
        let mut i: usize = 0;
        while i < n
            invariant
                n == self.clients@.len(),
                i <= n,
                forall|j: int| 0 <= j < i ==> #[trigger] self.clients@[j].0@ != ip@,
            decreases n - i,
        {
            if self.clients[i].0 == *ip {
                proof {
                    lemma_keyed_map_keys(self.clients@, ip@);
                }
                return Some(i);
            }
            i = i + 1;
        }
        proof {
            lemma_keyed_map_keys(self.clients@, ip@);
        }
        None
    }

    /// Drop the clients that are not recent at `now`.
    fn cleanup_old_entries(&mut self, now: u64)
        requires
            old(self).wf(),
        ensures
            final(self).wf(),
            final(self)@ == retained(old(self)@, now as int),
            final(self).requests_per_minute == old(self).requests_per_minute,
            final(self).burst_size == old(self).burst_size,
            final(self).last_cleanup == old(self).last_cleanup,
            final(self).latest == old(self).latest,
    {
        let ghost src = self.clients@;
        let ghost keep: spec_fn(ClientState) -> bool = |st: ClientState| recent(st, now as int);
        let n = self.clients.len();
        let mut out: Vec<(String, ClientState)> = Vec::new();
        let mut i: usize = 0;
        while i < n
            invariant
                src == self.clients@,
                unique_keys(src),
                forall|j: int| 0 <= j < src.len() ==> (#[trigger] src[j]).1.tokens <= self.burst_size,
                n == src.len(),
                i <= n,
                unique_keys(out@),
                forall|j: int| 0 <= j < out@.len() ==> (#[trigger] out@[j]).1.tokens <= self.burst_size,
                filtered(keyed_map(src.subrange(0, i as int)), keyed_map(out@), keep),
                forall|st: ClientState| #[trigger] keep(st) == recent(st, now as int),
            decreases n - i,
        {
            let st = self.clients[i].1;
            let k = self.clients[i].0.clone();
            proof {
                lemma_filter_step(src, i as int, out@, (k, st), keep);
            }
            let keep_it = now < CLIENT_MAX_IDLE || st.last_request > now - CLIENT_MAX_IDLE;
            if keep_it {
                let ghost old_out = out@;
                out.push((k, st));
                assert forall|j: int| 0 <= j < out@.len() implies (#[trigger] out@[j]).1.tokens
                    <= self.burst_size by {
                    if j < old_out.len() {
                        assert(out@[j] == old_out[j]);
                    }
                }
            }
            i = i + 1;
        }
        assert(src.subrange(0, n as int) =~= src);
        assert(keyed_map(out@) =~= retained(keyed_map(src), now as int));
        self.clients = out;
    }

    /// Refill the client's tokens at `now` and take one if there is one.
    fn take_token(&self, st: ClientState, now: u64) -> (r: (ClientState, bool))
        requires
            st.tokens <= self.burst_size,
        ensures
            r.0 == after_request(st, now as int, self.requests_per_minute as int, self.burst_size as int),
            r.1 == request_allowed(st, now as int, self.requests_per_minute as int, self.burst_size as int),
            r.0.tokens <= self.burst_size,
    {
        let mut st = st;
        let secs: u64 = if now > st.last_refill {
            (now - st.last_refill) / NANOS_PER_SECOND
        } else {
            0
        };
        let rpm: u64 = self.requests_per_minute as u64;
        assert(secs as int * rpm as int <= 0xffff_ffff_ffff_ffff * 0xffff_ffff) by (nonlinear_arith)
            requires
                secs <= 0xffff_ffff_ffff_ffff,
                rpm <= 0xffff_ffff,
        ;
        let added: u128 = secs as u128 * rpm as u128 / 60;
        assert(added <= secs as u128 * rpm as u128) by (nonlinear_arith)
            requires
                added as int == (secs as int * rpm as int) / 60,
                secs as int * rpm as int >= 0,
        ;
        if added > 0 {
            let total: u128 = st.tokens as u128 + added;
            st.tokens = if total < self.burst_size as u128 {
                total as u32
            } else {
                self.burst_size
            };
            st.last_refill = now;
        }
        st.last_request = now;
        if st.tokens > 0 {
            st.tokens = st.tokens - 1;
            (st, true)
        } else {
            (st, false)
        }
    }

    /// Whether a request from client `ip` at `now` (nanoseconds on the
    /// limiter's clock) is allowed.
    pub fn check_rate_limit_at(&mut self, ip: &str, now: u64) -> (r: bool)
        requires
            old(self).wf(),
        ensures
            final(self).wf(),
            final(self).requests_per_minute() == old(self).requests_per_minute(),
            final(self).burst_size() == old(self).burst_size(),
            final(self).latest() == if now > old(self).latest() {
                now as int
            } else {
                old(self).latest()
            },
            request_step(
                old(self)@,
                old(self).last_cleanup(),
                old(self).requests_per_minute(),
                old(self).burst_size(),
                ip@,
                now as int,
                final(self)@,
                final(self).last_cleanup(),
                r,
            ),
    {
        if now > self.latest {
            self.latest = now;
        }
        if now > self.last_cleanup && now - self.last_cleanup > CLIENT_CLEANUP_INTERVAL {
            self.cleanup_old_entries(now);
            self.last_cleanup = now;
        }
        let k = String::from_str(ip);
        match self.find(&k) {
            Some(i) => {
                let st = self.clients[i].1;
                proof {
                    lemma_keyed_map_value(self.clients@, i as int);
                }
                let (next, allowed) = self.take_token(st, now);
                let ghost before = self.clients@;
                self.clients.set(i, (k, next));
                proof {
                    lemma_keyed_map_update(before, i as int, (k, next));
                    assert forall|j: int| 0 <= j < self.clients@.len() implies (
                    #[trigger] self.clients@[j]).1.tokens <= self.burst_size by {
                        if j != i {
                            assert(self.clients@[j] == before[j]);
                        }
                    }
                }
                allowed
            },
            None => {
                let st = ClientState { tokens: self.burst_size, last_refill: now, last_request: now };
                let (next, allowed) = self.take_token(st, now);
                let ghost before = self.clients@;
                self.clients.push((k, next));
                proof {
                    lemma_keyed_map_push(before, (k, next));
                    assert forall|j: int| 0 <= j < self.clients@.len() implies (
                    #[trigger] self.clients@[j]).1.tokens <= self.burst_size by {
                        if j < before.len() {
                            assert(self.clients@[j] == before[j]);
                        }
                    }
                }
                allowed
            },
        }
    }

    /// The limiter's clock: its reading now, and never earlier than an
    /// instant the limiter has already seen.
    fn now(&self) -> (r: u64)
        ensures
            r >= self.latest,
    {
        let reading = nanos_since(&self.origin);
        if reading > self.latest {
            reading
        } else {
            self.latest
        }
    }

    /// Whether a request from client `ip` is allowed now, reading the clock;
    /// the request is taken at the limiter's new latest instant.
    pub fn check_rate_limit(&mut self, ip: &str) -> (r: bool)
        requires
            old(self).wf(),
        ensures
            final(self).wf(),
            final(self).requests_per_minute() == old(self).requests_per_minute(),
            final(self).burst_size() == old(self).burst_size(),
            final(self).latest() >= old(self).latest(),
            request_step(
                old(self)@,
                old(self).last_cleanup(),
                old(self).requests_per_minute(),
                old(self).burst_size(),
                ip@,
                final(self).latest(),
                final(self)@,
                final(self).last_cleanup(),
                r,
            ),
    {
        let now = self.now();
        self.check_rate_limit_at(ip, now)
    }

    /// The status of client `ip` at `now`, if the client is known.
    pub fn get_status_at(&self, ip: &str, now: u64) -> (r: Option<RateLimitStatus>)
        requires
            self.wf(),
            self.requests_per_minute() >= 1,
        ensures
            match r {
                None => !self@.contains_key(ip@),
                Some(s) => {
                    &&& self@.contains_key(ip@)
                    &&& s.remaining == available(
                        self@[ip@],
                        now as int,
                        self.requests_per_minute(),
                        self.burst_size(),
                    )
                    &&& s.limit == self.burst_size()
                    &&& s.reset_time == reset_time(self@[ip@], self.requests_per_minute())
                },
            },
    {
        let k = String::from_str(ip);
        match self.find(&k) {
            None => None,
            Some(i) => {
                let st = self.clients[i].1;
                proof {
                    lemma_keyed_map_value(self.clients@, i as int);
                }
                let secs: u64 = if now > st.last_refill {
                    (now - st.last_refill) / NANOS_PER_SECOND
                } else {
                    0
                };
                let rpm: u64 = self.requests_per_minute as u64;
                assert(secs as int * rpm as int <= 0xffff_ffff_ffff_ffff * 0xffff_ffff)
                    by (nonlinear_arith)
                    requires
                        secs <= 0xffff_ffff_ffff_ffff,
                        rpm <= 0xffff_ffff,
                ;
                let added: u128 = secs as u128 * rpm as u128 / 60;
                assert(added <= secs as u128 * rpm as u128) by (nonlinear_arith)
                    requires
                        added as int == (secs as int * rpm as int) / 60,
                        secs as int * rpm as int >= 0,
                ;
                let total: u128 = st.tokens as u128 + added;
                let remaining: u32 = if total < self.burst_size as u128 {
                    total as u32
                } else {
                    self.burst_size
                };
                let period: u64 = 60 / rpm;
                let wait: u128 = period as u128 * NANOS_PER_SECOND as u128;
                let reset: u128 = st.last_refill as u128 + wait;
                let reset_time: u64 = if reset <= u64::MAX as u128 {
                    reset as u64
                } else {
                    u64::MAX
                };
                Some(RateLimitStatus { remaining, limit: self.burst_size, reset_time })
            },
        }
    }

    /// The status of client `ip` now, reading the clock.
    pub fn get_status(&self, ip: &str) -> (r: Option<RateLimitStatus>)
        requires
            self.wf(),
            self.requests_per_minute() >= 1,
        ensures
            match r {
                None => !self@.contains_key(ip@),
                Some(s) => {
                    &&& self@.contains_key(ip@)
                    &&& s.limit == self.burst_size()
                    &&& s.reset_time == reset_time(self@[ip@], self.requests_per_minute())
                    &&& exists|now: int|
                        #![trigger available(self@[ip@], now, self.requests_per_minute(), self.burst_size())]
                        now >= self.latest() && s.remaining == available(
                            self@[ip@],
                            now,
                            self.requests_per_minute(),
                            self.burst_size(),
                        )
                },
            },
    {
        let now = self.now();
        self.get_status_at(ip, now)
    }
}

} // verus!
