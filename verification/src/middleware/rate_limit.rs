//! Per-client rate limiting: one `governor` limiter per client address, kept
//! in a `dashmap` map and created on the client's first request.

use vstd::prelude::*;
use dashmap::DashMap;
use governor::{DefaultDirectRateLimiter, Quota, RateLimiter};
use std::sync::Arc;
use crate::middleware::{Middleware, Stage};
use crate::net::IpAddress;
use crate::session::{MwResult, Rejection, Session, SessionView};

verus! {

#[verifier::external_type_specification]
#[verifier::external_body]
pub struct ExQuota(Quota);

/// What a quota holds: (nanoseconds to replenish one cell, largest burst).
pub uninterp spec fn quota_shape(q: Quota) -> (u64, u32);

/// The replenishment interval, in nanoseconds, of a quota of `n` cells per
/// second: one second divided by `n`, rounded down.
pub open spec fn per_second_interval(n: u32) -> u64 {
    (1_000_000_000u64 / (n as u64)) as u64
}

/// `Quota::per_second`: a quota replenishing one cell every `1e9 / max_burst`
/// nanoseconds (rounded down), whose burst size is `max_burst`.
#[verifier::external_body]
fn quota_per_second(max_burst: u32) -> (q: Quota)
    requires
        max_burst > 0,
    ensures
        quota_shape(q) == (per_second_interval(max_burst), max_burst),
{
    Quota::per_second(std::num::NonZeroU32::new(max_burst).unwrap())
}

/// `Quota::allow_burst`: the same replenishment interval with burst size `max_burst`.
#[verifier::external_body]
fn quota_allow_burst(q: Quota, max_burst: u32) -> (res: Quota)
    requires
        max_burst > 0,
    ensures
        quota_shape(res) == (quota_shape(q).0, max_burst),
{
    q.allow_burst(std::num::NonZeroU32::new(max_burst).unwrap())
}

/// The per-client limiters: a `DashMap<IpAddress, Arc<DefaultDirectRateLimiter>>`.
/// The limiter type carries bounds on `governor` traits, so it is kept out of
/// sight here: what is seen of each client's limiter is the quota it was made
/// with and the answers it has given.
#[verifier::external_body]
pub struct Buckets {
    map: DashMap<IpAddress, Arc<DefaultDirectRateLimiter>>,
}

/// The clients that have a limiter, each with the shape of the quota it was made with.
pub uninterp spec fn bucket_quotas(buckets: Buckets) -> Map<IpAddress, (u64, u32)>;

/// The clients that have a limiter, each with the answers its limiter has
/// given so far, oldest first (`true`: the request conformed).
pub uninterp spec fn bucket_answers(buckets: Buckets) -> Map<IpAddress, Seq<bool>>;

/// No client has a limiter.
pub open spec fn no_limiters() -> Map<IpAddress, (u64, u32)> {
    Map::empty()
}

/// No limiter has answered.
pub open spec fn no_answers() -> Map<IpAddress, Seq<bool>> {
    Map::empty()
}

/// `DashMap::new`: no client has a limiter yet.
#[verifier::external_body]
fn buckets_new() -> (fresh: Buckets)
    ensures
        bucket_quotas(fresh) == no_limiters(),
        bucket_answers(fresh) == no_answers(),
{
    Buckets { map: DashMap::new() }
}

/// `DashMap::contains_key`: whether the client has a limiter.
#[verifier::external_body]
fn buckets_contains(b: &Buckets, ip: &IpAddress) -> (res: bool)
    ensures
        res == bucket_quotas(*b).contains_key(*ip),
{
    b.map.contains_key(ip)
}

/// `DashMap::insert` of a fresh `RateLimiter::direct(quota)` for the client:
/// afterwards the client's limiter is a new one made with `quota`, which has
/// not answered yet.
#[verifier::external_body]
fn buckets_insert_new(b: &mut Buckets, ip: IpAddress, quota: Quota)
    ensures
        bucket_quotas(*final(b)) == bucket_quotas(*old(b)).insert(ip, quota_shape(quota)),
        bucket_answers(*final(b)) == bucket_answers(*old(b)).insert(ip, Seq::<bool>::empty()),
{
    b.map.insert(ip, Arc::new(RateLimiter::direct(quota)));
}

/// `RateLimiter::check` on the client's limiter (found with `DashMap::get`):
/// whether one more request conforms to its quota now. The answer is added to
/// that client's answers and no other limiter changes. The first check of a
/// fresh limiter always conforms: its state starts one interval ahead of now,
/// less a burst of at least one interval (`gcra.rs`, `test_and_update`).
/// Later answers depend on the clock, so nothing more is claimed of them.
#[verifier::external_body]
fn buckets_check(b: &mut Buckets, ip: &IpAddress) -> (allowed: bool)
    requires
        bucket_quotas(*old(b)).contains_key(*ip),
    ensures
        bucket_quotas(*final(b)) == bucket_quotas(*old(b)),
        bucket_answers(*final(b)) == bucket_answers(*old(b)).insert(*ip, bucket_answers(*old(b))[*ip].push(allowed)),
        bucket_answers(*old(b))[*ip].len() == 0 ==> allowed,
{
    b.map.get(ip).unwrap().check().is_ok()
}

/// The rate-limit decision once the client's limiter has answered.
pub fn rate_verdict(allowed: bool) -> (res: MwResult)
    ensures
        res == (if allowed { Ok(()) } else { Err(Rejection::TooManyRequests) }),
{
    if allowed {
        Ok(())
    } else {
        Err(Rejection::TooManyRequests)
    }
}

/// Limits each client address to a number of requests per second, with
/// bursts of up to a number of requests.
pub struct RateLimitMw {
    buckets: Buckets,
    quota: Quota,
}

impl RateLimitMw {
    /// The clients that have a limiter, each with the shape of the quota it was made with.
    pub closed spec fn limiters(self) -> Map<IpAddress, (u64, u32)> {
        bucket_quotas(self.buckets)
    }

    /// The answers each client's limiter has given so far, oldest first.
    pub closed spec fn answers(self) -> Map<IpAddress, Seq<bool>> {
        bucket_answers(self.buckets)
    }

    /// The configured quota: (nanoseconds to replenish one request, burst).
    pub closed spec fn rate(self) -> (u64, u32) {
        quota_shape(self.quota)
    }

    /// The limiters after a request from `ip`: a client seen for the first time
    /// gets a limiter with the configured quota; the others are kept.
    pub open spec fn limiters_after(self, ip: IpAddress) -> Map<IpAddress, (u64, u32)> {
        if self.limiters().contains_key(ip) {
            self.limiters()
        } else {
            self.limiters().insert(ip, self.rate())
        }
    }

    /// The answers the limiter of `ip` has given before a request: none for a
    /// client seen for the first time.
    pub open spec fn prior_answers(self, ip: IpAddress) -> Seq<bool> {
        if self.limiters().contains_key(ip) {
            self.answers()[ip]
        } else {
            Seq::empty()
        }
    }

    /// The effect of counting one request from `ip` whose answer is `r`: the
    /// client's limiter (made now if it is new) records whether the request
    /// conformed, every other limiter is unchanged, the answer is `Ok` exactly
    /// when the limiter let the request through and `TooManyRequests` otherwise,
    /// and a client's first request is always let through.
    pub open spec fn counted(self, after: RateLimitMw, ip: IpAddress, r: MwResult) -> bool {
        &&& after.rate() == self.rate()
        &&& after.limiters() == self.limiters_after(ip)
        &&& after.answers() == self.answers().insert(ip, self.prior_answers(ip).push(r is Ok))
        &&& (r is Ok || r == Err::<(), Rejection>(Rejection::TooManyRequests))
        &&& (self.prior_answers(ip).len() == 0 ==> r is Ok)
    }

    /// What the middleware does at a stage: only arriving requests are counted,
    /// against the client's own limiter; the session is never changed.
    pub open spec fn spec_run(self, stage: Stage, after: RateLimitMw, s: SessionView, s2: SessionView, r: MwResult) -> bool {
        &&& s2 == s
        &&& match stage {
            Stage::Request => self.counted(after, s.client_ip, r),
            _ => after.rate() == self.rate() && after.limiters() == self.limiters() && after.answers() == self.answers() && r is Ok,
        }
    }

    /// A limiter of `qps` requests per second (one replenished every
    /// `1e9 / qps` nanoseconds, rounded down) with bursts of up to `burst`,
    /// with no client seen yet.
    pub fn new(qps: u32, burst: u32) -> (res: RateLimitMw)
        requires
            qps > 0,
            burst > 0,
        ensures
            res.rate() == (per_second_interval(qps), burst),
            res.limiters() == no_limiters(),
            res.answers() == no_answers(),
    {
        let quota = quota_allow_burst(quota_per_second(qps), burst);
        RateLimitMw { buckets: buckets_new(), quota }
    }

    /// Counts a request from `ip` against its limiter, creating the limiter on
    /// the client's first request.
    pub fn count_request(&mut self, ip: &IpAddress) -> (res: MwResult)
        ensures
            old(self).counted(*final(self), *ip, res),
    {
        let ghost before = *self;
        if !buckets_contains(&self.buckets, ip) {
            buckets_insert_new(&mut self.buckets, *ip, self.quota);
        }
        let ghost mid = *self;
        assert(mid.answers()[*ip] == before.prior_answers(*ip));
        let allowed = buckets_check(&mut self.buckets, ip);
        assert(self.answers() =~= before.answers().insert(*ip, before.prior_answers(*ip).push(allowed)));
        assert(self.limiters() =~= before.limiters_after(*ip));
        rate_verdict(allowed)
    }
}

/// Each client has its own limiter: it is made with the configured quota on
/// the client's first request, which it lets through, and kept from then on;
/// a request from one client leaves the limiters of all other clients, and
/// their answers, as they were.
pub proof fn lemma_one_limiter_per_client(m: RateLimitMw, after: RateLimitMw, ip: IpAddress, r: MwResult, other: IpAddress)
    requires
        m.counted(after, ip, r),
    ensures
        after.limiters().contains_key(ip),
        m.limiters().contains_key(ip) ==> after.limiters()[ip] == m.limiters()[ip],
        !m.limiters().contains_key(ip) ==> after.limiters()[ip] == m.rate() && r is Ok,
        after.limiters_after(ip) == after.limiters(),
        after.prior_answers(ip) == m.prior_answers(ip).push(r is Ok),
        other != ip ==> after.limiters().contains_key(other) == m.limiters().contains_key(other),
        other != ip && m.limiters().contains_key(other) ==> after.limiters()[other] == m.limiters()[other]
            && after.prior_answers(other) == m.prior_answers(other),
{
}

impl Middleware for RateLimitMw {
    fn on_request(&mut self, s: &mut Session) -> (r: MwResult)
        ensures
            old(self).spec_run(Stage::Request, *final(self), old(s)@, final(s)@, r),
    {
        self.count_request(&s.client_ip)
    }

}

} // verus!
