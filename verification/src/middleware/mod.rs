//! The middleware stages and the chain that runs them in order.

use vstd::prelude::*;
use crate::config::MwCfg;
use crate::middleware::acl::acl_verdict;
use crate::session::Rejection;
use crate::headers::lemma_changes_keep_record;
use crate::middleware::cors::preflight_answer;
use crate::middleware::headers::{forwarded, secured};
use crate::net::{parse_networks, parsed_networks, string_views};
use crate::session::{MwResult, Session, SessionView};

pub mod acl;
pub mod auth;
pub mod rate_limit;
pub mod cors;
pub mod headers;

pub use acl::AclMw;
pub use auth::AuthMw;
pub use cors::CorsMw;
pub use headers::HeadersMw;
pub use rate_limit::RateLimitMw;

verus! {

/// The three points of an exchange at which middleware runs.
#[derive(Clone, Copy, Debug, PartialEq, Eq)]
pub enum Stage {
    /// The request as it arrives from the client.
    Request,
    /// The request as it is about to be sent upstream.
    UpstreamRequest,
    /// The response as it is about to be sent to the client.
    Response,
}

/// A step of request processing. Each method may change the session and
/// either lets the exchange go on (`Ok`) or stops it with a rejection. A
/// stage a middleware does not take part in lets the exchange go on and
/// changes nothing.
pub trait Middleware: Sized + Send + Sync {
    /// Runs on the request as it arrives.
    fn on_request(&mut self, s: &mut Session) -> (r: MwResult)
        default_ensures
            *final(self) == *old(self),
            *final(s) == *old(s),
            r == Ok::<(), Rejection>(()),
    {
        Ok(())
    }

    /// Runs on the request before it is sent upstream.
    fn on_upstream_request(&mut self, s: &mut Session) -> (r: MwResult)
        default_ensures
            *final(self) == *old(self),
            *final(s) == *old(s),
            r == Ok::<(), Rejection>(()),
    {
        Ok(())
    }

    /// Runs on the response before it is sent to the client.
    fn on_response(&mut self, s: &mut Session) -> (r: MwResult)
        default_ensures
            *final(self) == *old(self),
            *final(s) == *old(s),
            r == Ok::<(), Rejection>(()),
    {
        Ok(())
    }
}


/// One middleware of a chain.
pub enum Mw {
    Acl(AclMw),
    Auth(AuthMw),
    RateLimit(RateLimitMw),
    Cors(CorsMw),
    Headers(HeadersMw),
}

/// What one middleware may do at a stage: `m` turns into `m2`, the session
/// `s` into `s2`, and the stage answers `r`.
#[verifier::opaque]
pub open spec fn mw_step(stage: Stage, m: Mw, m2: Mw, s: SessionView, s2: SessionView, r: MwResult) -> bool {
    match m {
        Mw::Acl(a) => m2 == m && (s2, r) == a.spec_run(stage, s),
        Mw::Auth(a) => m2 == m && (s2, r) == a.spec_run(stage, s),
        Mw::RateLimit(l) => m2 matches Mw::RateLimit(l2) && l.spec_run(stage, l2, s, s2, r),
        Mw::Cors(c) => m2 == m && (s2, r) == c.spec_run(stage, s),
        Mw::Headers(h) => m2 == m && h.spec_run(stage, s, s2, r),
    }
}

impl Mw {
    /// Runs this middleware at `stage`.
    pub fn run(&mut self, stage: Stage, s: &mut Session) -> (r: MwResult)
        ensures
            mw_step(stage, *old(self), *final(self), old(s)@, final(s)@, r),
    {
        reveal(mw_step);
        match self {
            Mw::Acl(m) => match stage {
                Stage::Request => m.on_request(s),
                Stage::UpstreamRequest => m.on_upstream_request(s),
                Stage::Response => m.on_response(s),
            },
            Mw::Auth(m) => match stage {
                Stage::Request => m.on_request(s),
                Stage::UpstreamRequest => m.on_upstream_request(s),
                Stage::Response => m.on_response(s),
            },
            Mw::RateLimit(m) => match stage {
                Stage::Request => m.on_request(s),
                Stage::UpstreamRequest => m.on_upstream_request(s),
                Stage::Response => m.on_response(s),
            },
            Mw::Cors(m) => match stage {
                Stage::Request => m.on_request(s),
                Stage::UpstreamRequest => m.on_upstream_request(s),
                Stage::Response => m.on_response(s),
            },
            Mw::Headers(m) => match stage {
                Stage::Request => m.on_request(s),
                Stage::UpstreamRequest => m.on_upstream_request(s),
                Stage::Response => m.on_response(s),
            },
        }
    }
}

impl Middleware for Mw {
    fn on_request(&mut self, s: &mut Session) -> (r: MwResult)
        ensures
            mw_step(Stage::Request, *old(self), *final(self), old(s)@, final(s)@, r),
    {
        self.run(Stage::Request, s)
    }

    fn on_upstream_request(&mut self, s: &mut Session) -> (r: MwResult)
        ensures
            mw_step(Stage::UpstreamRequest, *old(self), *final(self), old(s)@, final(s)@, r),
    {
        self.run(Stage::UpstreamRequest, s)
    }

    fn on_response(&mut self, s: &mut Session) -> (r: MwResult)
        ensures
            mw_step(Stage::Response, *old(self), *final(self), old(s)@, final(s)@, r),
    {
        self.run(Stage::Response, s)
    }
}

/// A run of the chain through its first `k` middlewares, each of which let
/// the exchange go on: `trace[i]` is the session middleware `i` was handed.
pub open spec fn passed_through(stage: Stage, before: Seq<Mw>, after: Seq<Mw>, trace: Seq<SessionView>, k: int) -> bool {
    &&& 0 <= k <= before.len()
    &&& trace.len() == k + 1
    &&& forall|i: int| 0 <= i < k ==> mw_step(stage, before[i], after[i], #[trigger] trace[i], trace[i + 1], Ok(()))
}

/// A run of a chain, as seen through its witnesses: the first `k` middlewares
/// let the exchange go on; then either all of them have run and the chain
/// answers `Ok`, or middleware `k` answered the rejection that the chain
/// answers, and no middleware after it ran.
pub open spec fn chain_run(stage: Stage, before: Seq<Mw>, after: Seq<Mw>, s: SessionView, s2: SessionView, r: MwResult, trace: Seq<SessionView>, k: int) -> bool {
    &&& trace[0] == s
    &&& passed_through(stage, before, after, trace, k)
    &&& match r {
        Ok(()) => k == before.len() && s2 == trace[k],
        Err(e) => {
            &&& k < before.len()
            &&& mw_step(stage, before[k], after[k], trace[k], s2, Err(e))
            &&& forall|i: int| k < i < before.len() ==> after[i] == before[i]
        },
    }
}

/// What running a chain may do: the middlewares run in order on the session,
/// each on the session the one before left, until one rejects the exchange or
/// all have let it go on.
pub open spec fn chain_step(stage: Stage, before: Seq<Mw>, after: Seq<Mw>, s: SessionView, s2: SessionView, r: MwResult) -> bool {
    &&& after.len() == before.len()
    &&& exists|trace: Seq<SessionView>, k: int| #[trigger] chain_run(stage, before, after, s, s2, r, trace, k)
}

/// The middlewares of a gateway, run in order at each stage.
pub struct Chain {
    inner: Vec<Mw>,
}

impl Chain {
    /// The middlewares, in the order they run.
    pub closed spec fn mws(self) -> Seq<Mw> {
        self.inner@
    }

    /// A chain running `list` in order.
    pub fn new(list: Vec<Mw>) -> (res: Chain)
        ensures
            res.mws() == list@,
    {
        Chain { inner: list }
    }

    /// Runs the middlewares at `stage` in order, stopping at the first rejection.
    pub fn run(&mut self, stage: Stage, s: &mut Session) -> (r: MwResult)
        ensures
            chain_step(stage, old(self).mws(), final(self).mws(), old(s)@, final(s)@, r),
    {
        let ghost before = self.inner@;
        let ghost mut trace: Seq<SessionView> = seq![s@];
        let mut i: usize = 0;
        let mut res: MwResult = Ok(());
        while i < self.inner.len()
            invariant_except_break
                res is Ok,
                passed_through(stage, before, self.inner@, trace, i as int),
                trace[i as int] == s@,
                forall|j: int| i <= j < before.len() ==> self.inner@[j] == before[j],
            invariant
                self.inner@.len() == before.len(),
                i <= before.len(),
                trace[0] == old(s)@,
            ensures
                chain_run(stage, before, self.inner@, old(s)@, s@, res, trace, i as int),
            decreases before.len() - i,
        {
            let ghost inner_in = self.inner@;
            let ghost s_in = s@;
            let r = self.inner[i].run(stage, s);
            if let Err(e) = r {
                res = Err(e);
                break;
            }
            proof {
                assert(r == Ok::<(), Rejection>(())) by {
                    let u: () = r->Ok_0;
                    assert(u == ());
                }
                assert(mw_step(stage, before[i as int], self.inner@[i as int], s_in, s@, Ok(())));
                trace = trace.push(s@);
                assert forall|j: int| 0 <= j < i + 1 implies mw_step(stage, before[j], self.inner@[j], #[trigger] trace[j], trace[j + 1], Ok(())) by {
                    if j < i {
                        assert(inner_in[j] == self.inner@[j]);
                    }
                }
            }
            i = i + 1;
        }
        res
    }

    /// The chain a gateway runs for its middleware settings: access lists,
    /// authentication, rate limiting, CORS and headers, in that order. CIDR
    /// texts that do not parse are left out of the access lists, and an empty
    /// public key means none.
    pub fn from_config(cfg: &MwCfg) -> (res: Chain)
        requires
            cfg.rate_limit.req_per_sec > 0,
            cfg.rate_limit.burst > 0,
        ensures
            res.mws().len() == 5,
            res.mws()[0] matches Mw::Acl(a) && a.allow_nets() == parsed_networks(string_views(cfg.acl.allow@))
                && a.deny_nets() == parsed_networks(string_views(cfg.acl.deny@)),
            res.mws()[1] matches Mw::Auth(a) && a.key_set() == string_views(cfg.auth.api_keys@).to_set()
                && a.jwt() == cfg.auth.jwt.enabled
                && a.pem() == (if cfg.auth.jwt.pub_key_pem@.len() == 0 { None } else { Some(cfg.auth.jwt.pub_key_pem@) }),
            res.mws()[2] matches Mw::RateLimit(l)
                && l.rate() == (rate_limit::per_second_interval(cfg.rate_limit.req_per_sec), cfg.rate_limit.burst)
                && l.limiters() == rate_limit::no_limiters() && l.answers() == rate_limit::no_answers(),
            res.mws()[3] matches Mw::Cors(c) && c.origin() == cfg.cors.allow_origin@
                && c.allow_headers() == cfg.cors.allow_headers@ && c.allow_methods() == cfg.cors.allow_methods@,
            res.mws()[4] matches Mw::Headers(h) && h.security() == cfg.headers.security,
    {
        let acl = AclMw::new(parse_networks(&cfg.acl.allow), parse_networks(&cfg.acl.deny));
        let pem = if cfg.auth.jwt.pub_key_pem.as_str().is_empty() {
            None
        } else {
            Some(cfg.auth.jwt.pub_key_pem.clone())
        };
        let auth = AuthMw::new(cfg.auth.api_keys.clone(), cfg.auth.jwt.enabled, pem);
        let rl = RateLimitMw::new(cfg.rate_limit.req_per_sec, cfg.rate_limit.burst);
        let cors = CorsMw::new(cfg.cors.allow_origin.clone(), cfg.cors.allow_headers.clone(), cfg.cors.allow_methods.clone());
        let headers = HeadersMw::new(cfg.headers.security);
        let mut list: Vec<Mw> = Vec::new();
        list.push(Mw::Acl(acl));
        list.push(Mw::Auth(auth));
        list.push(Mw::RateLimit(rl));
        list.push(Mw::Cors(cors));
        list.push(Mw::Headers(headers));
        Chain::new(list)
    }

    /// Runs the middlewares on an arriving request.
    pub fn on_request(&mut self, s: &mut Session) -> (r: MwResult)
        ensures
            chain_step(Stage::Request, old(self).mws(), final(self).mws(), old(s)@, final(s)@, r),
    {
        self.run(Stage::Request, s)
    }

    /// Runs the middlewares on a request about to go upstream.
    pub fn on_up_req(&mut self, s: &mut Session) -> (r: MwResult)
        ensures
            chain_step(Stage::UpstreamRequest, old(self).mws(), final(self).mws(), old(s)@, final(s)@, r),
    {
        self.run(Stage::UpstreamRequest, s)
    }

    /// Runs the middlewares on a response about to go to the client.
    pub fn on_response(&mut self, s: &mut Session) -> (r: MwResult)
        ensures
            chain_step(Stage::Response, old(self).mws(), final(self).mws(), old(s)@, final(s)@, r),
    {
        self.run(Stage::Response, s)
    }
}


/// If the first middleware cannot let the session through at a stage, the
/// chain answers that middleware's rejection and no later middleware runs.
pub proof fn lemma_first_rejection_stops_chain(stage: Stage, before: Seq<Mw>, after: Seq<Mw>, s: SessionView, s2: SessionView, r: MwResult)
    requires
        chain_step(stage, before, after, s, s2, r),
        before.len() > 0,
        forall|m2: Mw, s1: SessionView| !#[trigger] mw_step(stage, before[0], m2, s, s1, Ok(())),
    ensures
        r is Err,
        mw_step(stage, before[0], after[0], s, s2, r),
        forall|i: int| 0 < i < before.len() ==> after[i] == before[i],
{
    let (trace, k) = choose|trace: Seq<SessionView>, k: int| #[trigger] chain_run(stage, before, after, s, s2, r, trace, k);
    if k > 0 {
        assert(mw_step(stage, before[0], after[0], trace[0], trace[1], Ok(())));
    }
}

/// A client that the access lists refuse is answered `Forbidden` by a chain
/// that starts with them: the session is left as it was and no other
/// middleware runs, so in particular no rate-limit budget is spent on it.
pub proof fn lemma_refused_client_stops_at_acl(before: Seq<Mw>, after: Seq<Mw>, s: SessionView, s2: SessionView, r: MwResult)
    requires
        chain_step(Stage::Request, before, after, s, s2, r),
        before.len() > 0,
        before[0] matches Mw::Acl(a) && acl_verdict(a.allow_nets(), a.deny_nets(), s.client_ip) is Err,
    ensures
        r == Err::<(), Rejection>(Rejection::Forbidden),
        s2 == s,
        after == before,
{
    reveal(mw_step);
    lemma_first_rejection_stops_chain(Stage::Request, before, after, s, s2, r);
    assert(after =~= before);
}


/// Running chain `a` and then, if it let the exchange go on, chain `b` on the
/// session `a` left, with `mid` the session and `ra` the answer after `a`.
pub open spec fn chain_then_via(stage: Stage, a: Seq<Mw>, b: Seq<Mw>, after: Seq<Mw>, s: SessionView, s2: SessionView, r: MwResult, mid: SessionView, ra: MwResult) -> bool {
    let n = a.len() as int;
    &&& after.len() == a.len() + b.len()
    &&& chain_step(stage, a, after.subrange(0, n), s, mid, ra)
    &&& match ra {
        Err(_) => r == ra && s2 == mid && after.subrange(n, after.len() as int) == b,
        Ok(()) => chain_step(stage, b, after.subrange(n, after.len() as int), mid, s2, r),
    }
}

/// Running chain `a` and then, if it let the exchange go on, chain `b`.
pub open spec fn chain_then(stage: Stage, a: Seq<Mw>, b: Seq<Mw>, after: Seq<Mw>, s: SessionView, s2: SessionView, r: MwResult) -> bool {
    exists|mid: SessionView, ra: MwResult| #[trigger] chain_then_via(stage, a, b, after, s, s2, r, mid, ra)
}

proof fn lemma_concat_split(stage: Stage, a: Seq<Mw>, b: Seq<Mw>, after: Seq<Mw>, s: SessionView, s2: SessionView, r: MwResult)
    requires
        chain_step(stage, a + b, after, s, s2, r),
    ensures
        chain_then(stage, a, b, after, s, s2, r),
{
    let ab = a + b;
    let n = a.len() as int;
    let (trace, k) = choose|trace: Seq<SessionView>, k: int| #[trigger] chain_run(stage, ab, after, s, s2, r, trace, k);
    let aa = after.subrange(0, n);
    let bb = after.subrange(n, after.len() as int);
    if k < n {
        assert(chain_run(stage, a, aa, s, s2, r, trace, k));
        assert(bb =~= b);
        assert(chain_then_via(stage, a, b, after, s, s2, r, s2, r));
    } else {
        let t1 = trace.subrange(0, n + 1);
        let mid = trace[n];
        assert forall|i: int| 0 <= i < n implies mw_step(stage, a[i], aa[i], #[trigger] t1[i], t1[i + 1], Ok(())) by {
            assert(mw_step(stage, ab[i], after[i], trace[i], trace[i + 1], Ok(())));
        }
        assert(chain_run(stage, a, aa, s, mid, Ok(()), t1, n));
        let t2 = trace.subrange(n, k + 1);
        let k2 = k - n;
        assert forall|i: int| 0 <= i < k2 implies mw_step(stage, b[i], bb[i], #[trigger] t2[i], t2[i + 1], Ok(())) by {
            assert(mw_step(stage, ab[n + i], after[n + i], trace[n + i], trace[n + i + 1], Ok(())));
        }
        match r {
            Ok(()) => {
                assert(chain_run(stage, b, bb, mid, s2, r, t2, k2));
            },
            Err(e) => {
                assert forall|i: int| k2 < i < b.len() implies bb[i] == b[i] by {
                    assert(after[n + i] == ab[n + i]);
                }
                assert(chain_run(stage, b, bb, mid, s2, r, t2, k2));
            },
        }
        assert(chain_then_via(stage, a, b, after, s, s2, r, mid, Ok(())));
    }
}

proof fn lemma_concat_join_rejected(stage: Stage, a: Seq<Mw>, b: Seq<Mw>, after: Seq<Mw>, s: SessionView, s2: SessionView, r: MwResult, t1: Seq<SessionView>, k1: int)
    requires
        after.len() == a.len() + b.len(),
        chain_run(stage, a, after.subrange(0, a.len() as int), s, s2, r, t1, k1),
        r is Err,
        after.subrange(a.len() as int, after.len() as int) == b,
    ensures
        chain_run(stage, a + b, after, s, s2, r, t1, k1),
{
    let ab = a + b;
    let n = a.len() as int;
    let aa = after.subrange(0, n);
    let bb = after.subrange(n, after.len() as int);
    assert forall|i: int| 0 <= i < k1 implies mw_step(stage, ab[i], after[i], #[trigger] t1[i], t1[i + 1], Ok(())) by {
        assert(mw_step(stage, a[i], aa[i], t1[i], t1[i + 1], Ok(())));
    }
    assert forall|i: int| k1 < i < ab.len() implies after[i] == ab[i] by {
        if i < n {
            assert(aa[i] == a[i]);
        } else {
            assert(bb[i - n] == b[i - n]);
        }
    }
    assert(ab[k1] == a[k1] && after[k1] == aa[k1]);
}

proof fn lemma_concat_join_passed(stage: Stage, a: Seq<Mw>, b: Seq<Mw>, after: Seq<Mw>, s: SessionView, mid: SessionView, s2: SessionView, r: MwResult, t1: Seq<SessionView>, t2: Seq<SessionView>, k2: int)
    requires
        after.len() == a.len() + b.len(),
        chain_run(stage, a, after.subrange(0, a.len() as int), s, mid, Ok(()), t1, a.len() as int),
        chain_run(stage, b, after.subrange(a.len() as int, after.len() as int), mid, s2, r, t2, k2),
    ensures
        chain_run(stage, a + b, after, s, s2, r, t1 + t2.subrange(1, t2.len() as int), a.len() + k2),
{
    let ab = a + b;
    let n = a.len() as int;
    let aa = after.subrange(0, n);
    let bb = after.subrange(n, after.len() as int);
    let trace = t1 + t2.subrange(1, t2.len() as int);
    let k = n + k2;
    assert(trace.len() == k + 1);
    assert forall|i: int| 0 <= i < k implies mw_step(stage, ab[i], after[i], #[trigger] trace[i], trace[i + 1], Ok(())) by {
        if i < n {
            assert(mw_step(stage, a[i], aa[i], t1[i], t1[i + 1], Ok(())));
            assert(trace[i] == t1[i]);
            assert(trace[i + 1] == t1[i + 1]);
        } else {
            assert(mw_step(stage, b[i - n], bb[i - n], t2[i - n], t2[i - n + 1], Ok(())));
            assert(trace[i] == t2[i - n]);
            assert(trace[i + 1] == t2[i + 1 - n]);
        }
    }
    assert(trace[k] == t2[k2]);
    assert(trace[0] == s);
    if r is Err {
        assert(ab[k] == b[k2] && after[k] == bb[k2]);
        assert forall|i: int| k < i < ab.len() implies after[i] == ab[i] by {
            assert(bb[i - n] == b[i - n]);
        }
    }
}

proof fn lemma_concat_join(stage: Stage, a: Seq<Mw>, b: Seq<Mw>, after: Seq<Mw>, s: SessionView, s2: SessionView, r: MwResult)
    requires
        chain_then(stage, a, b, after, s, s2, r),
    ensures
        chain_step(stage, a + b, after, s, s2, r),
{
    let n = a.len() as int;
    let (mid, ra) = choose|mid: SessionView, ra: MwResult| #[trigger] chain_then_via(stage, a, b, after, s, s2, r, mid, ra);
    let aa = after.subrange(0, n);
    let bb = after.subrange(n, after.len() as int);
    let (t1, k1) = choose|t1: Seq<SessionView>, k1: int| #[trigger] chain_run(stage, a, aa, s, mid, ra, t1, k1);
    if ra is Err {
        lemma_concat_join_rejected(stage, a, b, after, s, s2, r, t1, k1);
        assert(chain_run(stage, a + b, after, s, s2, r, t1, k1));
    } else {
        let (t2, k2) = choose|t2: Seq<SessionView>, k2: int| #[trigger] chain_run(stage, b, bb, mid, s2, r, t2, k2);
        lemma_concat_join_passed(stage, a, b, after, s, mid, s2, r, t1, t2, k2);
        assert(chain_run(stage, a + b, after, s, s2, r, t1 + t2.subrange(1, t2.len() as int), n + k2));
    }
}

/// Running the chain `a + b` is running `a`, and then, if `a` let the exchange
/// go on, running `b` on the session `a` left; a rejection by `a` is the
/// answer, and `b` is left untouched.
pub proof fn lemma_chain_concat(stage: Stage, a: Seq<Mw>, b: Seq<Mw>, after: Seq<Mw>, s: SessionView, s2: SessionView, r: MwResult)
    ensures
        chain_step(stage, a + b, after, s, s2, r) <==> chain_then(stage, a, b, after, s, s2, r),
{
    if chain_step(stage, a + b, after, s, s2, r) {
        lemma_concat_split(stage, a, b, after, s, s2, r);
    }
    if chain_then(stage, a, b, after, s, s2, r) {
        lemma_concat_join(stage, a, b, after, s, s2, r);
    }
}

/// One middleware stage keeps the edit records of the session faithful.
pub proof fn lemma_step_keeps_records(stage: Stage, m: Mw, m2: Mw, s: SessionView, s2: SessionView, r: MwResult)
    requires
        mw_step(stage, m, m2, s, s2, r),
        s.records_faithful(),
    ensures
        s2.records_faithful(),
{
    reveal(mw_step);
    match m {
        Mw::Cors(c) => {
            match stage {
                Stage::Request => {
                    if s.method == "OPTIONS"@ {
                        let t = SessionView { status: 204, ..s };
                        let t1 = t.put_resp("access-control-allow-origin"@, c.origin());
                        let t2 = t1.put_resp("access-control-allow-headers"@, c.allow_headers());
                        lemma_changes_keep_record(t.resp, "access-control-allow-origin"@, c.origin());
                        lemma_changes_keep_record(t1.resp, "access-control-allow-headers"@, c.allow_headers());
                        lemma_changes_keep_record(t2.resp, "access-control-allow-methods"@, c.allow_methods());
                        assert(s2 == preflight_answer(s, c.origin(), c.allow_headers(), c.allow_methods()));
                    }
                },
                Stage::UpstreamRequest => {},
                Stage::Response => {
                    lemma_changes_keep_record(s.resp, "access-control-allow-origin"@, c.origin());
                },
            }
        },
        Mw::Headers(h) => {
            match stage {
                Stage::Request => {
                    let id = choose|id: Seq<char>| crate::middleware::headers::is_request_id(id) && s2 == s.put_req("x-request-id"@, id);
                    lemma_changes_keep_record(s.req, "x-request-id"@, id);
                },
                Stage::UpstreamRequest => {
                    let t1 = s.drop_req("connection"@);
                    let t2 = t1.drop_req("keep-alive"@);
                    let t3 = t2.put_req("x-forwarded-for"@, crate::net::ip_text(s.client_ip));
                    lemma_changes_keep_record(s.req, "connection"@, Seq::empty());
                    lemma_changes_keep_record(t1.req, "keep-alive"@, Seq::empty());
                    lemma_changes_keep_record(t2.req, "x-forwarded-for"@, crate::net::ip_text(s.client_ip));
                    lemma_changes_keep_record(t3.req, "x-forwarded-proto"@, if s.tls { "https"@ } else { "http"@ });
                    assert(s2 == forwarded(s));
                },
                Stage::Response => {
                    if h.security() {
                        let t1 = s.put_resp("x-content-type-options"@, "nosniff"@);
                        let t2 = t1.put_resp("x-frame-options"@, "DENY"@);
                        lemma_changes_keep_record(s.resp, "x-content-type-options"@, "nosniff"@);
                        lemma_changes_keep_record(t1.resp, "x-frame-options"@, "DENY"@);
                        lemma_changes_keep_record(t2.resp, "referrer-policy"@, "no-referrer"@);
                        assert(s2 == secured(s));
                    }
                },
            }
        },
        _ => {},
    }
}

/// Running a chain keeps the edit records of the session faithful: replaying
/// the recorded edits on the headers the session was read from gives exactly
/// the headers the middlewares left.
pub proof fn lemma_chain_keeps_records(stage: Stage, before: Seq<Mw>, after: Seq<Mw>, s: SessionView, s2: SessionView, r: MwResult)
    requires
        chain_step(stage, before, after, s, s2, r),
        s.records_faithful(),
    ensures
        s2.records_faithful(),
{
    let (trace, k) = choose|trace: Seq<SessionView>, k: int| #[trigger] chain_run(stage, before, after, s, s2, r, trace, k);
    lemma_trace_keeps_records(stage, before, after, trace, k, k);
    if let Err(e) = r {
        lemma_step_keeps_records(stage, before[k], after[k], trace[k], s2, Err(e));
    }
}

proof fn lemma_trace_keeps_records(stage: Stage, before: Seq<Mw>, after: Seq<Mw>, trace: Seq<SessionView>, k: int, j: int)
    requires
        passed_through(stage, before, after, trace, k),
        trace[0].records_faithful(),
        0 <= j <= k,
    ensures
        trace[j].records_faithful(),
    decreases j,
{
    if j > 0 {
        lemma_trace_keeps_records(stage, before, after, trace, k, j - 1);
        lemma_step_keeps_records(stage, before[j - 1], after[j - 1], trace[j - 1], trace[j], Ok(()));
    }
}

} // verus!
