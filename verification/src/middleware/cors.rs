//! Cross-origin resource sharing: preflight answers and the allow-origin header.

use vstd::prelude::*;
use crate::headers::lemma_get_after_set;
use crate::middleware::{Middleware, Stage};
use crate::session::{MwResult, Rejection, Session, SessionView};

verus! {

/// Answers CORS preflight requests and marks responses with the allowed origin.
pub struct CorsMw {
    origin: String,
    headers: String,
    methods: String,
}

/// The session after a preflight answer: status 204 with the allowed origin,
/// headers and methods.
pub open spec fn preflight_answer(s: SessionView, origin: Seq<char>, headers: Seq<char>, methods: Seq<char>) -> SessionView {
    SessionView { status: 204, ..s }
        .put_resp("access-control-allow-origin"@, origin)
        .put_resp("access-control-allow-headers"@, headers)
        .put_resp("access-control-allow-methods"@, methods)
}

impl CorsMw {
    /// The allowed origin.
    pub closed spec fn origin(self) -> Seq<char> {
        self.origin@
    }

    /// The allowed request headers.
    pub closed spec fn allow_headers(self) -> Seq<char> {
        self.headers@
    }

    /// The allowed methods.
    pub closed spec fn allow_methods(self) -> Seq<char> {
        self.methods@
    }

    /// What the middleware does at a stage: an `OPTIONS` request is answered
    /// as a preflight and goes no further; every response carries the allowed
    /// origin.
    pub open spec fn spec_run(self, stage: Stage, s: SessionView) -> (SessionView, MwResult) {
        match stage {
            Stage::Request => if s.method == "OPTIONS"@ {
                (preflight_answer(s, self.origin(), self.allow_headers(), self.allow_methods()), Err(Rejection::Preflight))
            } else {
                (s, Ok(()))
            },
            Stage::UpstreamRequest => (s, Ok(())),
            Stage::Response => (s.put_resp("access-control-allow-origin"@, self.origin()), Ok(())),
        }
    }

    /// A CORS policy allowing origin `o`, request headers `h` and methods `m`.
    pub fn new(o: String, h: String, m: String) -> (res: CorsMw)
        ensures
            res.origin() == o@,
            res.allow_headers() == h@,
            res.allow_methods() == m@,
    {
        CorsMw { origin: o, headers: h, methods: m }
    }
}

/// Only an `OPTIONS` request is answered as a preflight: it gets status 204,
/// the three allow headers and a `Preflight` rejection; a request with any
/// other method goes on with its session unchanged. Every response carries
/// the allowed origin, whatever else it holds.
pub proof fn lemma_cors_preflight(c: CorsMw, s: SessionView, other: Seq<char>)
    ensures
        s.method != "OPTIONS"@ ==> c.spec_run(Stage::Request, s) == (s, Ok::<(), Rejection>(())),
        s.method == "OPTIONS"@ ==> {
            let (s2, r) = c.spec_run(Stage::Request, s);
            &&& r == Err::<(), Rejection>(Rejection::Preflight)
            &&& s2.status == 204
            &&& s2.resp.get("access-control-allow-origin"@) == Some(c.origin())
            &&& s2.resp.get("access-control-allow-headers"@) == Some(c.allow_headers())
            &&& s2.resp.get("access-control-allow-methods"@) == Some(c.allow_methods())
            &&& s2.req == s.req
        },
        c.spec_run(Stage::Response, s).0.resp.get("access-control-allow-origin"@) == Some(c.origin()),
        c.spec_run(Stage::Response, s).1 == Ok::<(), Rejection>(()),
        c.spec_run(Stage::UpstreamRequest, s) == (s, Ok::<(), Rejection>(())),
{
    reveal_strlit("access-control-allow-origin");
    reveal_strlit("access-control-allow-headers");
    reveal_strlit("access-control-allow-methods");
    let o = "access-control-allow-origin"@;
    let h = "access-control-allow-headers"@;
    let m = "access-control-allow-methods"@;
    assert(o != h) by { assert(o[21] != h[21]); }
    assert(o != m) by { assert(o[21] != m[21]); }
    assert(h != m) by { assert(h[21] != m[21]); }
    let t = SessionView { status: 204, ..s };
    let t1 = t.put_resp(o, c.origin());
    let t2 = t1.put_resp(h, c.allow_headers());
    lemma_get_after_set(t.resp.fields, o, c.origin(), o);
    lemma_get_after_set(t1.resp.fields, h, c.allow_headers(), o);
    lemma_get_after_set(t1.resp.fields, h, c.allow_headers(), h);
    lemma_get_after_set(t2.resp.fields, m, c.allow_methods(), o);
    lemma_get_after_set(t2.resp.fields, m, c.allow_methods(), h);
    lemma_get_after_set(t2.resp.fields, m, c.allow_methods(), m);
    lemma_get_after_set(s.resp.fields, o, c.origin(), o);
}

impl Middleware for CorsMw {
    fn on_request(&mut self, s: &mut Session) -> (r: MwResult)
        ensures
            *final(self) == *old(self),
            (final(s)@, r) == old(self).spec_run(Stage::Request, old(s)@),
    {
        if s.method == String::from_str("OPTIONS") {
            s.resp_status = 204;
            s.resp_headers.insert(String::from_str("access-control-allow-origin"), self.origin.clone());
            s.resp_headers.insert(String::from_str("access-control-allow-headers"), self.headers.clone());
            s.resp_headers.insert(String::from_str("access-control-allow-methods"), self.methods.clone());
            return Err(Rejection::Preflight);
        }
        Ok(())
    }


    fn on_response(&mut self, s: &mut Session) -> (r: MwResult)
        ensures
            *final(self) == *old(self),
            (final(s)@, r) == old(self).spec_run(Stage::Response, old(s)@),
    {
        s.resp_headers.insert(String::from_str("access-control-allow-origin"), self.origin.clone());
        Ok(())
    }
}

} // verus!
