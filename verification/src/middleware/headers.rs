//! Header hygiene: request ids, forwarding headers and security headers.

use vstd::prelude::*;
use crate::middleware::{Middleware, Stage};
use crate::headers::{lemma_get_after_remove, lemma_get_after_set};
use crate::net::ip_text;
use crate::session::{MwResult, Session, SessionView};

verus! {

/// A lower-case hexadecimal digit.
pub open spec fn is_lower_hex(c: char) -> bool {
    ('0' <= c && c <= '9') || ('a' <= c && c <= 'f')
}

/// The text of a random (version 4) UUID in hyphenated lower-case form, such
/// as `67e55044-10b1-426f-9247-bb680e5fe0c8`.
pub open spec fn is_request_id(id: Seq<char>) -> bool {
    &&& id.len() == 36
    &&& forall|i: int| 0 <= i < 36 ==> (if i == 8 || i == 13 || i == 18 || i == 23 {
        id[i] == '-'
    } else {
        is_lower_hex(#[trigger] id[i])
    })
    &&& id[14] == '4'
    &&& (id[19] == '8' || id[19] == '9' || id[19] == 'a' || id[19] == 'b')
}

/// `uuid::Uuid::new_v4`, written with its `Display`: a random version-4 UUID
/// in hyphenated lower-case form. Which one comes out is chance, so only its
/// form is claimed.
#[verifier::external_body]
fn new_request_id() -> (id: String)
    ensures
        is_request_id(id@),
{
    uuid::Uuid::new_v4().to_string()
}

/// The request as sent upstream: the hop-by-hop `connection` and `keep-alive`
/// headers dropped, and the client address and scheme forwarded.
pub open spec fn forwarded(s: SessionView) -> SessionView {
    s.drop_req("connection"@)
        .drop_req("keep-alive"@)
        .put_req("x-forwarded-for"@, ip_text(s.client_ip))
        .put_req("x-forwarded-proto"@, if s.tls { "https"@ } else { "http"@ })
}

/// The response with the security headers set.
pub open spec fn secured(s: SessionView) -> SessionView {
    s.put_resp("x-content-type-options"@, "nosniff"@)
        .put_resp("x-frame-options"@, "DENY"@)
        .put_resp("referrer-policy"@, "no-referrer"@)
}

/// A forwarded request carries no hop-by-hop `connection` or `keep-alive`
/// header, names the client address in `x-forwarded-for` and the scheme in
/// `x-forwarded-proto`, and every other request header reads as before.
pub proof fn lemma_forwarded_headers(s: SessionView, other: Seq<char>)
    ensures
        forwarded(s).req.get("connection"@) is None,
        forwarded(s).req.get("keep-alive"@) is None,
        forwarded(s).req.get("x-forwarded-for"@) == Some(ip_text(s.client_ip)),
        forwarded(s).req.get("x-forwarded-proto"@) == Some(if s.tls { "https"@ } else { "http"@ }),
        (other != "connection"@ && other != "keep-alive"@ && other != "x-forwarded-for"@ && other != "x-forwarded-proto"@)
            ==> forwarded(s).req.get(other) == s.req.get(other),
{
    reveal_strlit("connection");
    reveal_strlit("keep-alive");
    reveal_strlit("x-forwarded-for");
    reveal_strlit("x-forwarded-proto");
    assert("connection"@ != "keep-alive"@) by {
        assert("connection"@[0] != "keep-alive"@[0]);
    }
    assert("connection"@.len() != "x-forwarded-for"@.len());
    assert("keep-alive"@.len() != "x-forwarded-for"@.len());
    assert("connection"@.len() != "x-forwarded-proto"@.len());
    assert("keep-alive"@.len() != "x-forwarded-proto"@.len());
    assert("x-forwarded-for"@.len() != "x-forwarded-proto"@.len());
    let r0 = s.req;
    let r1 = r0.drop("connection"@);
    let r2 = r1.drop("keep-alive"@);
    let r3 = r2.put("x-forwarded-for"@, ip_text(s.client_ip));
    let proto = if s.tls { "https"@ } else { "http"@ };
    lemma_get_after_remove(r0.fields, "connection"@, other);
    lemma_get_after_remove(r0.fields, "connection"@, "keep-alive"@);
    lemma_get_after_remove(r1.fields, "keep-alive"@, other);
    lemma_get_after_remove(r1.fields, "keep-alive"@, "connection"@);
    lemma_get_after_set(r2.fields, "x-forwarded-for"@, ip_text(s.client_ip), other);
    lemma_get_after_set(r2.fields, "x-forwarded-for"@, ip_text(s.client_ip), "connection"@);
    lemma_get_after_set(r2.fields, "x-forwarded-for"@, ip_text(s.client_ip), "keep-alive"@);
    lemma_get_after_set(r3.fields, "x-forwarded-proto"@, proto, other);
    lemma_get_after_set(r3.fields, "x-forwarded-proto"@, proto, "connection"@);
    lemma_get_after_set(r3.fields, "x-forwarded-proto"@, proto, "keep-alive"@);
    lemma_get_after_set(r3.fields, "x-forwarded-proto"@, proto, "x-forwarded-for"@);
}

/// With security headers on, a response reads `nosniff`, `DENY` and
/// `no-referrer` in the three security headers.
pub proof fn lemma_secured_headers(s: SessionView)
    ensures
        secured(s).resp.get("x-content-type-options"@) == Some("nosniff"@),
        secured(s).resp.get("x-frame-options"@) == Some("DENY"@),
        secured(s).resp.get("referrer-policy"@) == Some("no-referrer"@),
{
    reveal_strlit("x-content-type-options");
    reveal_strlit("x-frame-options");
    reveal_strlit("referrer-policy");
    assert("x-content-type-options"@.len() != "x-frame-options"@.len());
    assert("x-content-type-options"@.len() != "referrer-policy"@.len());
    assert("x-frame-options"@ != "referrer-policy"@) by {
        assert("x-frame-options"@[0] != "referrer-policy"@[0]);
    }
    let r0 = s.resp;
    let r1 = r0.put("x-content-type-options"@, "nosniff"@);
    let r2 = r1.put("x-frame-options"@, "DENY"@);
    lemma_get_after_set(r0.fields, "x-content-type-options"@, "nosniff"@, "x-content-type-options"@);
    lemma_get_after_set(r1.fields, "x-frame-options"@, "DENY"@, "x-content-type-options"@);
    lemma_get_after_set(r1.fields, "x-frame-options"@, "DENY"@, "x-frame-options"@);
    lemma_get_after_set(r2.fields, "referrer-policy"@, "no-referrer"@, "x-content-type-options"@);
    lemma_get_after_set(r2.fields, "referrer-policy"@, "no-referrer"@, "x-frame-options"@);
    lemma_get_after_set(r2.fields, "referrer-policy"@, "no-referrer"@, "referrer-policy"@);
}

/// Tags requests, cleans and completes forwarded requests, and optionally
/// sets security headers on responses.
pub struct HeadersMw {
    security: bool,
}

impl HeadersMw {
    /// Whether responses get the security headers.
    pub closed spec fn security(self) -> bool {
        self.security
    }

    /// What the middleware does at a stage, for every request id drawn:
    /// arriving requests get a fresh `x-request-id`; forwarded requests lose
    /// their hop-by-hop headers and gain forwarding headers; responses get the
    /// security headers if enabled. No stage stops the exchange.
    pub open spec fn spec_run(self, stage: Stage, s: SessionView, s2: SessionView, r: MwResult) -> bool {
        &&& r is Ok
        &&& match stage {
            Stage::Request => exists|id: Seq<char>| is_request_id(id) && s2 == s.put_req("x-request-id"@, id),
            Stage::UpstreamRequest => s2 == forwarded(s),
            Stage::Response => s2 == if self.security() { secured(s) } else { s },
        }
    }

    /// A header middleware; `security` turns on the response security headers.
    pub fn new(security: bool) -> (res: HeadersMw)
        ensures
            res.security() == security,
    {
        HeadersMw { security }
    }
}

/// Every arriving request leaves the request stage carrying a freshly drawn
/// request id, whatever `x-request-id` it came with, with its other request
/// headers as before. With security on, every response leaves the response
/// stage carrying the three security headers, whatever its status; with
/// security off the response is left as it was. No stage rejects.
pub proof fn lemma_headers_stages(h: HeadersMw, s: SessionView, s2: SessionView, r: MwResult, other: Seq<char>)
    ensures
        h.spec_run(Stage::Request, s, s2, r) ==> {
            &&& r is Ok
            &&& s2.req.get("x-request-id"@) matches Some(id) && is_request_id(id)
            &&& (other != "x-request-id"@ ==> s2.req.get(other) == s.req.get(other))
            &&& s2.resp == s.resp && s2.status == s.status
        },
        (h.security() && h.spec_run(Stage::Response, s, s2, r)) ==> {
            &&& r is Ok
            &&& s2.resp.get("x-content-type-options"@) == Some("nosniff"@)
            &&& s2.resp.get("x-frame-options"@) == Some("DENY"@)
            &&& s2.resp.get("referrer-policy"@) == Some("no-referrer"@)
            &&& s2.status == s.status && s2.req == s.req
        },
        (!h.security() && h.spec_run(Stage::Response, s, s2, r)) ==> s2 == s && r is Ok,
{
    if h.spec_run(Stage::Request, s, s2, r) {
        let id = choose|id: Seq<char>| is_request_id(id) && s2 == s.put_req("x-request-id"@, id);
        lemma_get_after_set(s.req.fields, "x-request-id"@, id, other);
        lemma_get_after_set(s.req.fields, "x-request-id"@, id, "x-request-id"@);
    }
    lemma_secured_headers(s);
}

impl Middleware for HeadersMw {
    fn on_request(&mut self, s: &mut Session) -> (r: MwResult)
        ensures
            *final(self) == *old(self),
            old(self).spec_run(Stage::Request, old(s)@, final(s)@, r),
    {
        let id = new_request_id();
        let ghost idv = id@;
        s.req_headers.insert(String::from_str("x-request-id"), id);
        assert(is_request_id(idv) && s@ == old(s)@.put_req("x-request-id"@, idv));
        Ok(())
    }

    fn on_upstream_request(&mut self, s: &mut Session) -> (r: MwResult)
        ensures
            *final(self) == *old(self),
            old(self).spec_run(Stage::UpstreamRequest, old(s)@, final(s)@, r),
    {
        s.req_headers.remove(String::from_str("connection"));
        s.req_headers.remove(String::from_str("keep-alive"));
        let ip = s.client_ip.to_text();
        s.req_headers.insert(String::from_str("x-forwarded-for"), ip);
        let proto = if s.tls { String::from_str("https") } else { String::from_str("http") };
        s.req_headers.insert(String::from_str("x-forwarded-proto"), proto);
        assert(s@ == forwarded(old(s)@));
        Ok(())
    }

    fn on_response(&mut self, s: &mut Session) -> (r: MwResult)
        ensures
            *final(self) == *old(self),
            old(self).spec_run(Stage::Response, old(s)@, final(s)@, r),
    {
        if self.security {
            s.resp_headers.insert(String::from_str("x-content-type-options"), String::from_str("nosniff"));
            s.resp_headers.insert(String::from_str("x-frame-options"), String::from_str("DENY"));
            s.resp_headers.insert(String::from_str("referrer-policy"), String::from_str("no-referrer"));
            assert(s@ == secured(old(s)@));
        }
        Ok(())
    }
}

} // verus!
