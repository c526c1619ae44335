//! The part of an HTTP exchange that the middleware reads and changes, and
//! the ways in which a middleware can turn a request away.

use vstd::prelude::*;
use crate::headers::{HeaderList, HeaderListView};
use crate::net::IpAddress;

verus! {

/// Why a middleware stopped a request.
#[derive(Clone, Copy, Debug, PartialEq, Eq)]
pub enum Rejection {
    /// The client address is not admitted by the access lists.
    Forbidden,
    /// No accepted credential was presented.
    Unauthorized,
    /// The client exceeded its request rate.
    TooManyRequests,
    /// A CORS preflight request, answered without reaching an upstream.
    Preflight,
}

/// The outcome of one middleware stage: go on, or stop with a rejection.
pub type MwResult = Result<(), Rejection>;

impl Rejection {
    /// The HTTP status code the rejection is answered with.
    pub open spec fn spec_status(self) -> u16 {
        match self {
            Rejection::Forbidden => 403,
            Rejection::Unauthorized => 401,
            Rejection::TooManyRequests => 429,
            Rejection::Preflight => 204,
        }
    }

    /// The HTTP status code the rejection is answered with.
    pub fn status(&self) -> (res: u16)
        ensures
            res == self.spec_status(),
    {
        match self {
            Rejection::Forbidden => 403,
            Rejection::Unauthorized => 401,
            Rejection::TooManyRequests => 429,
            Rejection::Preflight => 204,
        }
    }

    /// The short explanation that goes with the status.
    pub fn reason(&self) -> (res: &'static str)
        ensures
            res@ == (match *self {
                Rejection::Forbidden => "forbidden"@,
                Rejection::Unauthorized => "unauthorized"@,
                Rejection::TooManyRequests => "too many"@,
                Rejection::Preflight => "preflight"@,
            }),
    {
        match self {
            Rejection::Forbidden => "forbidden",
            Rejection::Unauthorized => "unauthorized",
            Rejection::TooManyRequests => "too many",
            Rejection::Preflight => "preflight",
        }
    }

    /// The `decision` label under which the rejection is counted among the
    /// requests of stage `in`; a preflight answer is not counted.
    pub fn metric_decision(&self) -> (res: Option<&'static str>)
        ensures
            match *self {
                Rejection::Forbidden => res matches Some(d) && d@ == "block"@,
                Rejection::Unauthorized => res matches Some(d) && d@ == "unauth"@,
                Rejection::TooManyRequests => res matches Some(d) && d@ == "ratelimited"@,
                Rejection::Preflight => res is None,
            },
    {
        match self {
            Rejection::Forbidden => Some("block"),
            Rejection::Unauthorized => Some("unauth"),
            Rejection::TooManyRequests => Some("ratelimited"),
            Rejection::Preflight => None,
        }
    }
}

/// The status codes of the rejections: 403 for a refused address, 401 for a
/// missing credential, 429 for too many requests, 204 for a preflight answer.
pub proof fn lemma_rejection_statuses()
    ensures
        Rejection::Forbidden.spec_status() == 403,
        Rejection::Unauthorized.spec_status() == 401,
        Rejection::TooManyRequests.spec_status() == 429,
        Rejection::Preflight.spec_status() == 204,
{
}

/// What the middleware sees of one proxied exchange: the client, the request
/// line and headers, and the response status and headers.
pub struct Session {
    pub client_ip: IpAddress,
    pub method: String,
    pub tls: bool,
    pub req_headers: HeaderList,
    pub resp_status: u16,
    pub resp_headers: HeaderList,
}

/// A session as plain values.
#[verifier::ext_equal]
pub struct SessionView {
    pub client_ip: IpAddress,
    pub method: Seq<char>,
    pub tls: bool,
    pub req: HeaderListView,
    pub status: u16,
    pub resp: HeaderListView,
}

impl View for Session {
    type V = SessionView;

    open spec fn view(&self) -> SessionView {
        SessionView {
            client_ip: self.client_ip,
            method: self.method@,
            tls: self.tls,
            req: self.req_headers@,
            status: self.resp_status,
            resp: self.resp_headers@,
        }
    }
}

impl SessionView {
    /// The edit records of both header lists are faithful.
    pub open spec fn records_faithful(self) -> bool {
        self.req.edits_reproduce_fields() && self.resp.edits_reproduce_fields()
    }

    /// The session with request header `name` set to `value`.
    pub open spec fn put_req(self, name: Seq<char>, value: Seq<char>) -> SessionView {
        SessionView { req: self.req.put(name, value), ..self }
    }

    /// The session with request header `name` dropped.
    pub open spec fn drop_req(self, name: Seq<char>) -> SessionView {
        SessionView { req: self.req.drop(name), ..self }
    }

    /// The session with response header `name` set to `value`.
    pub open spec fn put_resp(self, name: Seq<char>, value: Seq<char>) -> SessionView {
        SessionView { resp: self.resp.put(name, value), ..self }
    }
}

} // verus!
