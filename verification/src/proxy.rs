//! Decisions of the proxy around the middleware chain.

use vstd::prelude::*;

verus! {

/// Whether a request whose connection to an upstream failed is tried again,
/// after `tries` attempts: at most two attempts are made.
pub fn retry_after_fail(tries: u32) -> (res: bool)
    ensures
        res == (tries < 2),
{
    tries < 2
}

/// The upstream peer for a request, given what the load balancer selected:
/// the selected peer, or the error text `no upstreams` where none was available.
pub fn upstream_peer<P>(selected: Option<P>) -> (res: Result<P, &'static str>)
    ensures
        match selected {
            Some(p) => res == Ok::<P, &'static str>(p),
            None => res matches Err(m) && m@ == "no upstreams"@,
        },
{
    match selected {
        Some(p) => Ok(p),
        None => Err("no upstreams"),
    }
}

} // verus!
