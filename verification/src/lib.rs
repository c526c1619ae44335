//! A policy core for an HTTP reverse-proxy gateway: address access lists,
//! API-key authentication, per-client rate limiting, CORS and header hygiene,
//! composed into an ordered middleware chain.

pub mod config;
pub mod errors;
pub mod net;
pub mod headers;
pub mod session;
pub mod shared_map;
pub mod middleware;
pub mod proxy;
