//! The gateway's configuration, as read from its YAML file.

use vstd::prelude::*;

verus! {

/// Listening addresses and TLS material.
#[derive(Clone, Debug)]
pub struct ServerCfg {
    pub http_listen: String,
    pub https_listen: String,
    pub cert: String,
    pub key: String,
    pub enable_h2: bool,
    pub metrics_addr: String,
}

/// How often upstreams are health-checked.
#[derive(Clone, Debug)]
pub struct HealthCfg {
    pub interval_secs: u64,
}

/// Client networks admitted and refused, as CIDR texts.
#[derive(Clone, Debug)]
pub struct AclCfg {
    pub allow: Vec<String>,
    pub deny: Vec<String>,
}

/// Bearer-token settings.
#[derive(Clone, Debug)]
pub struct JwtCfg {
    pub enabled: bool,
    pub pub_key_pem: String,
}

/// Accepted API keys and bearer-token settings.
#[derive(Clone, Debug)]
pub struct AuthCfg {
    pub api_keys: Vec<String>,
    pub jwt: JwtCfg,
}

/// Requests per second and burst size allowed to each client.
#[derive(Clone, Debug)]
pub struct RateCfg {
    pub req_per_sec: u32,
    pub burst: u32,
}

/// The CORS answer headers.
#[derive(Clone, Debug)]
pub struct CorsCfg {
    pub allow_origin: String,
    pub allow_headers: String,
    pub allow_methods: String,
}

/// Whether responses get security headers.
#[derive(Clone, Debug)]
pub struct HeadersCfg {
    pub security: bool,
}

/// The settings of each middleware.
#[derive(Clone, Debug)]
pub struct MwCfg {
    pub acl: AclCfg,
    pub auth: AuthCfg,
    pub rate_limit: RateCfg,
    pub cors: CorsCfg,
    pub headers: HeadersCfg,
}

/// The whole gateway configuration.
#[derive(Clone, Debug)]
pub struct GatewayCfg {
    pub server: ServerCfg,
    pub upstreams: Vec<String>,
    pub health_check: HealthCfg,
    pub middleware: MwCfg,
}

} // verus!
