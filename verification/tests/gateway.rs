use gateway::config::{AclCfg, AuthCfg, CorsCfg, HeadersCfg, JwtCfg, MwCfg, RateCfg};
use gateway::errors::GatewayError;
use gateway::headers::{HeaderEdit, HeaderList};
use gateway::middleware::auth::starts_with;
use gateway::middleware::rate_limit::rate_verdict;
use gateway::middleware::{AclMw, AuthMw, Chain, CorsMw, HeadersMw, Middleware, Mw, RateLimitMw, Stage};
use gateway::net::{parse_networks, IpAddress, IpNet};
use gateway::proxy::{retry_after_fail, upstream_peer};
use gateway::session::{Rejection, Session};

fn strings(v: &[&str]) -> Vec<String> {
    v.iter().map(|s| s.to_string()).collect()
}

fn v4(a: u8, b: u8, c: u8, d: u8) -> IpAddress {
    IpAddress::V4(u32::from_be_bytes([a, b, c, d]))
}

fn session(ip: IpAddress, method: &str, headers: &[(&str, &str)]) -> Session {
    Session {
        client_ip: ip,
        method: method.to_string(),
        tls: false,
        req_headers: HeaderList::from_fields(
            headers.iter().map(|(n, v)| (n.to_string(), v.to_string())).collect(),
        ),
        resp_status: 200,
        resp_headers: HeaderList::new(),
    }
}

fn get(h: &HeaderList, name: &str) -> Option<String> {
    h.get(&name.to_string())
}

fn mw_cfg(allow: &[&str], deny: &[&str], keys: &[&str], jwt: bool, rps: u32, burst: u32, security: bool) -> MwCfg {
    MwCfg {
        acl: AclCfg { allow: strings(allow), deny: strings(deny) },
        auth: AuthCfg { api_keys: strings(keys), jwt: JwtCfg { enabled: jwt, pub_key_pem: String::new() } },
        rate_limit: RateCfg { req_per_sec: rps, burst },
        cors: CorsCfg {
            allow_origin: "*".to_string(),
            allow_headers: "content-type".to_string(),
            allow_methods: "GET, POST".to_string(),
        },
        headers: HeadersCfg { security },
    }
}

#[test]
fn parse_networks_keeps_valid_entries_in_order() {
    let nets = parse_networks(&strings(&["10.0.0.0/8", "bogus", "2001:db8::/32", "192.168.1.7", "10.0.0.0/33"]));
    assert_eq!(
        nets,
        vec![
            IpNet::V4 { addr: 0x0a00_0000, len: 8 },
            IpNet::V6 { addr: 0x2001_0db8_0000_0000_0000_0000_0000_0000, len: 32 },
            IpNet::V4 { addr: 0xc0a8_0107, len: 32 },
        ]
    );
}

#[test]
fn net_contains_by_prefix() {
    let net = IpNet::V4 { addr: 0x0a01_0203, len: 8 };
    assert!(net.contains(&v4(10, 200, 0, 1)));
    assert!(!net.contains(&v4(11, 0, 0, 1)));
    assert!(!net.contains(&IpAddress::V6(0x0a00_0001)));
    let everything = IpNet::V4 { addr: 0, len: 0 };
    assert!(everything.contains(&v4(255, 255, 255, 255)));
    let host = IpNet::V4 { addr: 0xc0a8_0107, len: 32 };
    assert!(host.contains(&v4(192, 168, 1, 7)));
    assert!(!host.contains(&v4(192, 168, 1, 8)));
    let v6 = IpNet::V6 { addr: 0x2001_0db8 << 96, len: 32 };
    assert!(v6.contains(&IpAddress::V6((0x2001_0db8 << 96) | 1)));
    assert!(!v6.contains(&IpAddress::V6(1)));
}

#[test]
fn address_text() {
    assert_eq!(v4(192, 168, 1, 10).to_text(), "192.168.1.10");
    assert_eq!(v4(0, 0, 0, 0).to_text(), "0.0.0.0");
    assert_eq!(v4(10, 0, 100, 255).to_text(), "10.0.100.255");
    assert_eq!(v4(255, 9, 99, 100).to_text(), "255.9.99.100");
    assert_eq!(IpAddress::V6(1).to_text(), "::1");
    assert_eq!(IpAddress::V6((0x2001_0db8 << 96) | 1).to_text(), "2001:db8::1");
}

#[test]
fn header_list_read_after_write() {
    let mut h = HeaderList::from_fields(vec![
        ("a".to_string(), "1".to_string()),
        ("b".to_string(), "2".to_string()),
        ("a".to_string(), "3".to_string()),
    ]);
    assert_eq!(get(&h, "a"), Some("1".to_string()));
    h.insert("a".to_string(), "9".to_string());
    assert_eq!(get(&h, "a"), Some("9".to_string()));
    assert_eq!(get(&h, "b"), Some("2".to_string()));
    assert_eq!(h.fields().iter().filter(|(n, _)| n == "a").count(), 1);
    h.remove("b".to_string());
    assert_eq!(get(&h, "b"), None);
    assert_eq!(get(&h, "a"), Some("9".to_string()));
    let edits = h.edits();
    assert_eq!(edits.len(), 2);
    assert!(matches!(&edits[0], HeaderEdit::Put(n, v) if n == "a" && v == "9"));
    assert!(matches!(&edits[1], HeaderEdit::Remove(n) if n == "b"));
}

#[test]
fn acl_deny_wins_and_empty_allow_admits() {
    let allow = parse_networks(&strings(&["10.0.0.0/8"]));
    let deny = parse_networks(&strings(&["10.1.0.0/16"]));
    let acl = AclMw::new(allow, deny.clone());
    assert_eq!(acl.check(&v4(10, 2, 3, 4)), Ok(()));
    assert_eq!(acl.check(&v4(10, 1, 3, 4)), Err(Rejection::Forbidden));
    assert_eq!(acl.check(&v4(8, 8, 8, 8)), Err(Rejection::Forbidden));
    let open = AclMw::new(Vec::new(), deny);
    assert_eq!(open.check(&v4(8, 8, 8, 8)), Ok(()));
    assert_eq!(open.check(&v4(10, 1, 0, 1)), Err(Rejection::Forbidden));
}

#[test]
fn acl_on_request_leaves_session() {
    let mut acl = AclMw::new(Vec::new(), parse_networks(&strings(&["127.0.0.1"])));
    let mut s = session(v4(127, 0, 0, 1), "GET", &[]);
    assert_eq!(acl.on_request(&mut s), Err(Rejection::Forbidden));
    assert_eq!(acl.on_response(&mut s), Ok(()));
    assert!(s.req_headers.edits().is_empty());
}

#[test]
fn auth_by_key_bearer_or_open() {
    let auth = AuthMw::new(strings(&["k1", "k2"]), false, None);
    let h = |v: &[(&str, &str)]| HeaderList::from_fields(v.iter().map(|(n, x)| (n.to_string(), x.to_string())).collect());
    assert_eq!(auth.check(&h(&[("x-api-key", "k2")])), Ok(()));
    assert_eq!(auth.check(&h(&[("x-api-key", "nope")])), Err(Rejection::Unauthorized));
    assert_eq!(auth.check(&h(&[("authorization", "Bearer abc")])), Err(Rejection::Unauthorized));
    let jwt = AuthMw::new(strings(&["k1"]), true, Some("pem".to_string()));
    assert_eq!(jwt.check(&h(&[("authorization", "Bearer abc")])), Ok(()));
    assert_eq!(jwt.check(&h(&[("authorization", "Basic abc")])), Err(Rejection::Unauthorized));
    assert_eq!(jwt.check(&h(&[("authorization", "Bearer")])), Err(Rejection::Unauthorized));
    let open = AuthMw::new(Vec::new(), false, None);
    assert_eq!(open.check(&h(&[])), Ok(()));
    let jwt_only = AuthMw::new(Vec::new(), true, None);
    assert_eq!(jwt_only.check(&h(&[])), Err(Rejection::Unauthorized));
}

#[test]
fn prefix_check() {
    assert!(starts_with("Bearer x", "Bearer "));
    assert!(starts_with("abc", ""));
    assert!(!starts_with("Bear", "Bearer "));
    assert!(!starts_with("bearer x", "Bearer "));
}

#[test]
fn rate_limit_per_client() {
    let mut rl = RateLimitMw::new(1, 2);
    let a = v4(1, 1, 1, 1);
    let b = v4(2, 2, 2, 2);
    assert_eq!(rl.count_request(&a), Ok(()));
    assert_eq!(rl.count_request(&a), Ok(()));
    assert_eq!(rl.count_request(&a), Err(Rejection::TooManyRequests));
    assert_eq!(rl.count_request(&b), Ok(()));
    let mut s = session(b, "GET", &[]);
    assert_eq!(rl.on_request(&mut s), Ok(()));
    assert_eq!(rl.on_request(&mut s), Err(Rejection::TooManyRequests));
    assert_eq!(rl.on_response(&mut s), Ok(()));
}

#[test]
fn rate_verdict_outcomes() {
    assert_eq!(rate_verdict(true), Ok(()));
    assert_eq!(rate_verdict(false), Err(Rejection::TooManyRequests));
}

#[test]
fn cors_preflight_and_response() {
    let mut cors = CorsMw::new("https://a.example".to_string(), "x-h".to_string(), "GET".to_string());
    let mut pre = session(v4(1, 2, 3, 4), "OPTIONS", &[]);
    assert_eq!(cors.on_request(&mut pre), Err(Rejection::Preflight));
    assert_eq!(pre.resp_status, 204);
    assert_eq!(get(&pre.resp_headers, "access-control-allow-origin"), Some("https://a.example".to_string()));
    assert_eq!(get(&pre.resp_headers, "access-control-allow-headers"), Some("x-h".to_string()));
    assert_eq!(get(&pre.resp_headers, "access-control-allow-methods"), Some("GET".to_string()));
    let mut s = session(v4(1, 2, 3, 4), "GET", &[]);
    assert_eq!(cors.on_request(&mut s), Ok(()));
    assert_eq!(s.resp_status, 200);
    assert!(s.resp_headers.fields().is_empty());
    assert_eq!(cors.on_response(&mut s), Ok(()));
    assert_eq!(get(&s.resp_headers, "access-control-allow-origin"), Some("https://a.example".to_string()));
}

fn is_v4_uuid(id: &str) -> bool {
    let c: Vec<char> = id.chars().collect();
    c.len() == 36
        && (0..36).all(|i| {
            if [8, 13, 18, 23].contains(&i) { c[i] == '-' } else { c[i].is_ascii_hexdigit() && !c[i].is_ascii_uppercase() }
        })
        && c[14] == '4'
        && "89ab".contains(c[19])
}

#[test]
fn headers_request_id_forwarding_security() {
    let mut hm = HeadersMw::new(true);
    let mut s = session(v4(192, 168, 1, 10), "GET", &[("connection", "keep-alive"), ("keep-alive", "5"), ("x-other", "1")]);
    assert_eq!(hm.on_request(&mut s), Ok(()));
    let id = get(&s.req_headers, "x-request-id").unwrap();
    assert!(is_v4_uuid(&id));
    assert_eq!(hm.on_upstream_request(&mut s), Ok(()));
    assert_eq!(get(&s.req_headers, "connection"), None);
    assert_eq!(get(&s.req_headers, "keep-alive"), None);
    assert_eq!(get(&s.req_headers, "x-other"), Some("1".to_string()));
    assert_eq!(get(&s.req_headers, "x-forwarded-for"), Some("192.168.1.10".to_string()));
    assert_eq!(get(&s.req_headers, "x-forwarded-proto"), Some("http".to_string()));
    assert_eq!(hm.on_response(&mut s), Ok(()));
    assert_eq!(get(&s.resp_headers, "x-content-type-options"), Some("nosniff".to_string()));
    assert_eq!(get(&s.resp_headers, "x-frame-options"), Some("DENY".to_string()));
    assert_eq!(get(&s.resp_headers, "referrer-policy"), Some("no-referrer".to_string()));

    let mut plain = HeadersMw::new(false);
    let mut t = session(IpAddress::V6(1), "GET", &[]);
    t.tls = true;
    assert_eq!(plain.on_upstream_request(&mut t), Ok(()));
    assert_eq!(get(&t.req_headers, "x-forwarded-for"), Some("::1".to_string()));
    assert_eq!(get(&t.req_headers, "x-forwarded-proto"), Some("https".to_string()));
    assert_eq!(plain.on_response(&mut t), Ok(()));
    assert!(t.resp_headers.fields().is_empty());
}

#[test]
fn request_ids_differ() {
    let mut hm = HeadersMw::new(false);
    let mut a = session(v4(1, 1, 1, 1), "GET", &[]);
    let mut b = session(v4(1, 1, 1, 1), "GET", &[]);
    hm.on_request(&mut a).unwrap();
    hm.on_request(&mut b).unwrap();
    assert_ne!(get(&a.req_headers, "x-request-id"), get(&b.req_headers, "x-request-id"));
}

#[test]
fn chain_from_config_runs_in_order() {
    let cfg = mw_cfg(&[], &["10.9.0.0/16", "not-a-net"], &["secret"], false, 100, 100, true);
    let mut chain = Chain::from_config(&cfg);
    let mut ok = session(v4(10, 1, 1, 1), "GET", &[("x-api-key", "secret")]);
    assert_eq!(chain.on_request(&mut ok), Ok(()));
    assert!(get(&ok.req_headers, "x-request-id").is_some());
    assert_eq!(chain.on_up_req(&mut ok), Ok(()));
    assert_eq!(get(&ok.req_headers, "x-forwarded-for"), Some("10.1.1.1".to_string()));
    assert_eq!(chain.on_response(&mut ok), Ok(()));
    assert_eq!(get(&ok.resp_headers, "access-control-allow-origin"), Some("*".to_string()));
    assert_eq!(get(&ok.resp_headers, "x-frame-options"), Some("DENY".to_string()));
}

#[test]
fn chain_stops_at_first_rejection() {
    let cfg = mw_cfg(&[], &["10.9.0.0/16"], &["secret"], false, 100, 100, false);
    let mut chain = Chain::from_config(&cfg);
    let mut denied = session(v4(10, 9, 1, 1), "GET", &[("x-api-key", "secret")]);
    assert_eq!(chain.on_request(&mut denied), Err(Rejection::Forbidden));
    assert_eq!(get(&denied.req_headers, "x-request-id"), None);
    let mut anon = session(v4(10, 1, 1, 1), "GET", &[]);
    assert_eq!(chain.on_request(&mut anon), Err(Rejection::Unauthorized));
    assert_eq!(get(&anon.req_headers, "x-request-id"), None);
    let mut pre = session(v4(10, 1, 1, 1), "OPTIONS", &[("x-api-key", "secret")]);
    assert_eq!(chain.on_request(&mut pre), Err(Rejection::Preflight));
    assert_eq!(pre.resp_status, 204);
    assert_eq!(get(&pre.req_headers, "x-request-id"), None);
}

#[test]
fn chain_rate_limits_after_auth() {
    let cfg = mw_cfg(&[], &[], &[], false, 1, 1, false);
    let mut chain = Chain::from_config(&cfg);
    let mut first = session(v4(3, 3, 3, 3), "GET", &[]);
    assert_eq!(chain.on_request(&mut first), Ok(()));
    let mut second = session(v4(3, 3, 3, 3), "GET", &[]);
    assert_eq!(chain.on_request(&mut second), Err(Rejection::TooManyRequests));
    let mut other = session(v4(4, 4, 4, 4), "GET", &[]);
    assert_eq!(chain.on_request(&mut other), Ok(()));
}

#[test]
fn chain_built_by_hand() {
    let mut chain = Chain::new(vec![Mw::Headers(HeadersMw::new(false)), Mw::Cors(CorsMw::new("o".to_string(), "h".to_string(), "m".to_string()))]);
    let mut s = session(v4(1, 1, 1, 1), "OPTIONS", &[]);
    assert_eq!(chain.run(Stage::Request, &mut s), Err(Rejection::Preflight));
    assert!(get(&s.req_headers, "x-request-id").is_some());
    let mut m = Mw::Cors(CorsMw::new("o".to_string(), "h".to_string(), "m".to_string()));
    let mut t = session(v4(1, 1, 1, 1), "GET", &[]);
    assert_eq!(m.on_response(&mut t), Ok(()));
    assert_eq!(get(&t.resp_headers, "access-control-allow-origin"), Some("o".to_string()));
}

#[test]
fn rejection_answers() {
    assert_eq!(Rejection::Forbidden.status(), 403);
    assert_eq!(Rejection::Unauthorized.status(), 401);
    assert_eq!(Rejection::TooManyRequests.status(), 429);
    assert_eq!(Rejection::Preflight.status(), 204);
    assert_eq!(Rejection::Forbidden.reason(), "forbidden");
    assert_eq!(Rejection::Unauthorized.reason(), "unauthorized");
    assert_eq!(Rejection::TooManyRequests.reason(), "too many");
    assert_eq!(Rejection::Preflight.reason(), "preflight");
    assert_eq!(Rejection::Forbidden.metric_decision(), Some("block"));
    assert_eq!(Rejection::Unauthorized.metric_decision(), Some("unauth"));
    assert_eq!(Rejection::TooManyRequests.metric_decision(), Some("ratelimited"));
    assert_eq!(Rejection::Preflight.metric_decision(), None);
}

#[test]
fn gateway_error_messages() {
    assert_eq!(GatewayError::Config("bad yaml".to_string()).message(), "Config error: bad yaml");
    assert_eq!(GatewayError::NoUpstream.message(), "Upstream selection failed");
}

#[test]
fn retry_and_peer_selection() {
    assert!(retry_after_fail(0));
    assert!(retry_after_fail(1));
    assert!(!retry_after_fail(2));
    assert!(!retry_after_fail(7));
    assert_eq!(upstream_peer(Some(5)).unwrap(), 5);
    assert_eq!(upstream_peer::<u8>(None), Err("no upstreams"));
}

fn replayed(origin: &[(&str, &str)], edits: &[HeaderEdit]) -> Vec<(String, String)> {
    let mut h = HeaderList::from_fields(origin.iter().map(|(n, v)| (n.to_string(), v.to_string())).collect());
    for e in edits {
        match e {
            HeaderEdit::Put(n, v) => h.insert(n.clone(), v.clone()),
            HeaderEdit::Remove(n) => h.remove(n.clone()),
        }
    }
    h.fields().clone()
}

#[test]
fn chain_edit_records_reproduce_headers() {
    let cfg = mw_cfg(&[], &[], &[], false, 100, 100, true);
    let mut chain = Chain::from_config(&cfg);
    let origin = [("connection", "close"), ("x-a", "1"), ("keep-alive", "3")];
    let mut s = session(v4(9, 9, 9, 9), "GET", &origin);
    chain.on_request(&mut s).unwrap();
    chain.on_up_req(&mut s).unwrap();
    chain.on_response(&mut s).unwrap();
    assert_eq!(&replayed(&origin, s.req_headers.edits()), s.req_headers.fields());
    assert_eq!(&replayed(&[], s.resp_headers.edits()), s.resp_headers.fields());
    assert_eq!(s.resp_headers.edits().len(), 4);
}

#[test]
fn first_request_of_each_client_passes() {
    let mut rl = RateLimitMw::new(1, 1);
    for i in 0..50u8 {
        assert_eq!(rl.count_request(&v4(10, 0, 0, i)), Ok(()));
    }
    assert_eq!(rl.count_request(&v4(10, 0, 0, 0)), Err(Rejection::TooManyRequests));
    let mut fast = RateLimitMw::new(u32::MAX, 1);
    assert_eq!(fast.count_request(&v4(1, 1, 1, 1)), Ok(()));
}
