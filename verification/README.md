# gateway

The policy core of a reverse-proxy gateway, verified with Verus.

- `src/net.rs` — IP addresses and networks as plain values; containment and
  CIDR parsing through the `cidr` crate; address text.
- `src/headers.rs` — header lists with a record of the edits made to them.
- `src/session.rs` — what the middleware sees of an exchange; rejections.
- `src/middleware/` — access lists, API-key/bearer authentication, per-client
  rate limiting (`governor` limiters kept in a `dashmap` map), CORS, header
  hygiene, and the chain that runs them in order.
- `src/config.rs`, `src/errors.rs`, `src/proxy.rs` — configuration types,
  gateway errors, retry and upstream decisions.
- `app/` — the pingora server, configuration file loading and reload,
  Prometheus metrics: it converts each exchange to a `Session`, runs the chain,
  and replays the recorded header edits.
