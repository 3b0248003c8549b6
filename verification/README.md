# catcher

The verified core of a resilient network-communication toolkit: request
planning for an HTTP client (URLs, headers, timeouts, redirects, the
`Authorization` header, error classification), a circuit breaker, retry and
queue policies, server-sent event parsing and reconnection, DNS cache
decisions, system-proxy selection, certificate pinning, multipart bodies,
`Retry-After` parsing, a handle registry, and the records handed to host
languages. Every function in `src/` carries a contract checked by Verus;
the `law_*` proof functions state properties that span several calls.

Layout:

- `src/` — the library, verified with Verus.
- `tests/` — tests of the library on concrete values.
- `app/` — the runtime around it (not verified): the reqwest transport and
  its retry middleware, SSE clients, the C interface, JSON configuration,
  system proxy reading, adaptive timeouts and metrics snapshots (floating
  point), proxy probes for integration tests, and research simulations.
