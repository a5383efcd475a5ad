# nagisa_core

The decision logic of the Nagisa QQ-bot framework runtime, verified with Verus.

- `src/` — the verified library: the event model and its extractors, command
  matching and argument scanning, typed slot sequences, guards, cooldown
  windows, enable switches, plugin linking, service ordering and the
  supervisor lifecycle, waiters and single-flight scopes, the rendezvous and
  recent-message stores, the name cache, the one-line event renderer, the log
  line format, SSE framing, base64 and the HTTP action envelope.
- `tests/` — tests of the library on concrete values.
- `app/` — the asynchronous runtime around it (supervisor, transport pump,
  reconnect and dispatch loops, `tracing` integration, HTTP fetches of names,
  the floating-point rate limiter, serialisable copies of snapshot types).
