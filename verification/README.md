# core_engine

The core of a CDP-driven browser automation service, written in Verus.

`src/` is the verified library:

- `parser.rs` (+ `parser/html.rs`) — turns raw DOM elements, or a page's
  HTML text, into a semantic tree (hidden and non-content elements dropped,
  interactive elements recognised, consecutive interaction ids, generated CSS
  selectors, a depth limit, consecutive static text merged).
- `inspector.rs` — follows network requests and DOM mutations to decide when
  a page is ready.
- `server.rs` — the API's request/response types and the decision each
  endpoint makes on the engine state.
- `cdp.rs` — the browser client's observable state, its launch options and
  the page commands sent through it.
- `error.rs` (+ `error/validation.rs`, `error/recovery.rs`) — application
  errors, their HTTP status, request validation and retry backoff.
- `performance.rs` — time-to-live cache, sliding-window rate limiter, metrics.
- `gateway.rs` — auto-start flag, status report and tray menu decisions of the
  desktop gateway.
- `text.rs`, `clock.rs` — string helpers stated over character sequences, and
  the monotonic clock.

`app/` is the HTTP server around the library (axum, tokio), the serializable
copies of its types, and the loops that sleep between the library's
decisions. `tests/` exercises the library on concrete values.
