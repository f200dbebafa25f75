# atomic_bomb_engine

The logic of a WebSocket and HTTP load-testing engine, written in Verus and
proved against its contracts.

- `src/` is the verified library: CSV data pools, the send/reply pairing of
  request-response WebSocket traffic (per-key FIFO waiting lists with a cap
  and timeouts), message templates prepared once and rendered per send,
  JSONPath assertions on HTTP responses and on WebSocket messages (with their
  per-connection first-match and no-match state), setup URL rendering and
  setup value extraction, the filling-in of request headers, cookies, JSON
  bodies and form fields and of handshake URLs and headers,
  per-endpoint counters and their snapshots, error classes, and the
  decisions of a connection's life and of an HTTP request's outcome.
  Calls into `serde_json`, `jsonpath_lib`, `handlebars`, `url`, `dashmap`
  and `rand` stand behind small trusted wrappers whose contracts say what
  the library relies on.
- `app/` runs the WebSocket and HTTP load tests with `tokio`,
  `tokio-tungstenite` and `reqwest` around the library: it opens the
  connections, sends the requests, moves the frames and bodies, keeps the
  clock and the latency histograms, and turns the library's integer figures
  into reports with rates and percentiles.
- `tests/` exercises the library on concrete values.
