# merx

Merx pulls market data from cbag and serves it to clients over websockets.
Identical subscriptions are de-duplicated: when several clients ask for the
same data, a single subscription is made upstream.

The crate is a Verus library with a thin server around it.

- `src/` is the verified library: the error responses, the translation between
  exchange slugs and cbag market names, the subscription handlers (cbbo, market
  depth, cost calculator), the connection state that tracks subscriptions,
  clients, connection limits, users, symbols, charts and cached responses, the
  decisions of the request handlers and of the background tasks, and the
  addresses of the requests merx makes. `src/laws.rs` and the proof functions
  beside the code state what holds across operations.
- `app/` is the server: argument handling, the HTTP and websocket routes, the
  requests to cbag, the auth server and the chart and trades servers, and the
  JSON shapes read from them.
- `tests/` runs the library on concrete values.
