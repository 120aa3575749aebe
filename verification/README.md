# velox

The core of a desktop trading terminal, written in Verus: each function
carries a `requires`/`ensures` contract that Verus proves.

`src/` is the verified library:

- `ring_buffer` — bounded FIFO of market events (capacity rounded to a
  power of two), modelled as a sequence with a capacity.
- `backoff`, `link` — reconnection backoff with jitter and the decisions
  of a streaming connection (connect, back off, stop, what each frame
  means).
- `json`, `fields`, `feed`, `userdata` — JSON documents as plain values
  and the decoders of the market feed and of the account event stream,
  with the exact error reported for each missing field.
- `query`, `signing`, `rest`, `rest_types`, `orders` — signed REST
  requests: sorted query strings, HMAC-SHA256 signatures, order parameter
  mapping, error classification.
- `symbols` — symbol normalisation, subscriptions, fixed-width symbols,
  stream paths.
- `broker`, `keystore` — broker configuration, the order-id bookkeeping
  of a session, keyring answers.
- `aggregation`, `pipeline` — the per-(symbol, timeframe) candle table:
  candle boundaries, when a tick opens, extends or closes a candle and
  where the next candle starts; the pipeline's counters.
- `chart`, `gpu`, `indicators`, `market`, `errors`, `text` — zoom
  history, overlay list, line segments, GPU buffer growth, by-name
  caches, indicator readiness (MACD warm-up) and shared types.

`tests/` exercises the library on concrete values. `app/` is the
runtime around it: floating-point prices and indicators, asynchronous
WebSocket and HTTP connections, the OS keyring and wgpu rendering.
