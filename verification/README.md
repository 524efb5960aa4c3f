# exchange

Verified adapter logic for the Binance USD-M futures and Bitget UTA venues:
parsing of REST and WebSocket payloads, order and instrument rules,
subscription bookkeeping, request shaping, and the evidence the venue gives
of deposits, withdrawals and withdraw destinations. The functions under
`src/` carry contracts that Verus proves, except the small trusted wrappers
described below, whose contracts are believed.

Layout:

- `src/` — the library, one module per venue concern. Text and JSON
  handling (`text`, `json`, `json_out`, `decimal`) underlie the venue
  modules. Calls into outside crates (serde_json, url, sha2, dashmap,
  rust_decimal, chrono, the system clock) stand behind small trusted
  wrappers (`#[verifier::external_body]`) whose contracts are written beside
  them and are not proved.
- `tests/` — ordinary Rust tests of the library.
- `app/` — the parts that need floating point: request numbers written
  from `f64`, sizing tolerances, ticker and funding records, and the fill
  coherence test of the Binance user stream, which compares the doubles a
  fill's numbers round to.

The network I/O (HTTP requests, WebSocket sessions, timers) is the
caller's. For the transfer checks, `app/` holds the request loops: the
library gives each request's path and query, reads each reply, and decides
what to ask next and when to stop.
