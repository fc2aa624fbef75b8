# evm_debugger

A debugger for Ethereum transactions: it replays a mined transaction on the
state of the block before it, records a snapshot at every EVM instruction,
and lets a client step through the snapshots (step into, step over,
continue, abort) over an HTTP API.

Layout:

- `src/` — the verified library (Verus):
  - `session.rs` — a debug session: navigation over the recorded snapshots,
    with the laws of step into / step over / continue / abort;
  - `inspector.rs` — what is recorded at each step (stack, memory dump,
    storage writes, call frames, logs);
  - `rpc_url.rs` — which JSON-RPC endpoints are accepted;
  - `tx_hash.rs` — canonical transaction hashes and their cache files;
  - `settings.rs` — the cross-origin allow-list setting;
  - `trace_cache.rs`, `executor.rs`, `errors.rs`, `deps.rs`, `types.rs`,
    `text.rs` — cache paths, the replay's final message, error text, the
    service traits, the data types and text helpers.
- `app/` — the HTTP server, the replay thread, RPC access and file I/O.
- `tests/` — tests of the library.
