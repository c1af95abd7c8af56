# thin-jsonrpc-client

A lightweight wrapper around something that can send bytes and something that can hand them back
which implements the JSON-RPC specification. The main goals of this are:

- To be backend independent; use whichever Websocket (or other) library you prefer.
- To be async runtime independent; use whatever you prefer.
- To support backpressure. You're handed back a "driver" which must be polled to drive receipt of
  messages; this can react to the messages (or errors) that come back, and rate limit by polling
  less frequently.
- To make it easy to access streams of server notifications (messages without ids attached).

`src/` is the library, verified with Verus. It holds every step that the client takes: how
messages are written and decoded, which stream gets which message, and what comes of polling. What
a step needs from outside (a lock, a future, a waker, what `serde` has written of a value or says of
a message) is handed to it. All calls into `serde_json` stand in `src/json.rs`, each with the contract that is relied on.

`app/` puts futures, locks and `serde` around these steps. `tests/` runs the library.
