# anthropic_messages

A client of the Messages endpoint whose logic is verified with Verus.

- `src/anthropic.rs`: how a prompt becomes a request body.
- `src/sse.rs`: the response stream, as a state machine over server-sent events.
- `src/prompt.rs`, `src/shell_output.rs`, `src/tools.rs`, `src/models.rs`: a model turn's payload,
  the rewriting of shell outputs, the tools on offer, and the conversation's data.
- `src/rate_limits.rs`: rate limits, as response headers report them.
- `src/client.rs`: which providers the client serves, and when a request is tried again.
- `src/anthropic_laws.rs`, `src/sse_laws.rs`: what holds of every request and of every response
  stream.
- `src/json.rs`, `src/text.rs`, `src/decimal.rs`: JSON values, strings and numerals.

JSON values are `serde_json`'s and headers are `http`'s. The functions that call these crates state
what they rely on, next to each call.

`app/` is ordinary Rust around the library: transport, the event loop, decoding through `serde`, and
percentages as floating-point numbers.
