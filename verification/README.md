# ironclaw

A verified library behind streaming chat completions and the agent loop around
them.

- `src/json.rs`, `src/wire.rs`: JSON values as plain data; reading and writing
  them goes through `serde_json`.
- `src/provider.rs`, `src/error.rs`: messages, tools, requests, responses, errors.
- `src/request.rs`: the body, the address and the headers of a request.
- `src/stream.rs`: the reply of a stream, put together event by event.
- `src/response.rs`: the error for an answer that is not a stream.
- `src/agentic_loop.rs`: the errors that come out of the agent engine and the
  hooks that go into it.
- `src/text.rs`: operations on text.
- `src/laws.rs`: what holds over several calls and every input.

`app/` holds what needs sockets, timers, channels, error traits or floating point.
