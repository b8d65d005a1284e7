# claude_agent_sdk_rs (message core)

The part of an SDK client for an agent CLI that decides what happens to each
document the CLI sends, verified with Verus.

- `src/json.rs` — a plain-value model of a JSON document, with member lookup
  and string access.
- `src/errors.rs` — the errors of the message pipeline.
- `src/message_parser.rs` — the check of a document's `"type"` against the
  known message types, and the answer of the parser for every document.
- `src/client.rs` — the client and the state machine of one query run:
  connect, collect messages (skipping unknown types), close.
- `app/` — the asynchronous edge: the transport, `serde_json` documents and
  decoding into typed messages with `serde`.
