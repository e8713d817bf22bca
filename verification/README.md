# codexx

The decision logic of a chat client, verified with Verus.

- `src/update_action.rs` — which command updates the installed CLI, and its
  shell-quoted command line (through `shlex`).
- `src/chat_request.rs` — turning a responses-API conversation into the
  messages of a chat completions request: reasoning attached to the assistant
  message or call next to it, consecutive calls grouped, repeated assistant
  text dropped.
- `src/chat_stream.rs` — the state machine of a streamed chat completion:
  text and reasoning deltas, tool calls assembled from fragments, completion
  handed on once.
- `src/realtime.rs` — the realtime voice conversation of the chat view, as a
  state machine that asks the application for each device and UI action.
- `src/json.rs`, `src/models.rs`, `src/text.rs` — the JSON values, protocol
  items and text helpers the above share.

`app/` holds what Verus does not see: JSON encoding and decoding with
`serde_json`, HTTP headers, the async server-sent event loop, and the audio
devices and meter task of the realtime conversation.
