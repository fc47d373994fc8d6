# codex_channels

Verified logic for two features of a chat client:

- **Channels.** MCP servers announce messages from outside by notifications. The library reads a
  notification, decides whether its message is delivered (opt-in, duplicates, bursts, rate), and
  writes an accepted message for the model and for the reader.
- **Local loops.** The `/loop` command and the `loop_control` tool repeat a prompt, at once, on a
  timer, or once. The library holds the state of the loop and decides what happens next.

Beside these it holds what is decided while the client of an MCP server starts and lists its tools.

## Layout

| Path | What it holds |
| --- | --- |
| `src/text.rs`, `src/numerals.rs` | texts, words, paths and numbers |
| `src/json.rs`, `src/json_text.rs` | JSON as plain data, and its exchange with `serde_json` |
| `src/channel_event.rs` | how a notification is read |
| `src/channel_delivery.rs`, `src/channel_relay.rs` | which messages are delivered |
| `src/channel_format.rs`, `src/fragments.rs` | how a message is written, and its byte budget |
| `src/loop_protocol.rs` | requests to the loop, their limits and their tool |
| `src/chat_widget.rs` | the state machine of the chat window |
| `src/mcp_startup.rs`, `src/mcp_tools.rs` | servers and their tools |
| `src/channel_laws.rs`, `src/delivery_laws.rs`, `src/loop_laws.rs` | what holds across operations |
| `app/` | transports, timers, the clock, the environment and serialized forms |

The chat window never acts by itself: each operation appends effects to its outbox, and the
surroundings carry them out in order.

Three notification methods announce channel messages: `notifications/codex/channel`,
`notifications/<peer>/channel` and `notifications/channel`. `<peer>` is the name of the other client
whose channel servers are served too. It has no default: each relay is made with it, and so are the
settings of each server.
