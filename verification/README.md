# zeron_harness

The driver of Prime Agent: it speaks Prime's JSONL RPC, over the standard
streams of a process or over the socket of Prime's daemon, and turns what it
hears into the events of the engine.

- `src/` holds every decision of the driver, verified with Verus. A session is a
  state machine (`session.rs`): something happens, the session gives the actions
  to take and how it goes on. `setup.rs` brings it to its first prompt.
  `session_laws.rs`, `wait_laws.rs`, `setup_laws.rs`, `children_laws.rs`,
  `client_laws.rs` and `daemon_laws.rs` state what holds of every session and its
  waits, every setup, every sub-agent and every conversation. The transports
  (`client.rs`, `daemon.rs`), the sub-agents (`children.rs`), the mapping of
  native events (`events.rs`), the removal of media from what is published
  (`media.rs`), the catalog (`catalog.rs`) and the following of rollout files
  (`rollout.rs`) are plain functions and state machines of the same kind.
- `app/` runs them: processes, sockets, files, timers.
- `tests/` runs the library on concrete values.

JSON is parsed and written by `serde_json`, pictures are encoded by `base64`, and
fresh names come from `uuid`. Each of these calls stands behind a small function
with a contract that is trusted; its doc comment says what is claimed of the call.
