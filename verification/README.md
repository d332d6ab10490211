# qorvex_core

Core library of an iOS/Android UI automation tool: the wire protocol spoken
with the on-device agents, the action executor's decisions, element search,
device listing and selection, agent build/launch lifecycles, the IPC request
handling and the screen watcher's back-off.

Layout:

- `src/` — the library, written in Verus. Every function carries a
  `requires`/`ensures` contract, and the laws of the library (protocol
  round-trips, back-off bounds, action-history trimming, ...) are public
  proof functions.
- `tests/` — ordinary Rust tests against the compiled library.
- `app/` — the asynchronous and I/O side (sockets, child processes, files,
  serde types, tokio tasks) that drives the library's decision functions.
