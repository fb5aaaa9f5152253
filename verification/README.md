# openpad

The core of Openpad, a client for the OpenCode server, written in Verus: the
protocol data model, the reading of the server's event stream (its frames
and the JSON of each event), the application state and the reducer that applies
actions and server events to it, the line diff shown for file changes, the
side panels, the message list, and the text formatting used to present
sessions, messages and tool steps. Every function in `src/` carries a
contract; Verus proves all of them but a few small trusted wrappers, each
around one call of std, of the regex crate or of serde_json, whose contracts
are taken on trust. The laws of the library (what every operation keeps,
what one call undoes) are stated as public proof functions.

Layout:

- `src/` — the verified library, one module per concern (`reducer`, `diff`,
  `events`, `json`, `messages`, `steps`, `panels`, `session_tree`, `files`, `tabs`, `sse`, ...).
- `tests/` — tests of the library on concrete values.
- `app/` — a terminal client around the library: HTTP and the event stream
  (reqwest, tokio), JSON (serde_json), the saved run commands (directories).
