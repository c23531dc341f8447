# chat_room

The decision-making core of a chat room server, written in Verus: every
function under `src/` carries a `requires`/`ensures` contract that Verus proves.

- `src/` — the verified library: room and membership rules, message history
  and search paging, reactions, forwarding, notifications and their cursors,
  Web Push checks and retry planning, the frames of the WebSocket protocol and the handshake state machine,
  retrieval evidence for the assistant, readiness reporting and start-up
  checks. Laws that span several functions are public `proof fn`s named
  `law_*`.
- `src/interop.rs` — the only place that calls the identifier, time, hashing,
  URL, Base64 and Web Push crates; each call states what it relies on.
- `app/` — the unverified shell: command line, serde wire types, float-based
  ranking, TOON encoding and the Web Push transport.
- `tests/` — runtime tests against the compiled library.
