# leptos-sync-core, verified

The core of a local-first synchronization library: conflict resolution,
key-value storage with an IndexedDB-shaped API, secondary indices, CRDT
delta stores, schema migrations, the WebSocket message protocol and its
validation, transports, the synchronization engines and the relay server's
rules. Every function in `src/` carries a contract. Verus proves each one,
except for the few small wrappers marked `#[verifier::external_body]` that
call `uuid`, `chrono` and `serde_json` (in `ids.rs`, `json.rs` and
`transport/compatibility.rs`): their contracts are assumed, and each one's
doc comment says what it claims of the outside call.

Layout:

- `src/` — the verified library.
  - `keyed.rs` — an insertion-ordered map, the collection most types build on.
  - `storage.rs`, `crdt_store.rs`, `index.rs`, `migrations.rs` — storage.
  - `conflict.rs` — the `Mergeable` trait and conflict resolution.
  - `protocol.rs`, `validation.rs` — messages, their envelope, the schema.
  - `transport/` — in-memory, WebSocket, leptos-ws-pro, compatibility,
    multi and hybrid transports, the WebSocket client and the engine
    driven over it.
  - `sync/` — the sync engine, the legacy manager, real-time
    collaboration and end-to-end collection sync.
  - `server.rs`, `relay.rs` — who a server admits and to whom it relays.
  - `ids.rs`, `json.rs`, `text.rs` — identities, the clock, the JSON reads
    and encodings asked of `serde_json`, and text helpers.
- `app/` — what stays outside the proofs: the JSON wire format (serde),
  validation of JSON values, typed storage over the byte store, and the
  timers and background tasks that drive the managers.
- `tests/` — tests of the library through its public API.

Where a manager has to talk to the network it decides and the caller acts:
functions hand back the message to send (or the recipients of a relayed
message, or the waits of a connection attempt), and the caller encodes,
sends and sleeps.
