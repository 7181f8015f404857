# RustNetLens core

A local debugging proxy's core, written in Verus: what it captures of HTTP
exchanges, CONNECT tunnels and WebSocket connections, how traffic rules
rewrite, delay or mock requests, how sessions are filtered, summarised and
stored, how captured requests are saved in collections, and how a captured
request is replayed.

Instants are nanoseconds since the Unix epoch, UTC; identifiers of sessions
are the 128-bit values of random UUIDs.

## Layout

- `src/` — the verified library.
  - `text.rs`: character-level helpers (case folding, trimming, searching).
  - `codec.rs`, `clock.rs`: encodings, digests, identifiers and time, taken
    from outside crates behind trusted wrappers.
  - `model.rs`: the data model of sessions, rules, collections and statistics, with its
    mathematical views.
  - `capture.rs`: header redaction and body previews.
  - `rules.rs`: rule matching, running order and header rewrites.
  - `wire.rs`: ports, CONNECT targets, WebSocket frames and handshakes,
    and what the `http` crate accepts as names, values and methods.
  - `proxy.rs`: the steps of each captured exchange, from state and event to
    the next state and what is sent.
  - `store.rs`: stored rows of sessions and collections, filtering and
    traffic statistics.
  - `replay.rs`, `security.rs`, `export.rs`: replay requests, the HTTPS
    interception state, export bundles and file names.
- `tests/`: tests of the library on concrete values.
- `app/`: the program around the library: sockets, the HTTP server and
  client, TLS, SQLite, files, and the serializable forms of the data.
