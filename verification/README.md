# codetrackr

A language server that reports editor activity ("heartbeats") to a CodeTrackr
server, and the Zed extension that installs and starts it.

- `src/` is the verified library:
  - `framing.rs`: reading and writing `Content-Length` framed LSP messages; the
    proof that reading a framed body gives it back (`lemma_read_framed`).
  - `client.rs`: heartbeat contents, throttling, endpoint URL and reply handling.
  - `uri.rs`: file path, project and language of a document URI.
  - `protocol.rs`: which JSON-RPC methods are answered, and how.
  - `extension.rs`: release asset selection, shell-environment settings, the
    server command and the cached binary path.
  - `text.rs`, `number.rs`: character and decimal helpers with their specs.
- `app/` holds the I/O: the stdin/stdout loop, HTTP requests, JSON (de)serialisation
  and the Zed extension entry points.
- `tests/` exercises the library on concrete values.
