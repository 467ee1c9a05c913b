# grouse-roam-core

The client side of a roam connection, verified with Verus: a device identity, a connection
attempt, and a blocking byte stream over it.

| Module | What it holds |
|---|---|
| `src/identity.rs` | secret keys as base64 text, and the public key that a host sees |
| `src/card.rs` | the fingerprint of a connection card |
| `src/connect.rs` | the steps of a connection attempt |
| `src/stream.rs`, `src/stream_laws.rs` | the stream's state, its operations, and what holds over many of them |
| `src/writing.rs` | the steps of a write |
| `src/capi.rs` | the same surface for callers that speak C |
| `src/base64_text.rs`, `src/text.rs`, `src/error.rs` | base64, white space and UTF-8, error messages |
| `app/` | the network, the threads that wait, and the Kotlin and C bindings |

The library performs no I/O and never waits. A connection attempt and a write are sequences of
steps, whose outcomes the caller hands back; a read that has to wait answers `None`, and the
caller tries again once its reader has queued something.

Reads hand the peer's bytes out in order and lose none. No bytes mean the end of the stream, and
`shutdown` leaves reads as they are.

`app/` needs the `goose-roaming` crate of the goose repository, which is not on crates.io.
