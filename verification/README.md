# tokio_kcp

KCP, a reliable transport over datagrams, verified with Verus.

- `src/` is the library. It decides what each datagram, each tick of a timer and each call of a
  user makes of a session, and it touches no socket. The protocol machine itself is the `kcp`
  crate's; `src/engine.rs` says what is relied on of it.
  - `config`: session settings
  - `output`: the queue to which a machine writes its datagrams
  - `skcp`: a session's socket, the machine with what a session keeps about it
  - `kcp_io`: buffered reading and writing on a session
  - `session`: how a session lives and ends, and the table of those that live
  - `stream`: a stream on a session, for a caller that polls it
  - `listener`: which session a datagram belongs to
  - `utils`, `error`: clocks and errors
- `app/` puts sockets, timers and tasks around it, with Tokio.
- `tests/` runs the library, with both ends of a conversation in one process.

Times are given to the library by its caller, in nanoseconds on a clock that does not run back.
Datagrams that are to be sent wait in a `KcpOutputHandle` until the owner of the socket sends them.

The `kcp` crate means its sums of sequence numbers, fragment numbers and clock readings to wrap, and
what is proved here is proved of a build in which they do. `extras/cargo/config.toml` holds that
setting for every profile: `cargo test --config extras/cargo/config.toml`.
