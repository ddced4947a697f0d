# factorio_rcon

An RCON client for Factorio, split in two:

- `src/` is the verified library (Verus): the little-endian packet codec
  (`codec`), decimal rendering for messages (`text`), the error type
  (`error`), packets, their wire format and the validation of incoming frame
  headers (`protocol`), and the client's decisions around each request —
  request ids, the meaning of responses, the reporting of I/O failures
  (`session`). Round-trip laws of the wire format are proved in `codec` and
  `protocol`.
- `app/` is the asynchronous client on top of it (tokio): it opens the TCP
  connection, applies the timeouts, reads and writes frames, and hands each
  outcome to the library. It also holds the error type with its `Display`
  and `std::error::Error` impls.
