# rscube

The protocol logic of RSCube, a Minecraft Classic server, as a library whose
behaviour is stated in contracts and proved with Verus.

- `src/wire.rs`: big- and little-endian integers (through `byteorder`) and the
  64-byte text fields of the protocol.
- `src/text.rs`: lenient UTF-8 decoding and trimming of text fields.
- `src/compress.rs`: gzip and raw DEFLATE (for FastMap clients) through
  `flate2`.
- `src/client.rs`, `src/server.rs`: the state of a player and of the server,
  and the world file (load and save).
- `src/protocol/`: the packets clients send and how they are answered, and
  the packets the server sends, for the classic protocol and its extension
  handshake.
- `src/outgoing.rs`, `src/dispatch.rs`: packet framing, and the handling of
  one packet as a step from state to state with the packets to send (and,
  for the `/save` chat command, the world file to write).
- `app/main.rs`: the server program: sockets, threads, the world file on disk.
