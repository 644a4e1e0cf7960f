# decentis

The core of a mesh node: what a Decentis node decides and computes, and the bytes of its own frames
and messages, written in Verus and proved against its contracts. Sockets, files, timers and tasks
are the business of the daemon around it, and so are the settings of QUIC and TLS, the protobuf form
of the control and signaling messages, and the speed in a progress report.

## Layout

- `src/crypto`: the identity of a node, the Noise IK handshake, sessions with a replay window, and
  public keys as text.
- `src/file_relay`: manifests and chunk headers with their wire format, cutting a file into chunks,
  and putting a received file together.
- `src/transport`: frames, the handshake messages, the sending and the receiving end of a file
  transfer, and the packet bridge. `transfer.rs` proves that a file that is sent is received as it
  was.
- `src/traversal`: finding out our public address (UPnP, STUN), predicting ports, the messages of the
  signaling server, and meeting peers.
- `src/control.rs`, `src/config.rs`, `src/tun`: the control socket, the environment, and the virtual
  interface.
- `app`: the daemon.
- `tests`: the library on concrete values.

## What is taken for granted

Calls into other crates stand in small functions whose contracts are not proved. Each says in its
doc comment which function it calls and what it claims of it. They are in `crypto/noise.rs` (snow),
`crypto/key_text.rs` (base64), `file_relay/codec.rs` (postcard), `file_relay/digest.rs` (blake3),
`file_relay/bitmap.rs` (bitvec), `transport/buffer.rs` (bytes), `transport/endpoint.rs` (rcgen),
`traversal/stun.rs` (rand) and `control.rs` (uuid).

Public functions whose names start with `law_` state properties that span several functions.
