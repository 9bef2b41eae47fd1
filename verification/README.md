# clippy_share

Clipboard sharing between devices on one local network. Each device runs a
daemon that listens to its clipboard, publishes changes over a libp2p
gossip topic, and writes clipboard text received from other devices.

`src/` is the verified library (Verus):

- `text` — character-level string helpers (trim, split, prefix and piece
  search) stated over `Seq<char>`.
- `peer_set` — a set of peer identifiers with no repeats.
- `policy` — the peer lists read from the environment, and which messages a
  device applies.
- `daemon` — the daemon's routing decisions, including the suppression of
  the echo of remotely applied text.
- `net` — clipboard messages, network events, and the peer bookkeeping and
  reports of the network loop.
- `platform` — clipboard payload classification, adapter choice, GNOME
  session detection, and the adapter types.
- `cli`, `bridge`, `crypto` — the command line, the mobile bridge's status
  text, and the (pass-through) encryption stage.

`app/` is the program around it: the command line, the tokio event loop, the
libp2p swarm, the Wayland listener, and the Android JNI bridge.
