# hematite

A Minecraft server core whose protocol and decision logic is written in Verus
and proved against its contracts.

- `src/protocol` — the wire format: variable-length integers, fixed-width
  numbers, strings with UTF-16 limits, UUIDs, block positions, prefixed
  arrays, and the packets of the handshake, status and login states, with
  the routing of packet ids per connection state. Every type with both
  directions proves that reading back what was written gives the value.
- `src/packet_list.rs`, `src/packet_registry.rs` — the declaration of which
  packets each state has, its grammar, and how packets are resolved against
  the game's packet report.
- `src/plugins/networking` — framing, the incremental length decoder and the
  per-connection state machine (handshake, offline login).
- `src/common` — resource locations, positions and named binary tags.
- `src/ecs`, `src/utils` — the tick loop's decisions and timers.
- `app/` — the executable: tokio networking, the bevy world, float-based
  conversions and reading the packet report from JSON.
