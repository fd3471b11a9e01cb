# nullspace

The game logic of a Subspace client, written in Verus: every function in
`src/` carries a contract and is proved against it.

- `src/` — the library. Map tiles, doors and bricks (`map`), players and
  turret links (`player`), ships, prizes and greens (`ship`, `prize`), the
  ship's controls (`ship_controller`: timers, turning, thrust limits,
  firing and damage) and its weapons (`weapon`),
  flags and powerballs, the chat line and history (`chat`), key bindings
  (`input`) and the key binding screen (`scenes`), level-object files (`lvz`), the client's answers to server
  messages (`client`), clock synchronization (`net::connection`), the byte
  layout of core protocol messages (`net::packet`), and the map relay of the
  web proxy (`proxy`). Calls into `miniz_oxide` and `smol_str` stand behind
  small trusted wrappers whose contracts name what the call returns.
- `tests/` — tests of the library on concrete values.
- `app/` — the program around the library: command-line arguments,
  logging, the UDP socket and the zone files on disk.
