# adif

Protocol, wire-format and game-rule logic of the ADIF game server, written
in Verus: every function in `src/` carries a contract, and the laws the
server relies on (round trips of the wire formats, reassembly of fragmented
messages, the hate list, timers, spawning, loot, the session protocol) are
stated and proved as proof functions.

- `src/` — the verified library.
- `tests/` — tests of the library on concrete values.
- `app/` — the UDP bridge binary: sockets, the database, configuration
  loading and the clock, around the library; also the zone geometry, which
  computes on floating-point coordinates.
