# hypodj

A music daemon that speaks the MPD protocol, fades gently, and takes plans in a keyword
language or in natural language; a client library for it; and a command line client.

- `src/` is the library: parsers, the queue and plan logic, fades, the state machines of
  the connection, the player, the spine and the executor, and what clients make of the
  answers. Its functions have contracts, which Verus proves; `FeatureStore` leaves open what
  a store knows, and a few wrappers around `chrono` and the standard library are trusted,
  and say so.
- `app/` is the program around it: sockets, the audio output, D-Bus, timers and files. It
  also holds what needs floating point.
- `tests/` run the library on concrete values.

Times are whole nanoseconds, and levels, volumes and seconds with a fraction are whole
billionths. What one side writes and the other reads is related in `src/wire.rs` and
`src/round_trip.rs`.
