# ryu-drafts

A durable outbox for unsent messages: the draft store, the conditions that decide when a
draft becomes sendable, and the claim that keeps two dispatchers from sending the same draft
twice.

- `src/` is the verified library. It holds the outbox as a value, the routes as functions on
  it, and the dispatcher as a state machine. Instants are passed in, or read from the clock by
  the functions without `_at` in their names. `src/laws/` states what holds of it as a whole.
- `app/` is the sidecar process: HTTP, the SQLite file, the calls to Core and the loop that
  makes them.
- `tests/` run the library on concrete values.

A percentage is held as the bits of its 64-bit IEEE number, so that comparing and printing it
are ordinary integer work; reading one from text is handed in by the caller.
