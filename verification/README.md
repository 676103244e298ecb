# raft

A Raft peer as a verified state machine, and what it takes to run it.

- `src/` is the library. `peer.rs` holds `Raft`, the state of one peer, and its handlers.
  `model.rs` says what each event does to the state. `rounds.rs` collects the answers to
  requests that go to all peers, `event_loop.rs` decides between the queue and the timer, and
  `node.rs` is what the service sees. `saved.rs` writes down what survives a crash. `laws/` holds
  what is proved of all this, up to the agreement of a whole cluster. One event is left out there:
  a leader that refuses its vote to a candidate of a higher term takes over that term and goes on
  to lead in it, although it was not elected in it. Two peers can then lead in one term.
- `app/` runs peers on threads, with channels, timers and remote calls. It does what the library
  asks for and tells it what came of it.
- `tests/` runs the library.

A peer writes its term, its vote and its log down after every event, before anything of it
becomes known. A peer that crashes starts again from that.
