# mmo_replication

The replication layer of a small MMO: a publish/subscribe broker that routes
messages between game clients and game servers by 16-byte topics, the wire
formats of its messages, the world grid of chunks, and the bookkeeping of the
servers around it. The library is written in Verus: every function carries a
contract, and Verus proves the code against it.

## Layout

- `src/bytes_io.rs`: the byte buffers of the `bytes` crate, as trusted
  wrappers whose contracts say what each call does to the bytes.
- `src/broker_protocol/`: topics (head byte, builder), topic layers and topic
  patterns, with their encodings and round-trip proofs.
- `src/shared_replication/`: broker messages and their encoding, game
  messages, and a node's side of the broker connection.
- `src/broker/`: the broker's tables and its event handlers (single-threaded
  and worker-pool), with proofs about subscriptions, disconnection and what
  clients may do.
- `src/legacy_broker/`: the earlier broker and its per-event tick.
- `src/core_types/`, `src/game_message/`: chunks, chunk areas and their
  borders, and the game messages built on them.
- `src/game_server.rs` and `src/game_server/`, `src/game_client.rs`, `src/spatial_auth.rs`,
  `src/orchestrator.rs`, `src/not_games.rs`: the decisions of the programs
  around the broker.
- `app/`: the programs themselves (network loops, environment, JSON, redis);
  they hand each event to the library and carry out what it returns.
- `tests/`: tests on concrete values.
