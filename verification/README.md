# libmarathon

The replicated-state core of Marathon, a collaborative real-time editor,
written in Verus: every function in `src/` carries a contract that Verus
proves.

## Layout

- `src/networking/`: the conflict-free replicated data types (vector clocks,
  observed-remove sets, replicated growable arrays), tombstones, entity
  locks, sessions and their codes, the protocol messages, and the decisions
  taken on received messages (join requests, full states, entity deltas,
  last-write-wins on components, lock messages).
- `src/engine/`: the networking engine's command loop, its lock bookkeeping,
  peer records for DHT discovery, and start-up progress.
- `src/persistence/`: the write buffer that batches and coalesces writes,
  dirty-entity tracking, configuration, checkpoints and migrations.
- `src/platform/`: input events and the controller that turns them into
  editor actions.
- `src/export_messages.rs`, `src/plist_text.rs`: recovering message text from
  archived attributed strings.
- `src/ids.rs`, `src/time.rs`, `src/text.rs`, `src/utils.rs`, `src/sync.rs`,
  `src/render.rs`: identifiers, time, string helpers, last-write-wins values
  and renderer settings.
- `tests/`: tests of the library, run against the compiled crate.
- `app/`: the code around the library that Verus does not check: SQLite
  storage, serialized forms, floating-point geometry and input amounts, the
  shared gossip queue, battery and platform checks.

Laws that span several functions (convergence of the replicated types,
deletion winning over concurrent writes, lock exclusivity, code round trips)
are public proof functions next to the functions they speak of.
