# cqrs

An event-driven framework for software that keeps events as the source of
truth and separates commands from queries (CQRS), written in Verus: every
store, lifecycle and registry is specified over a mathematical model (`Seq`,
`Map`) and proved to meet its contract.

## Layout

- `src/types.rs` — event numbers, versions, preconditions and read positions.
- `src/aggregate/` — aggregates as folds of their events, and the hydrated
  aggregate that tracks how many events it has seen.
- `src/entity.rs` — entities loaded from a snapshot and the events after it,
  executed against and persisted through event and snapshot sinks.
- `src/lifecycle/` — the lifecycle of aggregates: loading, replaying a read
  that may fail part-way, executing commands, appending their events,
  buffering them for handlers and taking snapshots as a strategy recommends;
  `Basic`, `Static` and the contexts they work in.
- `src/system.rs` — a system: a snapshot strategy bound to its context.
- `src/event_processing.rs` — a registry of event handlers, looked up by the
  keys of an event's type and of the route it is handled by.
- `src/memory.rs`, `src/okazis_memory/` — in-memory event and snapshot stores.
- `src/domain/`, `src/store.rs`, `src/okazis/` — views that rehydrate
  aggregates, executors and commanders that persist what commands produce.
- `src/trivial.rs`, `src/okazis/trivial.rs` — stores that hold nothing.

Public proof functions whose names begin with `law_` state properties that
relate several operations, such as what a read gives back after an append.

Every operation is synchronous, and every write takes `&mut self`.
