# kimiha

An event-driven orchestration framework for trading systems, written in
Verus: the library in `src/` is verified, and `app/` holds the asynchronous
runtime around it.

## Layout

- `src/channel_config.rs`, `src/event_bus.rs`: channel configurations and
  the event bus, one tokio broadcast channel per configured event.
- `src/task_id.rs`, `src/task_registry.rs`: task identifiers and the registry
  of background and event tasks, kept in hash maps by identifier number.
- `src/scheduler.rs`: the scheduler, the order in which it starts and shuts
  down its tasks, and the step function that drives a start or a shutdown.
- `src/orchestrator.rs`: the trading engine (connectors, aggregator,
  strategies, executors) and its start-up checks.
- `src/aggregator/`: the market data models, the order book manager, the
  price normalizer, the opportunity detector, and the aggregator's state
  with one step of its execution.
- `src/table.rs`: the tables, keyed by exchange and symbol names, behind
  the components.
- `app/`: the async task traits, the tokio-driven start and shutdown, the
  aggregator task with its floating-point rules, and the serializable forms
  of the snapshot.

The market models are generic over the price type; the runtime uses `f64`.
