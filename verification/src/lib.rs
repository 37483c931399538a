//! Event-driven orchestration for trading systems: channel configuration,
//! an event bus of broadcast channels, a task registry and scheduler, a
//! trading orchestrator, and the market-data aggregation components.

pub mod aggregator;
pub mod channel_config;
pub mod error;
pub mod event_bus;
pub mod orchestrator;
pub mod scheduler;
pub mod table;
pub mod task_id;
pub mod task_registry;
pub mod types;
