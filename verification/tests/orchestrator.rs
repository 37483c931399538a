use kimiha::error::OrchestratorError;
use kimiha::orchestrator::{TradingEventType, TradingMessage, TradingOrchestrator};
use kimiha::scheduler::{LifecycleStep, TaskRef};
use kimiha::types::EventType;

type Engine = TradingOrchestrator<&'static str, (&'static str, TradingEventType)>;

fn engine() -> Engine {
    TradingOrchestrator::new(|_sender| "InternalAggregator")
}

#[test]
fn test_trading_orchestrator() {
    let mut orchestrator = engine();
    orchestrator.add_connector("Connector 1");
    orchestrator.add_strategy(("Strategy 1", TradingEventType::MetricsUpdated));
    orchestrator.add_executor(("Executor 1", TradingEventType::SignalGenerated));

    assert_eq!(orchestrator.connector_ids().len(), 1);
    assert_eq!(orchestrator.strategy_ids().len(), 1);
    assert_eq!(orchestrator.executor_ids().len(), 1);
    assert_eq!(orchestrator.event_bus().channel_count(), 2);
}

#[test]
fn test_orchestrator_missing_components() {
    let mut orchestrator = engine();
    orchestrator.add_strategy(("Strategy 1", TradingEventType::MetricsUpdated));
    orchestrator.add_executor(("Executor 1", TradingEventType::SignalGenerated));
    let result = orchestrator.check_components();
    assert!(result.is_err());
    if let Err(OrchestratorError::MissingComponent(component)) = result {
        assert!(component.contains("connector"));
    } else {
        panic!("Expected MissingComponent error for connector");
    }

    let mut orchestrator = engine();
    orchestrator.add_connector("Connector 1");
    orchestrator.add_executor(("Executor 1", TradingEventType::SignalGenerated));
    let result = orchestrator.check_components();
    assert!(result.is_err());
    if let Err(OrchestratorError::MissingComponent(component)) = result {
        assert!(component.contains("strategy"));
    } else {
        panic!("Expected MissingComponent error for strategy");
    }

    let mut orchestrator = engine();
    orchestrator.add_connector("Connector 1");
    orchestrator.add_strategy(("Strategy 1", TradingEventType::MetricsUpdated));
    let result = orchestrator.check_components();
    assert!(result.is_err());
    if let Err(OrchestratorError::MissingComponent(component)) = result {
        assert!(component.contains("executor"));
    } else {
        panic!("Expected MissingComponent error for executor");
    }
}

#[test]
fn complete_engine_passes_the_component_check() {
    let mut orchestrator = engine();
    orchestrator.add_connector("Connector 1");
    orchestrator.add_strategy(("Strategy 1", TradingEventType::MetricsUpdated));
    orchestrator.add_executor(("Executor 1", TradingEventType::SignalGenerated));
    assert_eq!(orchestrator.check_components(), Ok(()));
}

#[test]
fn subscriptions_must_match_the_component_kind() {
    let metrics = TradingEventType::MetricsUpdated;
    let signals = TradingEventType::SignalGenerated;
    assert_eq!(Engine::check_subscriptions(&vec![metrics], &vec![signals]), Ok(()));
    assert_eq!(
        Engine::check_subscriptions(&vec![metrics, signals], &vec![metrics]),
        Err(OrchestratorError::InvalidTaskEventType(
            "All strategy tasks must subscribe to TradingEventType::MetricsUpdated"
        ))
    );
    assert_eq!(
        Engine::check_subscriptions(&vec![metrics], &vec![signals, metrics]),
        Err(OrchestratorError::InvalidTaskEventType(
            "All executor tasks must subscribe to TradingEventType::SignalGenerated"
        ))
    );
}

#[test]
fn aggregator_runs_first_in_the_background() {
    let mut orchestrator = engine();
    orchestrator.add_connector("Connector 1");
    let aggregator = orchestrator.aggregator_id();
    let scheduler = orchestrator.scheduler();
    assert_eq!(scheduler.background_task_ids().len(), 2);
    assert_eq!(scheduler.background_task_ids()[0], aggregator);
    assert_eq!(
        scheduler.task_registry().get_background_task(&aggregator),
        Some(&"InternalAggregator")
    );
    assert_eq!(scheduler.lifecycle_step(0, Ok(())), LifecycleStep::Run(TaskRef::Background(aggregator)));
}

#[test]
fn aggregator_gets_a_sender_of_the_metrics_channel() {
    let orchestrator: TradingOrchestrator<tokio::sync::broadcast::Sender<TradingMessage>, ()> =
        TradingOrchestrator::new(|sender| sender);
    let mut receiver = orchestrator.event_bus().subscribe(&TradingEventType::MetricsUpdated).unwrap().into_receiver();
    let id = orchestrator.aggregator_id();
    let sender = orchestrator.scheduler().task_registry().get_background_task(&id).unwrap();
    sender.send(TradingMessage::Empty).unwrap();
    assert_eq!(receiver.try_recv().unwrap(), TradingMessage::Empty);
}

#[test]
fn trading_events_have_their_labels() {
    assert_eq!(TradingEventType::MetricsUpdated.label(), "METRICS_UPDATED");
    assert_eq!(TradingEventType::SignalGenerated.label(), "SIGNAL_GENERATED");
    assert!(TradingEventType::MetricsUpdated.same_event(&TradingEventType::MetricsUpdated));
    assert!(!TradingEventType::MetricsUpdated.same_event(&TradingEventType::SignalGenerated));
}

#[test]
fn trading_channels_are_configured() {
    let bus = Engine::trading_event_bus();
    let configs = bus.channels();
    assert_eq!(configs.len(), 2);
    assert_eq!(configs[0].0, TradingEventType::MetricsUpdated);
    assert_eq!(configs[0].1.capacity(), 10);
    assert_eq!(configs[1].0, TradingEventType::SignalGenerated);
    assert_eq!(configs[1].1.capacity(), 10);
}

#[test]
fn start_checks_components_before_subscriptions() {
    let metrics = TradingEventType::MetricsUpdated;
    let signals = TradingEventType::SignalGenerated;
    let mut orchestrator = engine();
    orchestrator.add_strategy(("Strategy 1", signals));
    assert_eq!(
        orchestrator.check_start(&vec![signals], &vec![]),
        Err(OrchestratorError::MissingComponent("at least one connector is required"))
    );
    orchestrator.add_connector("Connector 1");
    orchestrator.add_executor(("Executor 1", metrics));
    assert_eq!(
        orchestrator.check_start(&vec![signals], &vec![metrics]),
        Err(OrchestratorError::InvalidTaskEventType(
            "All strategy tasks must subscribe to TradingEventType::MetricsUpdated"
        ))
    );
    assert_eq!(
        orchestrator.check_start(&vec![metrics], &vec![metrics]),
        Err(OrchestratorError::InvalidTaskEventType(
            "All executor tasks must subscribe to TradingEventType::SignalGenerated"
        ))
    );
    assert_eq!(orchestrator.check_start(&vec![metrics], &vec![signals]), Ok(()));
}
