use kimiha::channel_config::ChannelConfig;
use kimiha::error::OrchestratorError;
use kimiha::event_bus::EventBus;
use kimiha::orchestrator::{TradingEventType, TradingMessage};

fn config(capacity: usize, description: &str) -> ChannelConfig {
    ChannelConfig::new(capacity, description.to_string())
}

#[test]
fn channel_config_keeps_its_capacity() {
    assert_eq!(config(42, "x").capacity(), 42);
}

#[test]
fn subscribe_to_unknown_channel_names_the_event() {
    let bus: EventBus<TradingEventType, TradingMessage> =
        EventBus::new(vec![(TradingEventType::MetricsUpdated, config(4, "metrics"))]);
    match bus.subscribe(&TradingEventType::SignalGenerated) {
        Err(OrchestratorError::InvalidChannel(name)) => assert_eq!(name, "SIGNAL_GENERATED"),
        _ => panic!("expected an invalid channel error"),
    }
    match bus.clone_sender(&TradingEventType::SignalGenerated) {
        Err(OrchestratorError::InvalidChannel(name)) => assert_eq!(name, "SIGNAL_GENERATED"),
        _ => panic!("expected an invalid channel error"),
    }
    assert!(bus.subscribe(&TradingEventType::MetricsUpdated).is_ok());
}

#[test]
fn duplicate_events_share_one_channel() {
    let bus: EventBus<TradingEventType, TradingMessage> = EventBus::new(vec![
        (TradingEventType::MetricsUpdated, config(4, "first")),
        (TradingEventType::MetricsUpdated, config(8, "second")),
    ]);
    assert_eq!(bus.channel_count(), 1);
    assert_eq!(bus.channels().len(), 2);
}

#[test]
fn added_channel_can_be_subscribed() {
    let bus: EventBus<TradingEventType, TradingMessage> = EventBus::new(Vec::new());
    assert_eq!(bus.channel_count(), 0);
    assert!(bus.subscribe(&TradingEventType::SignalGenerated).is_err());
    let bus = bus.add_channel(TradingEventType::SignalGenerated, config(2, "signals"));
    assert_eq!(bus.channel_count(), 1);
    assert!(bus.subscribe(&TradingEventType::SignalGenerated).is_ok());
    let bus = bus.add_channel(TradingEventType::SignalGenerated, config(2, "again"));
    assert_eq!(bus.channel_count(), 1);
    assert_eq!(bus.channels().len(), 2);
}

#[test]
fn messages_reach_subscribers_of_the_channel() {
    let bus: EventBus<TradingEventType, TradingMessage> =
        EventBus::new(vec![(TradingEventType::MetricsUpdated, config(4, "metrics"))]);
    let mut receiver = bus.subscribe(&TradingEventType::MetricsUpdated).unwrap().into_receiver();
    let sender = bus.clone_sender(&TradingEventType::MetricsUpdated).unwrap();
    sender.send(TradingMessage::ExecuteArgs).unwrap();
    assert_eq!(receiver.try_recv().unwrap(), TradingMessage::ExecuteArgs);
}

#[test]
fn engine_bus_has_two_channels_after_components_are_added() {
    let mut engine: kimiha::orchestrator::TradingOrchestrator<u8, u16> =
        kimiha::orchestrator::TradingOrchestrator::new(|_s| 0u8);
    engine.add_connector(1);
    engine.add_strategy(2);
    engine.add_executor(3);
    assert_eq!(engine.event_bus().channel_count(), 2);
    assert_eq!(engine.scheduler().event_task_ids().len(), 2);
    assert_eq!(engine.scheduler().event_task_ids()[0], engine.strategy_ids()[0]);
    assert_eq!(engine.scheduler().event_task_ids()[1], engine.executor_ids()[0]);
    assert_eq!(engine.scheduler().background_task_ids()[1], engine.connector_ids()[0]);
}

#[test]
fn repeated_event_channel_has_its_last_capacity() {
    let bus: EventBus<TradingEventType, TradingMessage> = EventBus::new(vec![
        (TradingEventType::MetricsUpdated, config(1, "small")),
        (TradingEventType::MetricsUpdated, config(4, "large")),
    ]);
    let mut receiver = bus.subscribe(&TradingEventType::MetricsUpdated).unwrap().into_receiver();
    let sender = bus.clone_sender(&TradingEventType::MetricsUpdated).unwrap();
    for _ in 0..4 {
        sender.send(TradingMessage::Empty).unwrap();
    }
    for _ in 0..4 {
        assert_eq!(receiver.try_recv().unwrap(), TradingMessage::Empty);
    }
}

#[test]
fn added_channel_replaces_the_event_channel_and_keeps_the_others() {
    let bus: EventBus<TradingEventType, TradingMessage> = EventBus::new(vec![
        (TradingEventType::MetricsUpdated, config(4, "metrics")),
        (TradingEventType::SignalGenerated, config(4, "signals")),
    ]);
    let mut old_metrics = bus.subscribe(&TradingEventType::MetricsUpdated).unwrap().into_receiver();
    let mut signals = bus.subscribe(&TradingEventType::SignalGenerated).unwrap().into_receiver();
    let bus = bus.add_channel(TradingEventType::MetricsUpdated, config(4, "new metrics"));
    let mut new_metrics = bus.subscribe(&TradingEventType::MetricsUpdated).unwrap().into_receiver();
    bus.clone_sender(&TradingEventType::MetricsUpdated).unwrap().send(TradingMessage::ExecuteArgs).unwrap();
    bus.clone_sender(&TradingEventType::SignalGenerated).unwrap().send(TradingMessage::Empty).unwrap();
    assert_eq!(new_metrics.try_recv().unwrap(), TradingMessage::ExecuteArgs);
    assert!(old_metrics.try_recv().is_err());
    assert_eq!(signals.try_recv().unwrap(), TradingMessage::Empty);
}
