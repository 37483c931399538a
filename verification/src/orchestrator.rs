use vstd::prelude::*;

use tokio::sync::broadcast::Sender;

use crate::channel_config::ChannelConfig;
use crate::error::OrchestratorError;
use crate::event_bus::EventBus;
use crate::scheduler::Scheduler;
use crate::task_id::TaskId;
use crate::types::EventType;

verus! {

/// The events of a trading system.
#[derive(Debug, Clone, Copy, PartialEq, Eq, Hash, Structural)]
pub enum TradingEventType {
    MetricsUpdated,
    SignalGenerated,
}

/// The name of a trading event.
pub open spec fn trading_label(event: TradingEventType) -> Seq<char> {
    match event {
        TradingEventType::MetricsUpdated => "METRICS_UPDATED"@,
        TradingEventType::SignalGenerated => "SIGNAL_GENERATED"@,
    }
}

impl EventType for TradingEventType {
    fn label(&self) -> (label: String)
        ensures
            label@ == trading_label(*self),
    {
        match self {
            TradingEventType::MetricsUpdated => "METRICS_UPDATED".to_owned(),
            TradingEventType::SignalGenerated => "SIGNAL_GENERATED".to_owned(),
        }
    }

    fn same_event(&self, other: &Self) -> (same: bool) {
        *self == *other
    }
}

/// The messages carried by the trading channels.
#[derive(Debug, Clone, Copy, PartialEq, Eq, Structural)]
pub enum TradingMessage {
    ExecuteArgs,
    Empty,
}

pub const MISSING_CONNECTOR: &'static str = "at least one connector is required";

pub const MISSING_STRATEGY: &'static str = "at least one strategy is required";

pub const MISSING_EXECUTOR: &'static str = "at least one executor is required";

pub const STRATEGY_EVENT_REQUIRED: &'static str =
    "All strategy tasks must subscribe to TradingEventType::MetricsUpdated";

pub const EXECUTOR_EVENT_REQUIRED: &'static str =
    "All executor tasks must subscribe to TradingEventType::SignalGenerated";

/// The capacity of each trading channel.
pub const TRADING_CHANNEL_CAPACITY: usize = 10;

/// The trading channels, in order: metrics updates, then generated signals.
pub open spec fn is_trading_configuration(configs: Seq<(TradingEventType, ChannelConfig)>) -> bool {
    &&& configs.len() == 2
    &&& configs[0].0 == TradingEventType::MetricsUpdated
    &&& configs[0].1.spec_capacity() == TRADING_CHANNEL_CAPACITY
    &&& configs[0].1.spec_description() == "Metrics Updated Channel"@
    &&& configs[1].0 == TradingEventType::SignalGenerated
    &&& configs[1].1.spec_capacity() == TRADING_CHANNEL_CAPACITY
    &&& configs[1].1.spec_description() == "Signal Generated Channel"@
}

/// Whether every event of `events` is `event`.
pub open spec fn all_subscribe(events: Seq<TradingEventType>, event: TradingEventType) -> bool {
    forall|i: int| 0 <= i < events.len() ==> #[trigger] events[i] == event
}

/// Why an engine with these numbers of connectors, strategies and
/// executors, whose strategies and executors subscribe to these events,
/// refuses to start, if it does: the first component kind missing, in the
/// order connectors, strategies, executors; otherwise a strategy not
/// subscribed to metrics updates; otherwise an executor not subscribed to
/// generated signals.
pub open spec fn start_refusal(
    connectors: nat,
    strategies: nat,
    executors: nat,
    strategy_events: Seq<TradingEventType>,
    executor_events: Seq<TradingEventType>,
) -> Option<OrchestratorError> {
    if connectors == 0 {
        Some(OrchestratorError::MissingComponent(MISSING_CONNECTOR))
    } else if strategies == 0 {
        Some(OrchestratorError::MissingComponent(MISSING_STRATEGY))
    } else if executors == 0 {
        Some(OrchestratorError::MissingComponent(MISSING_EXECUTOR))
    } else if !all_subscribe(strategy_events, TradingEventType::MetricsUpdated) {
        Some(OrchestratorError::InvalidTaskEventType(STRATEGY_EVENT_REQUIRED))
    } else if !all_subscribe(executor_events, TradingEventType::SignalGenerated) {
        Some(OrchestratorError::InvalidTaskEventType(EXECUTOR_EVENT_REQUIRED))
    } else {
        None
    }
}

/// An engine starts its tasks exactly when it has a connector, a strategy
/// and an executor, its strategies subscribe to metrics updates and its
/// executors to generated signals; a missing component is reported only
/// when one is missing, and a wrong subscription only when all are present.
pub proof fn lemma_start_refusal(
    connectors: nat,
    strategies: nat,
    executors: nat,
    strategy_events: Seq<TradingEventType>,
    executor_events: Seq<TradingEventType>,
)
    ensures
        start_refusal(connectors, strategies, executors, strategy_events, executor_events) is None <==> {
            &&& connectors > 0 && strategies > 0 && executors > 0
            &&& all_subscribe(strategy_events, TradingEventType::MetricsUpdated)
            &&& all_subscribe(executor_events, TradingEventType::SignalGenerated)
        },
        start_refusal(connectors, strategies, executors, strategy_events, executor_events) matches Some(
            OrchestratorError::MissingComponent(_),
        ) <==> connectors == 0 || strategies == 0 || executors == 0,
{
}

/// A trading engine: connectors and an aggregator run in the background,
/// strategies react to metrics updates and executors to generated signals.
/// `B` is the handle of a background task, `V` that of an event task.
#[verifier::reject_recursive_types(B)]
#[verifier::reject_recursive_types(V)]
pub struct TradingOrchestrator<B, V> {
    connector_ids: Vec<TaskId>,
    aggregator_id: TaskId,
    strategy_ids: Vec<TaskId>,
    executor_ids: Vec<TaskId>,
    scheduler: Scheduler<TradingEventType, TradingMessage, B, V>,
}

impl<B, V> TradingOrchestrator<B, V> {
    /// Every component is registered with the scheduler under its kind.
    pub closed spec fn wf(&self) -> bool {
        &&& self.scheduler.wf()
        &&& self.scheduler.spec_registry().background().contains_key(self.aggregator_id)
        &&& forall|i: int|
            0 <= i < self.connector_ids@.len() ==> self.scheduler.spec_registry().background().contains_key(
                #[trigger] self.connector_ids@[i],
            )
        &&& forall|i: int|
            0 <= i < self.strategy_ids@.len() ==> self.scheduler.spec_registry().events().contains_key(
                #[trigger] self.strategy_ids@[i],
            )
        &&& forall|i: int|
            0 <= i < self.executor_ids@.len() ==> self.scheduler.spec_registry().events().contains_key(
                #[trigger] self.executor_ids@[i],
            )
        &&& is_trading_configuration(self.scheduler.spec_event_bus().configs())
    }

    pub closed spec fn spec_scheduler(&self) -> Scheduler<TradingEventType, TradingMessage, B, V> {
        self.scheduler
    }

    pub closed spec fn connectors(&self) -> Seq<TaskId> {
        self.connector_ids@
    }

    pub closed spec fn strategies(&self) -> Seq<TaskId> {
        self.strategy_ids@
    }

    pub closed spec fn executors(&self) -> Seq<TaskId> {
        self.executor_ids@
    }

    pub closed spec fn aggregator(&self) -> TaskId {
        self.aggregator_id
    }

    pub open spec fn can_register(&self) -> bool {
        self.spec_scheduler().can_register()
    }

    /// A component can be added as long as fewer than `u64::MAX` task
    /// identifiers were handed out, however many components there are.
    pub proof fn lemma_components_can_be_added(&self)
        ensures
            self.spec_scheduler().spec_registry().spec_next_id() < u64::MAX ==> self.can_register(),
    {
        self.spec_scheduler().lemma_ids_left();
    }

    /// The event bus of the trading channels.
    pub fn trading_event_bus() -> (bus: EventBus<TradingEventType, TradingMessage>)
        ensures
            bus.wf(),
            is_trading_configuration(bus.configs()),
            bus.events() == set![TradingEventType::MetricsUpdated, TradingEventType::SignalGenerated],
    {
        let configs = vec![
            (
                TradingEventType::MetricsUpdated,
                ChannelConfig::new(TRADING_CHANNEL_CAPACITY, "Metrics Updated Channel".to_owned()),
            ),
            (
                TradingEventType::SignalGenerated,
                ChannelConfig::new(TRADING_CHANNEL_CAPACITY, "Signal Generated Channel".to_owned()),
            ),
        ];
        let bus = EventBus::new(configs);
        proof {
            lemma_trading_events(bus.configs());
        }
        bus
    }

    /// A trading engine over the trading channels, whose aggregator is made
    /// by `make_aggregator` from a sender of the metrics channel and runs as
    /// its first background task.
    pub fn new<F: FnOnce(Sender<TradingMessage>) -> B>(make_aggregator: F) -> (orchestrator: Self)
        requires
            forall|sender: Sender<TradingMessage>| make_aggregator.requires((sender,)),
        ensures
            orchestrator.wf(),
            orchestrator.can_register(),
            orchestrator.connectors().len() == 0,
            orchestrator.strategies().len() == 0,
            orchestrator.executors().len() == 0,
            orchestrator.spec_scheduler().background_ids() == seq![orchestrator.aggregator()],
            orchestrator.spec_scheduler().event_ids().len() == 0,
            make_aggregator.ensures(
                (orchestrator.spec_scheduler().spec_event_bus().sender_of(TradingEventType::MetricsUpdated),),
                orchestrator.spec_scheduler().spec_registry().background()[orchestrator.aggregator()],
            ),
            orchestrator.spec_scheduler().spec_registry().events().len() == 0,
            is_trading_configuration(orchestrator.spec_scheduler().spec_event_bus().configs()),
            orchestrator.spec_scheduler().spec_event_bus().events() == set![
                TradingEventType::MetricsUpdated,
                TradingEventType::SignalGenerated,
            ],
            orchestrator.spec_scheduler().spec_event_bus().events().len() == 2,
            orchestrator.spec_scheduler().spec_registry().background().dom() == set![
                orchestrator.aggregator(),
            ],
            orchestrator.spec_scheduler().spec_registry().spec_next_id() == 1,
    {
        let event_bus = Self::trading_event_bus();
        let metrics = TradingEventType::MetricsUpdated;
        let event_sender = event_bus.clone_sender(&metrics).unwrap();
        let ghost sender = event_bus.sender_of(metrics);
        let aggregator = make_aggregator(event_sender);
        let mut scheduler: Scheduler<TradingEventType, TradingMessage, B, V> = Scheduler::new(
            event_bus,
        );
        let aggregator_id = scheduler.register_background_task(aggregator);
        let orchestrator = TradingOrchestrator {
            connector_ids: Vec::new(),
            aggregator_id,
            strategy_ids: Vec::new(),
            executor_ids: Vec::new(),
            scheduler,
        };
        proof {
            assert(orchestrator.spec_scheduler().background_ids() =~= seq![aggregator_id]);
            assert(orchestrator.spec_scheduler().spec_registry().events() =~= Map::<TaskId, V>::empty());
            assert(orchestrator.spec_scheduler().spec_registry().background().dom() =~= set![
                aggregator_id,
            ]);
            lemma_two_events();
            assert(make_aggregator.ensures(
                (sender,),
                orchestrator.spec_scheduler().spec_registry().background()[orchestrator.aggregator()],
            ));
        }
        orchestrator
    }

    /// Whether another component can be added.
    pub fn has_free_id(&self) -> (free: bool)
        ensures
            free == self.can_register(),
    {
        self.scheduler.has_free_id()
    }

    pub fn add_connector(&mut self, connector: B)
        requires
            old(self).wf(),
            old(self).can_register(),
        ensures
            final(self).wf(),
            final(self).connectors().len() == old(self).connectors().len() + 1,
            final(self).connectors().drop_last() == old(self).connectors(),
            final(self).spec_scheduler().background_ids() == old(self).spec_scheduler().background_ids().push(
                final(self).connectors().last(),
            ),
            final(self).spec_scheduler().event_ids() == old(self).spec_scheduler().event_ids(),
            final(self).spec_scheduler().spec_registry().background() == old(self).spec_scheduler().spec_registry().background().insert(final(self).connectors().last(), connector),
            !old(self).spec_scheduler().spec_registry().background().contains_key(final(self).connectors().last()),
            final(self).strategies() == old(self).strategies(),
            final(self).executors() == old(self).executors(),
            final(self).aggregator() == old(self).aggregator(),
            final(self).spec_scheduler().spec_event_bus() == old(self).spec_scheduler().spec_event_bus(),
            final(self).spec_scheduler().spec_registry().spec_next_id() == old(
                self,
            ).spec_scheduler().spec_registry().spec_next_id() + 1,
            final(self).spec_scheduler().spec_registry().events() == old(self).spec_scheduler().spec_registry().events(),
    {
        let id = self.scheduler.register_background_task(connector);
        self.connector_ids.push(id);
        proof {
            assert(self.connector_ids@.subrange(0, old(self).connector_ids@.len() as int) =~= old(self).connector_ids@);
            assert(self.strategy_ids@.subrange(0, old(self).strategy_ids@.len() as int) =~= old(self).strategy_ids@);
            assert(self.executor_ids@.subrange(0, old(self).executor_ids@.len() as int) =~= old(self).executor_ids@);
            self.lemma_registered_kept(old(self));
            assert(self.spec_scheduler().spec_registry().background() == old(self).spec_scheduler().spec_registry().background().insert(id, connector));
        }
    }

    pub fn add_strategy(&mut self, strategy: V)
        requires
            old(self).wf(),
            old(self).can_register(),
        ensures
            final(self).wf(),
            final(self).strategies().len() == old(self).strategies().len() + 1,
            final(self).strategies().drop_last() == old(self).strategies(),
            final(self).spec_scheduler().event_ids() == old(self).spec_scheduler().event_ids().push(
                final(self).strategies().last(),
            ),
            final(self).spec_scheduler().background_ids() == old(self).spec_scheduler().background_ids(),
            final(self).spec_scheduler().spec_registry().events() == old(self).spec_scheduler().spec_registry().events().insert(final(self).strategies().last(), strategy),
            !old(self).spec_scheduler().spec_registry().events().contains_key(final(self).strategies().last()),
            final(self).connectors() == old(self).connectors(),
            final(self).executors() == old(self).executors(),
            final(self).aggregator() == old(self).aggregator(),
            final(self).spec_scheduler().spec_event_bus() == old(self).spec_scheduler().spec_event_bus(),
            final(self).spec_scheduler().spec_registry().spec_next_id() == old(
                self,
            ).spec_scheduler().spec_registry().spec_next_id() + 1,
            final(self).spec_scheduler().spec_registry().background() == old(self).spec_scheduler().spec_registry().background(),
    {
        let id = self.scheduler.register_event_task(strategy);
        self.strategy_ids.push(id);
        proof {
            assert(self.connector_ids@.subrange(0, old(self).connector_ids@.len() as int) =~= old(self).connector_ids@);
            assert(self.strategy_ids@.subrange(0, old(self).strategy_ids@.len() as int) =~= old(self).strategy_ids@);
            assert(self.executor_ids@.subrange(0, old(self).executor_ids@.len() as int) =~= old(self).executor_ids@);
            self.lemma_registered_kept(old(self));
            assert(self.spec_scheduler().spec_registry().events() == old(self).spec_scheduler().spec_registry().events().insert(id, strategy));
        }
    }

    pub fn add_executor(&mut self, executor: V)
        requires
            old(self).wf(),
            old(self).can_register(),
        ensures
            final(self).wf(),
            final(self).executors().len() == old(self).executors().len() + 1,
            final(self).executors().drop_last() == old(self).executors(),
            final(self).spec_scheduler().event_ids() == old(self).spec_scheduler().event_ids().push(
                final(self).executors().last(),
            ),
            final(self).spec_scheduler().background_ids() == old(self).spec_scheduler().background_ids(),
            final(self).spec_scheduler().spec_registry().events() == old(self).spec_scheduler().spec_registry().events().insert(final(self).executors().last(), executor),
            !old(self).spec_scheduler().spec_registry().events().contains_key(final(self).executors().last()),
            final(self).connectors() == old(self).connectors(),
            final(self).strategies() == old(self).strategies(),
            final(self).aggregator() == old(self).aggregator(),
            final(self).spec_scheduler().spec_event_bus() == old(self).spec_scheduler().spec_event_bus(),
            final(self).spec_scheduler().spec_registry().spec_next_id() == old(
                self,
            ).spec_scheduler().spec_registry().spec_next_id() + 1,
            final(self).spec_scheduler().spec_registry().background() == old(self).spec_scheduler().spec_registry().background(),
    {
        let id = self.scheduler.register_event_task(executor);
        self.executor_ids.push(id);
        proof {
            assert(self.connector_ids@.subrange(0, old(self).connector_ids@.len() as int) =~= old(self).connector_ids@);
            assert(self.strategy_ids@.subrange(0, old(self).strategy_ids@.len() as int) =~= old(self).strategy_ids@);
            assert(self.executor_ids@.subrange(0, old(self).executor_ids@.len() as int) =~= old(self).executor_ids@);
            self.lemma_registered_kept(old(self));
            assert(self.spec_scheduler().spec_registry().events() == old(self).spec_scheduler().spec_registry().events().insert(id, executor));
        }
    }

    /// Registration only adds tasks, so what was registered stays so.
    proof fn lemma_registered_kept(&self, before: &Self)
        requires
            before.wf(),
            self.scheduler.wf(),
            self.aggregator_id == before.aggregator_id,
            is_trading_configuration(self.scheduler.spec_event_bus().configs()),
            before.scheduler.spec_registry().background().dom().subset_of(
                self.scheduler.spec_registry().background().dom(),
            ),
            before.scheduler.spec_registry().events().dom().subset_of(
                self.scheduler.spec_registry().events().dom(),
            ),
            self.connector_ids@.len() >= before.connector_ids@.len(),
            self.strategy_ids@.len() >= before.strategy_ids@.len(),
            self.executor_ids@.len() >= before.executor_ids@.len(),
            self.connector_ids@.subrange(0, before.connector_ids@.len() as int) == before.connector_ids@,
            self.strategy_ids@.subrange(0, before.strategy_ids@.len() as int) == before.strategy_ids@,
            self.executor_ids@.subrange(0, before.executor_ids@.len() as int) == before.executor_ids@,
            forall|i: int|
                before.connector_ids@.len() <= i < self.connector_ids@.len()
                    ==> self.scheduler.spec_registry().background().contains_key(
                    #[trigger] self.connector_ids@[i],
                ),
            forall|i: int|
                before.strategy_ids@.len() <= i < self.strategy_ids@.len()
                    ==> self.scheduler.spec_registry().events().contains_key(
                    #[trigger] self.strategy_ids@[i],
                ),
            forall|i: int|
                before.executor_ids@.len() <= i < self.executor_ids@.len()
                    ==> self.scheduler.spec_registry().events().contains_key(
                    #[trigger] self.executor_ids@[i],
                ),
        ensures
            self.wf(),
    {
        assert forall|i: int| 0 <= i < self.connector_ids@.len() implies self.scheduler.spec_registry().background().contains_key(
            #[trigger] self.connector_ids@[i],
        ) by {
            if i < before.connector_ids@.len() {
                assert(self.connector_ids@[i] == before.connector_ids@[i]);
            }
        }
        assert forall|i: int| 0 <= i < self.strategy_ids@.len() implies self.scheduler.spec_registry().events().contains_key(
            #[trigger] self.strategy_ids@[i],
        ) by {
            if i < before.strategy_ids@.len() {
                assert(self.strategy_ids@[i] == before.strategy_ids@[i]);
            }
        }
        assert forall|i: int| 0 <= i < self.executor_ids@.len() implies self.scheduler.spec_registry().events().contains_key(
            #[trigger] self.executor_ids@[i],
        ) by {
            if i < before.executor_ids@.len() {
                assert(self.executor_ids@[i] == before.executor_ids@[i]);
            }
        }
    }

    /// A well-formed engine has a well-formed scheduler, registry and event
    /// bus, its bus has the trading channels, and every component is
    /// registered under its kind.
    pub proof fn lemma_parts_wf(&self)
        requires
            self.wf(),
        ensures
            self.spec_scheduler().wf(),
            self.spec_scheduler().spec_registry().wf(),
            self.spec_scheduler().spec_event_bus().wf(),
            is_trading_configuration(self.spec_scheduler().spec_event_bus().configs()),
            self.spec_scheduler().spec_registry().background().contains_key(self.aggregator()),
            forall|i: int|
                0 <= i < self.connectors().len() ==> self.spec_scheduler().spec_registry().background().contains_key(
                    #[trigger] self.connectors()[i],
                ),
            forall|i: int|
                0 <= i < self.strategies().len() ==> self.spec_scheduler().spec_registry().events().contains_key(
                    #[trigger] self.strategies()[i],
                ),
            forall|i: int|
                0 <= i < self.executors().len() ==> self.spec_scheduler().spec_registry().events().contains_key(
                    #[trigger] self.executors()[i],
                ),
    {
        self.scheduler.lemma_parts_wf();
    }

    /// The engine needs at least one connector, one strategy and one
    /// executor; the first one missing, in that order, is reported.
    pub fn check_components(&self) -> (result: Result<(), OrchestratorError>)
        ensures
            self.connectors().len() == 0 ==> result == Err::<(), OrchestratorError>(
                OrchestratorError::MissingComponent(MISSING_CONNECTOR),
            ),
            self.connectors().len() > 0 && self.strategies().len() == 0 ==> result == Err::<
                (),
                OrchestratorError,
            >(OrchestratorError::MissingComponent(MISSING_STRATEGY)),
            self.connectors().len() > 0 && self.strategies().len() > 0 && self.executors().len() == 0
                ==> result == Err::<(), OrchestratorError>(
                OrchestratorError::MissingComponent(MISSING_EXECUTOR),
            ),
            result is Ok <==> self.connectors().len() > 0 && self.strategies().len() > 0
                && self.executors().len() > 0,
    {
        if self.connector_ids.len() == 0 {
            return Err(OrchestratorError::MissingComponent(MISSING_CONNECTOR));
        }
        if self.strategy_ids.len() == 0 {
            return Err(OrchestratorError::MissingComponent(MISSING_STRATEGY));
        }
        if self.executor_ids.len() == 0 {
            return Err(OrchestratorError::MissingComponent(MISSING_EXECUTOR));
        }
        Ok(())
    }

    /// Whether the engine may start its tasks, given the events that its
    /// strategies and its executors subscribe to: the components are
    /// checked, then the subscriptions.
    pub fn check_start(
        &self,
        strategy_events: &Vec<TradingEventType>,
        executor_events: &Vec<TradingEventType>,
    ) -> (result: Result<(), OrchestratorError>)
        ensures
            start_refusal(
                self.connectors().len(),
                self.strategies().len(),
                self.executors().len(),
                strategy_events@,
                executor_events@,
            ) matches Some(refusal) ==> result == Err::<(), OrchestratorError>(refusal),
            result is Ok <==> start_refusal(
                self.connectors().len(),
                self.strategies().len(),
                self.executors().len(),
                strategy_events@,
                executor_events@,
            ) is None,
    {
        let components = self.check_components();
        if components.is_err() {
            return components;
        }
        proof {
            if !all_subscribe(strategy_events@, TradingEventType::MetricsUpdated) {
                let i = choose|i: int|
                    0 <= i < strategy_events@.len() && strategy_events@[i] != TradingEventType::MetricsUpdated;
                assert(strategy_events@[i] != TradingEventType::MetricsUpdated);
            } else if !all_subscribe(executor_events@, TradingEventType::SignalGenerated) {
                let i = choose|i: int|
                    0 <= i < executor_events@.len() && executor_events@[i] != TradingEventType::SignalGenerated;
                assert(executor_events@[i] != TradingEventType::SignalGenerated);
            }
        }
        Self::check_subscriptions(strategy_events, executor_events)
    }

    /// Strategies must subscribe to metrics updates and executors to
    /// generated signals; given the events that the strategies and the
    /// executors subscribe to, the first rule broken is reported.
    pub fn check_subscriptions(
        strategy_events: &Vec<TradingEventType>,
        executor_events: &Vec<TradingEventType>,
    ) -> (result: Result<(), OrchestratorError>)
        ensures
            (exists|i: int|
                0 <= i < strategy_events@.len() && #[trigger] strategy_events@[i]
                    != TradingEventType::MetricsUpdated) ==> result == Err::<(), OrchestratorError>(
                OrchestratorError::InvalidTaskEventType(STRATEGY_EVENT_REQUIRED),
            ),
            (forall|i: int|
                0 <= i < strategy_events@.len() ==> #[trigger] strategy_events@[i]
                    == TradingEventType::MetricsUpdated) && (exists|i: int|
                0 <= i < executor_events@.len() && #[trigger] executor_events@[i]
                    != TradingEventType::SignalGenerated) ==> result == Err::<(), OrchestratorError>(
                OrchestratorError::InvalidTaskEventType(EXECUTOR_EVENT_REQUIRED),
            ),
            result is Ok <==> (forall|i: int|
                0 <= i < strategy_events@.len() ==> #[trigger] strategy_events@[i]
                    == TradingEventType::MetricsUpdated) && (forall|i: int|
                0 <= i < executor_events@.len() ==> #[trigger] executor_events@[i]
                    == TradingEventType::SignalGenerated),
    {
        let mut i: usize = 0;
        while i < strategy_events.len()
            invariant
                i <= strategy_events@.len(),
                forall|j: int| 0 <= j < i ==> #[trigger] strategy_events@[j] == TradingEventType::MetricsUpdated,
            decreases strategy_events@.len() - i,
        {
            if strategy_events[i] != TradingEventType::MetricsUpdated {
                return Err(OrchestratorError::InvalidTaskEventType(STRATEGY_EVENT_REQUIRED));
            }
            i = i + 1;
        }
        let mut j: usize = 0;
        while j < executor_events.len()
            invariant
                j <= executor_events@.len(),
                forall|k: int|
                    0 <= k < strategy_events@.len() ==> #[trigger] strategy_events@[k]
                        == TradingEventType::MetricsUpdated,
                forall|k: int| 0 <= k < j ==> #[trigger] executor_events@[k] == TradingEventType::SignalGenerated,
            decreases executor_events@.len() - j,
        {
            if executor_events[j] != TradingEventType::SignalGenerated {
                return Err(OrchestratorError::InvalidTaskEventType(EXECUTOR_EVENT_REQUIRED));
            }
            j = j + 1;
        }
        Ok(())
    }

    pub fn scheduler(&self) -> (scheduler: &Scheduler<TradingEventType, TradingMessage, B, V>)
        ensures
            *scheduler == self.spec_scheduler(),
            self.wf() ==> scheduler.wf(),
    {
        &self.scheduler
    }

    pub fn event_bus(&self) -> (bus: &EventBus<TradingEventType, TradingMessage>)
        ensures
            *bus == self.spec_scheduler().spec_event_bus(),
            self.wf() ==> bus.wf(),
    {
        self.scheduler.event_bus()
    }

    pub fn connector_ids(&self) -> (ids: &Vec<TaskId>)
        ensures
            ids@ == self.connectors(),
    {
        &self.connector_ids
    }

    pub fn strategy_ids(&self) -> (ids: &Vec<TaskId>)
        ensures
            ids@ == self.strategies(),
    {
        &self.strategy_ids
    }

    pub fn executor_ids(&self) -> (ids: &Vec<TaskId>)
        ensures
            ids@ == self.executors(),
    {
        &self.executor_ids
    }

    pub fn aggregator_id(&self) -> (id: TaskId)
        ensures
            id == self.aggregator(),
    {
        self.aggregator_id
    }
}

/// The two trading events are two.
proof fn lemma_two_events()
    ensures
        set![TradingEventType::MetricsUpdated, TradingEventType::SignalGenerated].len() == 2,
{
    let s = set![TradingEventType::MetricsUpdated, TradingEventType::SignalGenerated];
    assert(Set::<TradingEventType>::empty().insert(TradingEventType::MetricsUpdated).len() == 1);
    assert(!Set::<TradingEventType>::empty().insert(TradingEventType::MetricsUpdated).contains(
        TradingEventType::SignalGenerated,
    ));
}

/// The trading configuration names exactly the two trading events.
proof fn lemma_trading_events(configs: Seq<(TradingEventType, ChannelConfig)>)
    requires
        is_trading_configuration(configs),
    ensures
        crate::event_bus::configured_events(configs) == set![
            TradingEventType::MetricsUpdated,
            TradingEventType::SignalGenerated,
        ],
{
    let evs = configs.map_values(|c: (TradingEventType, ChannelConfig)| c.0);
    assert(evs[0] == TradingEventType::MetricsUpdated);
    assert(evs[1] == TradingEventType::SignalGenerated);
    assert(evs.to_set() =~= set![TradingEventType::MetricsUpdated, TradingEventType::SignalGenerated]) by {
        assert forall|e: TradingEventType| evs.to_set().contains(e) implies set![
            TradingEventType::MetricsUpdated,
            TradingEventType::SignalGenerated,
        ].contains(e) by {
            let i = choose|i: int| 0 <= i < evs.len() && evs[i] == e;
            assert(i == 0 || i == 1);
        }
        assert(evs.to_set().contains(evs[0]));
        assert(evs.to_set().contains(evs[1]));
    }
}

} // verus!
