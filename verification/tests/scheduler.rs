use kimiha::channel_config::ChannelConfig;
use kimiha::error::OrchestratorError;
use kimiha::event_bus::EventBus;
use kimiha::scheduler::{LifecycleStep, Scheduler, TaskRef};
use kimiha::task_id::TaskId;
use kimiha::types::EventType;

#[derive(Debug, Clone, Hash, PartialEq, Eq)]
enum TestEvent {
    TestEvent1,
    TestEvent2,
}

impl EventType for TestEvent {
    fn label(&self) -> String {
        match self {
            TestEvent::TestEvent1 => "TestEvent1".to_string(),
            TestEvent::TestEvent2 => "TestEvent2".to_string(),
        }
    }

    fn same_event(&self, other: &Self) -> bool {
        self == other
    }
}

fn create_test_event_bus() -> EventBus<TestEvent, String> {
    let configs = vec![
        (TestEvent::TestEvent1, ChannelConfig::new(10, "Test Channel 1".to_string())),
        (TestEvent::TestEvent2, ChannelConfig::new(10, "Test Channel 2".to_string())),
    ];
    EventBus::new(configs)
}

type TestScheduler = Scheduler<TestEvent, String, &'static str, &'static str>;

#[test]
fn test_scheduler_new() {
    let event_bus = create_test_event_bus();
    let scheduler = TestScheduler::new(event_bus);

    assert_eq!(scheduler.background_task_ids().len(), 0);
    assert_eq!(scheduler.event_task_ids().len(), 0);
    assert_eq!(scheduler.event_bus().channel_count(), 2);
}

#[test]
fn test_register_background_task() {
    let event_bus = create_test_event_bus();
    let mut scheduler = TestScheduler::new(event_bus);

    let id = scheduler.register_background_task("Background Task 1");

    assert_eq!(scheduler.background_task_ids().len(), 1);
    assert_eq!(scheduler.background_task_ids()[0], id);

    let stored_task = scheduler.task_registry().get_background_task(&id);
    assert!(stored_task.is_some());
    assert_eq!(stored_task, Some(&"Background Task 1"));
}

#[test]
fn test_register_event_task() {
    let event_bus = create_test_event_bus();
    let mut scheduler = TestScheduler::new(event_bus);

    let id = scheduler.register_event_task("Event Task 1");

    assert_eq!(scheduler.event_task_ids().len(), 1);
    assert_eq!(scheduler.event_task_ids()[0], id);

    let stored_task = scheduler.task_registry().get_event_task(&id);
    assert!(stored_task.is_some());
    assert_eq!(stored_task, Some(&"Event Task 1"));
}

#[test]
fn registered_ids_are_distinct_across_kinds() {
    let mut scheduler = TestScheduler::new(create_test_event_bus());
    let a = scheduler.register_background_task("a");
    let b = scheduler.register_event_task("b");
    let c = scheduler.register_background_task("c");
    assert_ne!(a, b);
    assert_ne!(a, c);
    assert_ne!(b, c);
    assert!(scheduler.task_registry().get_event_task(&a).is_none());
    assert!(scheduler.task_registry().get_background_task(&b).is_none());
    assert_eq!(scheduler.task_registry().get_background_task(&c), Some(&"c"));
}

#[test]
fn lookup_of_unknown_id_finds_nothing() {
    let scheduler = TestScheduler::new(create_test_event_bus());
    let id = TaskId::from_value(7);
    assert!(scheduler.task_registry().get_background_task(&id).is_none());
    assert!(scheduler.task_registry().get_event_task(&id).is_none());
}

#[test]
fn lifecycle_goes_through_background_then_event_tasks() {
    let mut scheduler = TestScheduler::new(create_test_event_bus());
    let e1 = scheduler.register_event_task("e1");
    let b1 = scheduler.register_background_task("b1");
    let b2 = scheduler.register_background_task("b2");

    assert_eq!(scheduler.lifecycle_step(0, Ok(())), LifecycleStep::Run(TaskRef::Background(b1)));
    assert_eq!(scheduler.lifecycle_step(1, Ok(())), LifecycleStep::Run(TaskRef::Background(b2)));
    assert_eq!(scheduler.lifecycle_step(2, Ok(())), LifecycleStep::Run(TaskRef::Event(e1)));
    assert_eq!(scheduler.lifecycle_step(3, Ok(())), LifecycleStep::Finish(Ok(())));
}

#[test]
fn lifecycle_stops_at_first_failure() {
    let mut scheduler = TestScheduler::new(create_test_event_bus());
    scheduler.register_background_task("b1");
    scheduler.register_background_task("b2");
    let failure = OrchestratorError::TaskInitialization("boom".to_string());
    assert_eq!(
        scheduler.lifecycle_step(1, Err(failure)),
        LifecycleStep::Finish(Err(OrchestratorError::TaskInitialization("boom".to_string())))
    );
}

#[test]
fn empty_scheduler_finishes_at_once() {
    let scheduler = TestScheduler::new(create_test_event_bus());
    assert_eq!(scheduler.lifecycle_step(0, Ok(())), LifecycleStep::Finish(Ok(())));
}

#[test]
fn lifecycle_run_handles_tasks_up_to_the_first_failure() {
    let mut scheduler = TestScheduler::new(create_test_event_bus());
    let b1 = scheduler.register_background_task("b1");
    let b2 = scheduler.register_background_task("b2");
    let e1 = scheduler.register_event_task("e1");
    let outcome_of = |task: TaskRef| -> Result<(), OrchestratorError> {
        if task == TaskRef::Background(b2) {
            Err(OrchestratorError::TaskInitialization("b2".to_string()))
        } else {
            Ok(())
        }
    };
    let mut handled = Vec::new();
    let mut completed: usize = 0;
    let mut outcome = Ok(());
    let result = loop {
        match scheduler.lifecycle_step(completed, outcome) {
            LifecycleStep::Run(task) => {
                handled.push(task);
                outcome = outcome_of(task);
                completed += 1;
            }
            LifecycleStep::Finish(result) => break result,
        }
    };
    assert_eq!(handled, vec![TaskRef::Background(b1), TaskRef::Background(b2)]);
    assert_eq!(result, Err(OrchestratorError::TaskInitialization("b2".to_string())));
    assert!(!handled.contains(&TaskRef::Event(e1)));
}
