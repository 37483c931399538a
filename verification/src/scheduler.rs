use vstd::prelude::*;

use crate::error::OrchestratorError;
use crate::event_bus::EventBus;
use crate::task_id::TaskId;
use crate::task_registry::TaskRegistry;
use crate::types::EventType;

verus! {

/// A registered task, by kind and identifier.
#[derive(Debug, Clone, Copy, PartialEq, Eq, Structural)]
pub enum TaskRef {
    Background(TaskId),
    Event(TaskId),
}

/// What the scheduler does next while starting or shutting down its tasks.
#[derive(Debug, PartialEq, Eq)]
pub enum LifecycleStep {
    /// Start the given task, or shut it down.
    Run(TaskRef),
    /// Stop, with this result.
    Finish(Result<(), OrchestratorError>),
}

/// The tasks in the order the scheduler starts and shuts them down: the
/// background tasks, then the event tasks, each in registration order.
pub open spec fn lifecycle_order(background: Seq<TaskId>, events: Seq<TaskId>) -> Seq<TaskRef> {
    background.map_values(|id: TaskId| TaskRef::Background(id)) + events.map_values(
        |id: TaskId| TaskRef::Event(id),
    )
}

/// The step after `completed` tasks of `order` were handled, the last one
/// with `outcome`: a failure ends it with that failure; otherwise the next
/// task is handled, and when none is left it ends in success.
pub open spec fn lifecycle_next(
    order: Seq<TaskRef>,
    completed: int,
    outcome: Result<(), OrchestratorError>,
) -> LifecycleStep {
    if outcome is Err {
        LifecycleStep::Finish(outcome)
    } else if 0 <= completed < order.len() {
        LifecycleStep::Run(order[completed])
    } else {
        LifecycleStep::Finish(Ok(()))
    }
}

/// The tasks handled, and the result, when the steps are followed from
/// `completed` handled tasks and `outcome`, the task at position `k` of
/// `order` ending with `outcomes[k]`.
pub open spec fn lifecycle_run(
    order: Seq<TaskRef>,
    outcomes: Seq<Result<(), OrchestratorError>>,
    completed: int,
    outcome: Result<(), OrchestratorError>,
) -> (Seq<TaskRef>, Result<(), OrchestratorError>)
    decreases order.len() - completed,
{
    match lifecycle_next(order, completed, outcome) {
        LifecycleStep::Run(task) => {
            let (rest, result) = lifecycle_run(order, outcomes, completed + 1, outcomes[completed]);
            (seq![task] + rest, result)
        },
        LifecycleStep::Finish(result) => (Seq::empty(), result),
    }
}

/// Every outcome from position `from` up to `to`, excluded, is a success.
pub open spec fn all_succeeded(outcomes: Seq<Result<(), OrchestratorError>>, from: int, to: int) -> bool {
    forall|j: int| from <= j < to ==> (#[trigger] outcomes[j]) is Ok
}

/// A run of the lifecycle from its start goes through the tasks in order
/// and stops at the first failure, with that failure, having handled the
/// tasks up to and including the failed one; when no task fails, every task
/// is handled and the run succeeds.
pub proof fn lemma_lifecycle_run(order: Seq<TaskRef>, outcomes: Seq<Result<(), OrchestratorError>>)
    requires
        outcomes.len() == order.len(),
    ensures
        forall|k: int|
            0 <= k < order.len() && #[trigger] outcomes[k] is Err && all_succeeded(outcomes, 0, k)
                ==> lifecycle_run(order, outcomes, 0, Ok(())) == (order.take(k + 1), outcomes[k]),
        all_succeeded(outcomes, 0, order.len() as int) ==> lifecycle_run(order, outcomes, 0, Ok(())) == (
            order,
            Ok::<(), OrchestratorError>(()),
        ),
{
    assert forall|k: int|
        0 <= k < order.len() && #[trigger] outcomes[k] is Err && all_succeeded(outcomes, 0, k)
            implies lifecycle_run(order, outcomes, 0, Ok(())) == (order.take(k + 1), outcomes[k]) by {
        lemma_run_fails_at(order, outcomes, 0, k, Ok(()));
        assert(order.take(k + 1) =~= order.subrange(0, k + 1));
    }
    if all_succeeded(outcomes, 0, order.len() as int) {
        lemma_run_succeeds(order, outcomes, 0, Ok(()));
        assert(order.subrange(0, order.len() as int) =~= order);
    }
}

/// From `start` handled tasks that succeeded, a run whose first failure is
/// at `k` handles the tasks from `start` to `k` and ends with that failure.
proof fn lemma_run_fails_at(
    order: Seq<TaskRef>,
    outcomes: Seq<Result<(), OrchestratorError>>,
    start: int,
    k: int,
    outcome: Result<(), OrchestratorError>,
)
    requires
        outcome is Ok,
        outcomes.len() == order.len(),
        0 <= start <= k < order.len(),
        outcomes[k] is Err,
        all_succeeded(outcomes, start, k),
    ensures
        lifecycle_run(order, outcomes, start, outcome) == (order.subrange(start, k + 1), outcomes[k]),
    decreases k - start,
{
    let next = lifecycle_run(order, outcomes, start + 1, outcomes[start]);
    assert(lifecycle_run(order, outcomes, start, outcome) == (seq![order[start]] + next.0, next.1));
    if start == k {
        assert(next.0 =~= Seq::<TaskRef>::empty());
        assert(seq![order[start]] + next.0 =~= order.subrange(start, k + 1));
    } else {
        assert(outcomes[start] is Ok);
        lemma_run_fails_at(order, outcomes, start + 1, k, outcomes[start]);
        assert(seq![order[start]] + order.subrange(start + 1, k + 1) =~= order.subrange(start, k + 1));
    }
}

/// From `start` handled tasks that succeeded, a run in which no later task
/// fails handles every remaining task and succeeds.
proof fn lemma_run_succeeds(
    order: Seq<TaskRef>,
    outcomes: Seq<Result<(), OrchestratorError>>,
    start: int,
    outcome: Result<(), OrchestratorError>,
)
    requires
        outcome is Ok,
        outcomes.len() == order.len(),
        0 <= start <= order.len(),
        all_succeeded(outcomes, start, order.len() as int),
    ensures
        lifecycle_run(order, outcomes, start, outcome) == (
            order.subrange(start, order.len() as int),
            Ok::<(), OrchestratorError>(()),
        ),
    decreases order.len() - start,
{
    if start < order.len() {
        assert(outcomes[start] is Ok);
        let next = lifecycle_run(order, outcomes, start + 1, outcomes[start]);
        assert(lifecycle_run(order, outcomes, start, outcome) == (seq![order[start]] + next.0, next.1));
        lemma_run_succeeds(order, outcomes, start + 1, outcomes[start]);
        assert(seq![order[start]] + order.subrange(start + 1, order.len() as int) =~= order.subrange(
            start,
            order.len() as int,
        ));
    } else {
        assert(order.subrange(start, order.len() as int) =~= Seq::<TaskRef>::empty());
    }
}

/// Runs background tasks and event tasks over an event bus. `B` is the
/// handle of a background task, `V` that of an event task.
#[verifier::reject_recursive_types(M)]
#[verifier::reject_recursive_types(B)]
#[verifier::reject_recursive_types(V)]
pub struct Scheduler<E, M, B, V> {
    task_registry: TaskRegistry<B, V>,
    background_task_ids: Vec<TaskId>,
    event_task_ids: Vec<TaskId>,
    event_bus: EventBus<E, M>,
}

impl<E: EventType, M: Clone, B, V> Scheduler<E, M, B, V> {
    /// Each registered task is listed once, and every listed task is
    /// registered.
    pub closed spec fn wf(&self) -> bool {
        &&& self.task_registry.wf()
        &&& self.event_bus.wf()
        &&& self.background_task_ids@.no_duplicates()
        &&& self.event_task_ids@.no_duplicates()
        &&& self.background_task_ids@.to_set() == self.task_registry.background().dom()
        &&& self.event_task_ids@.to_set() == self.task_registry.events().dom()
    }

    pub closed spec fn spec_registry(&self) -> TaskRegistry<B, V> {
        self.task_registry
    }

    pub closed spec fn spec_event_bus(&self) -> EventBus<E, M> {
        self.event_bus
    }

    /// The background tasks, in registration order.
    pub closed spec fn background_ids(&self) -> Seq<TaskId> {
        self.background_task_ids@
    }

    /// The event tasks, in registration order.
    pub closed spec fn event_ids(&self) -> Seq<TaskId> {
        self.event_task_ids@
    }

    pub open spec fn can_register(&self) -> bool {
        self.spec_registry().can_register()
    }

    /// A task can be registered as long as fewer than `u64::MAX`
    /// identifiers were handed out, however many tasks are registered.
    pub proof fn lemma_ids_left(&self)
        ensures
            self.spec_registry().spec_next_id() < u64::MAX ==> self.can_register(),
    {
        crate::task_registry::lemma_ids_left(self.spec_registry());
    }

    pub fn new(event_bus: EventBus<E, M>) -> (scheduler: Self)
        requires
            event_bus.wf(),
        ensures
            scheduler.wf(),
            scheduler.spec_registry().spec_next_id() == 0,
            scheduler.spec_event_bus() == event_bus,
            scheduler.background_ids() == Seq::<TaskId>::empty(),
            scheduler.event_ids() == Seq::<TaskId>::empty(),
            scheduler.spec_registry().background() == Map::<TaskId, B>::empty(),
            scheduler.spec_registry().events() == Map::<TaskId, V>::empty(),
    {
        let scheduler = Scheduler {
            task_registry: TaskRegistry::new(),
            background_task_ids: Vec::new(),
            event_task_ids: Vec::new(),
            event_bus,
        };
        assert(scheduler.background_task_ids@.to_set() =~= Set::<TaskId>::empty());
        assert(scheduler.event_task_ids@.to_set() =~= Set::<TaskId>::empty());
        scheduler
    }

    pub fn event_bus(&self) -> (bus: &EventBus<E, M>)
        ensures
            *bus == self.spec_event_bus(),
            self.wf() ==> bus.wf(),
    {
        &self.event_bus
    }

    pub fn task_registry(&self) -> (registry: &TaskRegistry<B, V>)
        ensures
            *registry == self.spec_registry(),
            self.wf() ==> registry.wf(),
    {
        &self.task_registry
    }

    pub fn background_task_ids(&self) -> (ids: &Vec<TaskId>)
        ensures
            ids@ == self.background_ids(),
    {
        &self.background_task_ids
    }

    pub fn event_task_ids(&self) -> (ids: &Vec<TaskId>)
        ensures
            ids@ == self.event_ids(),
    {
        &self.event_task_ids
    }

    /// Whether another task can be registered.
    pub fn has_free_id(&self) -> (free: bool)
        ensures
            free == self.can_register(),
    {
        self.task_registry.has_free_id()
    }

    pub fn register_background_task(&mut self, task: B) -> (id: TaskId)
        requires
            old(self).wf(),
            old(self).can_register(),
        ensures
            final(self).wf(),
            final(self).background_ids() == old(self).background_ids().push(id),
            final(self).event_ids() == old(self).event_ids(),
            !old(self).spec_registry().background().contains_key(id),
            !old(self).spec_registry().events().contains_key(id),
            final(self).spec_registry().background() == old(self).spec_registry().background().insert(
                id,
                task,
            ),
            final(self).spec_registry().events() == old(self).spec_registry().events(),
            final(self).spec_event_bus() == old(self).spec_event_bus(),
            final(self).spec_registry().spec_next_id() == old(self).spec_registry().spec_next_id() + 1,
    {
        let ghost ids_before = self.background_task_ids@;
        let id = self.task_registry.register_background_task(task);
        self.background_task_ids.push(id);
        proof {
            lemma_push_fresh(ids_before, id);
        }
        id
    }

    pub fn register_event_task(&mut self, task: V) -> (id: TaskId)
        requires
            old(self).wf(),
            old(self).can_register(),
        ensures
            final(self).wf(),
            final(self).event_ids() == old(self).event_ids().push(id),
            final(self).background_ids() == old(self).background_ids(),
            !old(self).spec_registry().background().contains_key(id),
            !old(self).spec_registry().events().contains_key(id),
            final(self).spec_registry().events() == old(self).spec_registry().events().insert(id, task),
            final(self).spec_registry().background() == old(self).spec_registry().background(),
            final(self).spec_event_bus() == old(self).spec_event_bus(),
            final(self).spec_registry().spec_next_id() == old(self).spec_registry().spec_next_id() + 1,
    {
        let ghost ids_before = self.event_task_ids@;
        let id = self.task_registry.register_event_task(task);
        self.event_task_ids.push(id);
        proof {
            lemma_push_fresh(ids_before, id);
        }
        id
    }

    /// A well-formed scheduler has a well-formed registry and event bus.
    pub proof fn lemma_parts_wf(&self)
        requires
            self.wf(),
        ensures
            self.spec_registry().wf(),
            self.spec_event_bus().wf(),
    {
    }

    /// The tasks in the order `start` and `shutdown` go through them.
    pub open spec fn order(&self) -> Seq<TaskRef> {
        lifecycle_order(self.background_ids(), self.event_ids())
    }

    /// The next step of starting or shutting down the tasks, once
    /// `completed` of them were handled and the last one gave `outcome`:
    /// the first failure ends it with that failure; otherwise the next task
    /// in order is handled, and when none is left it ends in success.
    pub fn lifecycle_step(&self, completed: usize, outcome: Result<(), OrchestratorError>) -> (step:
        LifecycleStep)
        requires
            self.wf(),
        ensures
            step == lifecycle_next(self.order(), completed as int, outcome),
    {
        if outcome.is_err() {
            return LifecycleStep::Finish(outcome);
        }
        let n_background = self.background_task_ids.len();
        let n_events = self.event_task_ids.len();
        if completed < n_background {
            LifecycleStep::Run(TaskRef::Background(self.background_task_ids[completed]))
        } else if completed - n_background < n_events {
            LifecycleStep::Run(TaskRef::Event(self.event_task_ids[completed - n_background]))
        } else {
            LifecycleStep::Finish(Ok(()))
        }
    }

    /// Every task that `start` and `shutdown` go through is found in the
    /// registry, and every registered task is gone through exactly once.
    pub proof fn lemma_registered_tasks_found(&self)
        requires
            self.wf(),
        ensures
            self.order().no_duplicates(),
            forall|i: int|
                0 <= i < self.order().len() ==> match #[trigger] self.order()[i] {
                    TaskRef::Background(id) => self.spec_registry().background().contains_key(id),
                    TaskRef::Event(id) => self.spec_registry().events().contains_key(id),
                },
            forall|id: TaskId| #[trigger]
                self.spec_registry().background().contains_key(id) ==> self.order().contains(
                    TaskRef::Background(id),
                ),
            forall|id: TaskId| #[trigger]
                self.spec_registry().events().contains_key(id) ==> self.order().contains(
                    TaskRef::Event(id),
                ),
    {
        let bg = self.background_task_ids@;
        let ev = self.event_task_ids@;
        let b = bg.map_values(|id: TaskId| TaskRef::Background(id));
        let e = ev.map_values(|id: TaskId| TaskRef::Event(id));
        let order = self.order();
        assert(order == b + e);
        assert forall|i: int, j: int| 0 <= i < order.len() && 0 <= j < order.len() && i != j implies order[i]
            != order[j] by {
            if i < b.len() && j < b.len() {
                assert(bg[i] != bg[j]);
            } else if i >= b.len() && j >= b.len() {
                assert(ev[i - b.len()] != ev[j - b.len()]);
            }
        }
        assert forall|i: int| 0 <= i < order.len() implies match #[trigger] order[i] {
            TaskRef::Background(id) => self.spec_registry().background().contains_key(id),
            TaskRef::Event(id) => self.spec_registry().events().contains_key(id),
        } by {
            if i < b.len() {
                assert(bg.to_set().contains(bg[i]));
            } else {
                assert(ev.to_set().contains(ev[i - b.len()]));
            }
        }
        assert forall|id: TaskId| #[trigger]
            self.spec_registry().background().contains_key(id) implies order.contains(
            TaskRef::Background(id),
        ) by {
            assert(bg.to_set().contains(id));
            let i = choose|i: int| 0 <= i < bg.len() && bg[i] == id;
            assert(order[i] == TaskRef::Background(id));
        }
        assert forall|id: TaskId| #[trigger] self.spec_registry().events().contains_key(id) implies order.contains(
            TaskRef::Event(id),
        ) by {
            assert(ev.to_set().contains(id));
            let i = choose|i: int| 0 <= i < ev.len() && ev[i] == id;
            assert(order[b.len() + i] == TaskRef::Event(id));
        }
    }
}

/// Listing a fresh identifier keeps the list free of repeats, and its set
/// grows by that identifier.
proof fn lemma_push_fresh(ids: Seq<TaskId>, id: TaskId)
    requires
        ids.no_duplicates(),
        !ids.to_set().contains(id),
    ensures
        ids.push(id).no_duplicates(),
        ids.push(id).to_set() == ids.to_set().insert(id),
{
    let s = ids.push(id);
    assert forall|i: int, j: int| 0 <= i < s.len() && 0 <= j < s.len() && i != j implies s[i] != s[j] by {
        if i < ids.len() && j < ids.len() {
            assert(s[i] == ids[i] && s[j] == ids[j]);
        } else if i < ids.len() {
            assert(ids.to_set().contains(ids[i]));
        } else {
            assert(ids.to_set().contains(ids[j]));
        }
    }
    assert(s.to_set() =~= ids.to_set().insert(id)) by {
        assert forall|x: TaskId| s.to_set().contains(x) implies ids.to_set().insert(id).contains(x) by {
            let i = choose|i: int| 0 <= i < s.len() && s[i] == x;
            if i < ids.len() {
                assert(ids[i] == x);
            }
        }
        assert forall|x: TaskId| ids.to_set().insert(id).contains(x) implies s.to_set().contains(x) by {
            if x == id {
                assert(s[ids.len() as int] == x);
            } else {
                let i = choose|i: int| 0 <= i < ids.len() && ids[i] == x;
                assert(s[i] == x);
            }
        }
    }
}

} // verus!
