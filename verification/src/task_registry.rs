use vstd::prelude::*;

use std::collections::HashMap;

use crate::task_id::TaskId;

verus! {

/// The tasks stored under the numbers of their identifiers, by identifier.
pub open spec fn tasks_by_id<T>(tasks: Map<u64, T>) -> Map<TaskId, T> {
    Map::new(|id: TaskId| tasks.contains_key(id.spec_value()), |id: TaskId| tasks[id.spec_value()])
}

/// Storing a task under a number stores it under the identifier with that
/// number.
proof fn lemma_store_task<T>(tasks: Map<u64, T>, id: TaskId, task: T)
    ensures
        tasks_by_id(tasks.insert(id.spec_value(), task)) == tasks_by_id(tasks).insert(id, task),
{
    assert forall|other: TaskId| #[trigger] tasks_by_id(tasks.insert(id.spec_value(), task)).contains_key(other)
        == tasks_by_id(tasks).insert(id, task).contains_key(other) by {
        TaskId::lemma_same_value(other, id);
    }
    assert forall|other: TaskId| #[trigger] tasks_by_id(tasks.insert(id.spec_value(), task)).contains_key(
        other,
    ) implies tasks_by_id(tasks.insert(id.spec_value(), task))[other] == tasks_by_id(tasks).insert(
        id,
        task,
    )[other] by {
        TaskId::lemma_same_value(other, id);
    }
    assert(tasks_by_id(tasks.insert(id.spec_value(), task)) =~= tasks_by_id(tasks).insert(id, task));
}

/// The background tasks and the event tasks, each stored under an identifier
/// that no other task has. `B` is the handle of a background task and `V`
/// that of an event task.
#[verifier::reject_recursive_types(B)]
#[verifier::reject_recursive_types(V)]
pub struct TaskRegistry<B, V> {
    background_tasks: HashMap<u64, B>,
    event_tasks: HashMap<u64, V>,
    next_id: u64,
}

impl<B, V> TaskRegistry<B, V> {
    /// Every stored number was handed out, and no number holds both a
    /// background task and an event task.
    pub closed spec fn wf(&self) -> bool {
        &&& forall|k: u64| #[trigger] self.background_tasks@.contains_key(k) ==> k < self.next_id
        &&& forall|k: u64| #[trigger] self.event_tasks@.contains_key(k) ==> k < self.next_id
        &&& forall|k: u64|
            !(#[trigger] self.background_tasks@.contains_key(k) && #[trigger] self.event_tasks@.contains_key(k))
    }

    /// The background tasks by identifier.
    pub closed spec fn background(&self) -> Map<TaskId, B> {
        tasks_by_id(self.background_tasks@)
    }

    /// The event tasks by identifier.
    pub closed spec fn events(&self) -> Map<TaskId, V> {
        tasks_by_id(self.event_tasks@)
    }

    /// Whether an identifier is left for another task.
    pub open spec fn can_register(&self) -> bool {
        self.spec_next_id() < u64::MAX
    }

    pub fn new() -> (registry: Self)
        ensures
            registry.wf(),
            registry.spec_next_id() == 0,
            registry.background() == Map::<TaskId, B>::empty(),
            registry.events() == Map::<TaskId, V>::empty(),
    {
        let registry = TaskRegistry { background_tasks: HashMap::new(), event_tasks: HashMap::new(), next_id: 0 };
        assert(registry.background() =~= Map::<TaskId, B>::empty());
        assert(registry.events() =~= Map::<TaskId, V>::empty());
        registry
    }

    /// Whether an identifier is left for another task.
    pub fn has_free_id(&self) -> (free: bool)
        ensures
            free == self.can_register(),
    {
        self.next_id < u64::MAX
    }

    pub fn register_background_task(&mut self, task: B) -> (id: TaskId)
        requires
            old(self).wf(),
            old(self).can_register(),
        ensures
            final(self).wf(),
            !old(self).background().contains_key(id),
            !old(self).events().contains_key(id),
            final(self).background() == old(self).background().insert(id, task),
            final(self).events() == old(self).events(),
            final(self).spec_next_id() == old(self).spec_next_id() + 1,
    {
        broadcast use vstd::std_specs::hash::group_hash_axioms;

        let id = TaskId::from_value(self.next_id);
        let ghost before = self.background_tasks@;
        self.background_tasks.insert(self.next_id, task);
        self.next_id = self.next_id + 1;
        proof {
            lemma_store_task(before, id, task);
        }
        id
    }

    pub fn register_event_task(&mut self, task: V) -> (id: TaskId)
        requires
            old(self).wf(),
            old(self).can_register(),
        ensures
            final(self).wf(),
            !old(self).background().contains_key(id),
            !old(self).events().contains_key(id),
            final(self).events() == old(self).events().insert(id, task),
            final(self).background() == old(self).background(),
            final(self).spec_next_id() == old(self).spec_next_id() + 1,
    {
        broadcast use vstd::std_specs::hash::group_hash_axioms;

        let id = TaskId::from_value(self.next_id);
        let ghost before = self.event_tasks@;
        self.event_tasks.insert(self.next_id, task);
        self.next_id = self.next_id + 1;
        proof {
            lemma_store_task(before, id, task);
        }
        id
    }

    /// The number of identifiers handed out so far.
    pub closed spec fn spec_next_id(&self) -> u64 {
        self.next_id
    }

    pub fn get_background_task(&self, id: &TaskId) -> (task: Option<&B>)
        requires
            self.wf(),
        ensures
            match task {
                Some(t) => self.background().contains_key(*id) && *t == self.background()[*id],
                None => !self.background().contains_key(*id),
            },
    {
        broadcast use vstd::std_specs::hash::group_hash_axioms;

        self.background_tasks.get(&id.value())
    }

    pub fn get_event_task(&self, id: &TaskId) -> (task: Option<&V>)
        requires
            self.wf(),
        ensures
            match task {
                Some(t) => self.events().contains_key(*id) && *t == self.events()[*id],
                None => !self.events().contains_key(*id),
            },
    {
        broadcast use vstd::std_specs::hash::group_hash_axioms;

        self.event_tasks.get(&id.value())
    }
}

/// An identifier is left for another task as long as fewer than `u64::MAX`
/// were handed out, however many tasks are registered.
pub proof fn lemma_ids_left<B, V>(registry: TaskRegistry<B, V>)
    ensures
        registry.spec_next_id() < u64::MAX ==> registry.can_register(),
{
}

/// A registered task is found under its identifier, no other task is
/// found there, and the tasks registered before it are found as before.
pub proof fn lemma_register_then_get<T>(tasks: Map<TaskId, T>, id: TaskId, task: T, other: TaskId)
    requires
        !tasks.contains_key(id),
        other != id,
    ensures
        tasks.insert(id, task).contains_key(id),
        tasks.insert(id, task)[id] == task,
        tasks.insert(id, task).contains_key(other) == tasks.contains_key(other),
        tasks.contains_key(other) ==> tasks.insert(id, task)[other] == tasks[other],
        tasks.insert(id, task).len() == tasks.len() + 1 || !tasks.dom().finite(),
{
    if tasks.dom().finite() {
        assert(tasks.insert(id, task).dom() == tasks.dom().insert(id));
    }
}

impl<B, V> Default for TaskRegistry<B, V> {
    fn default() -> (registry: Self)
        ensures
            registry.wf(),
            registry.spec_next_id() == 0,
            registry.background() == Map::<TaskId, B>::empty(),
            registry.events() == Map::<TaskId, V>::empty(),
    {
        Self::new()
    }
}

} // verus!
