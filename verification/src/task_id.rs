use vstd::prelude::*;

verus! {

/// The identifier under which a task is registered.
#[derive(Debug, Clone, Copy, PartialEq, Eq, Hash, Structural)]
pub struct TaskId {
    value: u64,
}

impl TaskId {
    /// The number behind the identifier.
    pub closed spec fn spec_value(&self) -> u64 {
        self.value
    }

    /// Two identifiers are the same exactly when their numbers are.
    pub proof fn lemma_same_value(a: TaskId, b: TaskId)
        ensures
            a.spec_value() == b.spec_value() <==> a == b,
    {
    }

    pub fn from_value(value: u64) -> (id: Self)
        ensures
            id.spec_value() == value,
    {
        TaskId { value }
    }

    pub fn value(&self) -> (v: u64)
        ensures
            v == self.spec_value(),
    {
        self.value
    }
}

} // verus!
