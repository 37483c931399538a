use vstd::prelude::*;

verus! {

/// A kind of event that the event bus has a channel for.
pub trait EventType: Sized + Clone + Eq + core::hash::Hash + Send + Sync {
    /// The name of the event, as it appears in messages; the event bus
    /// names an event it has no channel for by what this returns.
    fn label(&self) -> String;

    /// Whether two events are the same event.
    fn same_event(&self, other: &Self) -> (same: bool)
        ensures
            same == (*self == *other),
    ;
}

} // verus!
