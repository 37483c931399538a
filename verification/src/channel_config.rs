use vstd::prelude::*;

verus! {

/// The configuration of one broadcast channel of the event bus.
#[derive(Debug, Clone)]
pub struct ChannelConfig {
    capacity: usize,
    description: String,
}

impl ChannelConfig {
    /// The number of messages the channel holds.
    pub closed spec fn spec_capacity(&self) -> usize {
        self.capacity
    }

    /// What the channel is for.
    pub closed spec fn spec_description(&self) -> Seq<char> {
        self.description@
    }

    pub fn new(capacity: usize, description: String) -> (config: Self)
        ensures
            config.spec_capacity() == capacity,
            config.spec_description() == description@,
    {
        Self { capacity, description }
    }

    pub fn capacity(&self) -> (capacity: usize)
        ensures
            capacity == self.spec_capacity(),
    {
        self.capacity
    }
}

} // verus!
