use vstd::prelude::*;

use tokio::sync::broadcast::{Receiver, Sender};

use crate::channel_config::ChannelConfig;
use crate::error::OrchestratorError;
use crate::types::EventType;

verus! {

#[verifier::external_type_specification]
#[verifier::external_body]
#[verifier::reject_recursive_types(T)]
pub struct ExBroadcastSender<T>(Sender<T>);

#[verifier::external_type_specification]
#[verifier::external_body]
#[verifier::reject_recursive_types(T)]
pub struct ExBroadcastReceiver<T>(Receiver<T>);

/// The capacities that a broadcast channel can be opened with.
pub open spec fn valid_capacity(capacity: usize) -> bool {
    0 < capacity <= usize::MAX / 2
}

/// An open broadcast channel: its sender, and the capacity it was opened
/// with.
#[verifier::reject_recursive_types(M)]
pub struct Channel<M> {
    sender: Sender<M>,
    capacity: Ghost<usize>,
}

impl<M> Channel<M> {
    /// The sender that the channel keeps.
    pub closed spec fn spec_sender(&self) -> Sender<M> {
        self.sender
    }

    /// The capacity the channel was opened with.
    pub closed spec fn spec_capacity(&self) -> usize {
        self.capacity@
    }
}

/// A receiver of a broadcast channel, and the sender it was subscribed
/// through.
#[verifier::reject_recursive_types(M)]
pub struct ChannelReceiver<M> {
    receiver: Receiver<M>,
    source: Ghost<Sender<M>>,
}

impl<M> ChannelReceiver<M> {
    /// The sender whose channel the receiver listens to.
    pub closed spec fn source(&self) -> Sender<M> {
        self.source@
    }

    /// The tokio receiver.
    pub fn into_receiver(self) -> Receiver<M> {
        self.receiver
    }
}

/// Calls `tokio::sync::broadcast::channel` with `capacity` and keeps its
/// sending half, with the capacity it was asked for; the receiving half is
/// dropped. The call panics on a capacity of zero or above `usize::MAX / 2`,
/// which `requires` leaves out; it also allocates room for the capacity
/// rounded up to a power of two, and a failed allocation aborts, which
/// nothing here can rule out. Of the channel, only the capacity asked for is
/// stated.
#[verifier::external_body]
fn open_channel<M: Clone>(capacity: usize) -> (channel: Channel<M>)
    requires
        valid_capacity(capacity),
    ensures
        channel.spec_capacity() == capacity,
{
    Channel { sender: tokio::sync::broadcast::channel(capacity).0, capacity: Ghost(capacity) }
}

/// Calls `Sender::subscribe` of tokio's broadcast channel: a new receiver of
/// the channel of `sender` (tokio builds it from the state that the sender
/// shares), stated by recording `sender` as its source. Tokio panics once a
/// channel has `usize::MAX >> 2` receivers, a count that `requires` cannot
/// speak of.
#[verifier::external_body]
fn subscribe_to<M>(sender: &Sender<M>) -> (receiver: ChannelReceiver<M>)
    ensures
        receiver.source() == *sender,
{
    ChannelReceiver { receiver: sender.subscribe(), source: Ghost(*sender) }
}

/// Calls `Clone::clone` of tokio's broadcast `Sender`, which shares the
/// sender's channel state: the copy is stated equal to the sender.
#[verifier::external_body]
fn copy_sender<M>(sender: &Sender<M>) -> (copy: Sender<M>)
    ensures
        copy == *sender,
{
    sender.clone()
}

/// The events that a list of channel configurations names.
pub open spec fn configured_events<E>(configs: Seq<(E, ChannelConfig)>) -> Set<E> {
    configs.map_values(|c: (E, ChannelConfig)| c.0).to_set()
}

/// The channels are those of the first `n` configurations: each channel
/// stands for the event of a configuration, no event has two channels,
/// every configured event has one, and it was opened with the latest
/// configuration of its event.
spec fn channels_cover<E, M>(
    configs: Seq<(E, ChannelConfig)>,
    channels: Seq<(usize, Channel<M>)>,
    n: int,
) -> bool {
    &&& 0 <= n <= configs.len()
    &&& forall|k: int| 0 <= k < channels.len() ==> (#[trigger] channels[k]).0 < n
    &&& forall|k: int, l: int|
        0 <= k < channels.len() && 0 <= l < channels.len() && k != l ==> configs[(
        #[trigger] channels[k]).0 as int].0 != configs[(#[trigger] channels[l]).0 as int].0
    &&& forall|i: int| 0 <= i < n ==> has_channel(configs, channels, #[trigger] configs[i].0)
    &&& forall|k: int, i: int|
        0 <= k < channels.len() && 0 <= i < n && #[trigger] configs[i].0 == configs[(
        #[trigger] channels[k]).0 as int].0 ==> i <= channels[k].0
}

/// Some channel stands for `event`.
spec fn has_channel<E, M>(
    configs: Seq<(E, ChannelConfig)>,
    channels: Seq<(usize, Channel<M>)>,
    event: E,
) -> bool {
    exists|k: int| 0 <= k < channels.len() && configs[(#[trigger] channels[k]).0 as int].0 == event
}

/// Each channel was opened with the capacity of the configuration it stands
/// for.
spec fn capacities_match<E, M>(configs: Seq<(E, ChannelConfig)>, channels: Seq<(usize, Channel<M>)>) -> bool {
    forall|k: int|
        0 <= k < channels.len() && (#[trigger] channels[k]).0 < configs.len() ==> channels[k].1.spec_capacity()
            == configs[channels[k].0 as int].1.spec_capacity()
}

/// The position of the channel that stands for `event`.
spec fn channel_index<E, M>(
    configs: Seq<(E, ChannelConfig)>,
    channels: Seq<(usize, Channel<M>)>,
    event: E,
) -> int {
    choose|k: int| 0 <= k < channels.len() && configs[(#[trigger] channels[k]).0 as int].0 == event
}

/// The capacity of the latest configuration of `event`, or zero if it has
/// none.
pub open spec fn latest_capacity<E>(configs: Seq<(E, ChannelConfig)>, event: E) -> usize
    decreases configs.len(),
{
    if configs.len() == 0 {
        0
    } else if configs.last().0 == event {
        configs.last().1.spec_capacity()
    } else {
        latest_capacity(configs.drop_last(), event)
    }
}

/// One broadcast channel for each configured event.
#[verifier::reject_recursive_types(M)]
pub struct EventBus<E, M> {
    configs: Vec<(E, ChannelConfig)>,
    channels: Vec<(usize, Channel<M>)>,
}

impl<E: EventType, M: Clone> EventBus<E, M> {
    pub closed spec fn wf(&self) -> bool {
        &&& channels_cover(self.configs@, self.channels@, self.configs@.len() as int)
        &&& capacities_match(self.configs@, self.channels@)
    }

    /// The sender of the channel of `event`.
    pub closed spec fn sender_of(&self, event: E) -> Sender<M> {
        self.channels@[channel_index(self.configs@, self.channels@, event)].1.spec_sender()
    }

    /// The capacity that the channel of `event` was opened with.
    pub closed spec fn capacity_of(&self, event: E) -> usize {
        self.channels@[channel_index(self.configs@, self.channels@, event)].1.spec_capacity()
    }

    /// Each event's channel was opened with the capacity of that event's
    /// latest configuration.
    pub proof fn lemma_channel_capacities(&self)
        requires
            self.wf(),
        ensures
            forall|e: E| #[trigger]
                self.events().contains(e) ==> self.capacity_of(e) == latest_capacity(self.configs(), e),
    {
        assert forall|e: E| #[trigger] self.events().contains(e) implies self.capacity_of(e)
            == latest_capacity(self.configs(), e) by {
            lemma_events_have_channels(self.configs@, self.channels@, e);
            let k = choose|k: int|
                0 <= k < self.channels@.len() && self.configs@[(
                #[trigger] self.channels@[k]).0 as int].0 == e;
            lemma_channel_index(self.configs@, self.channels@, k);
            let i = self.channels@[k].0 as int;
            assert forall|j: int| i < j < self.configs@.len() implies self.configs@[j].0 != e by {
                if self.configs@[j].0 == e {
                    assert(self.configs@[j].0 == self.configs@[(self.channels@[k]).0 as int].0);
                }
            }
            lemma_latest_capacity(self.configs@, e, i);
        }
    }

    /// Every channel configuration given, in order.
    pub closed spec fn configs(&self) -> Seq<(E, ChannelConfig)> {
        self.configs@
    }

    /// The events that have a channel.
    pub open spec fn events(&self) -> Set<E> {
        configured_events(self.configs())
    }

    /// Opens a channel for each event of `configs`; where an event is
    /// configured twice, its channel follows the later configuration.
    pub fn new(configs: Vec<(E, ChannelConfig)>) -> (bus: Self)
        requires
            forall|i: int|
                0 <= i < configs@.len() ==> valid_capacity((#[trigger] configs@[i]).1.spec_capacity()),
        ensures
            bus.wf(),
            bus.configs() == configs@,
            forall|e: E| #[trigger]
                bus.events().contains(e) ==> bus.capacity_of(e) == latest_capacity(configs@, e),
    {
        let mut channels: Vec<(usize, Channel<M>)> = Vec::new();
        let mut i: usize = 0;
        while i < configs.len()
            invariant
                i <= configs@.len(),
                channels_cover(configs@, channels@, i as int),
                capacities_match(configs@, channels@),
                forall|j: int|
                    0 <= j < configs@.len() ==> valid_capacity(
                        (#[trigger] configs@[j]).1.spec_capacity(),
                    ),
            decreases configs@.len() - i,
        {
            let channel = open_channel(configs[i].1.capacity());
            install(&mut channels, &configs, i, channel);
            i = i + 1;
        }
        let bus = EventBus { configs, channels };
        proof {
            bus.lemma_channel_capacities();
        }
        bus
    }

    /// Adds a channel for `event`, replacing any channel it had.
    pub fn add_channel(self, event: E, config: ChannelConfig) -> (bus: Self)
        requires
            self.wf(),
            valid_capacity(config.spec_capacity()),
        ensures
            bus.wf(),
            bus.configs() == self.configs().push((event, config)),
            forall|e: E| #[trigger]
                bus.events().contains(e) ==> bus.capacity_of(e) == latest_capacity(bus.configs(), e),
            bus.capacity_of(event) == config.spec_capacity(),
            forall|e: E| #[trigger]
                self.events().contains(e) && e != event ==> bus.sender_of(e) == self.sender_of(e)
                    && bus.capacity_of(e) == self.capacity_of(e),
    {
        let ghost old_bus = self;
        let EventBus { mut configs, mut channels } = self;
        let ghost before = configs@;
        let capacity = config.capacity();
        let n = configs.len();
        configs.push((event, config));
        proof {
            lemma_cover_after_push(before, configs@, channels@);
            assert(capacities_match(configs@, channels@)) by {
                assert forall|k: int|
                    0 <= k < channels@.len() && (#[trigger] channels@[k]).0 < configs@.len() implies channels@[k].1.spec_capacity()
                    == configs@[channels@[k].0 as int].1.spec_capacity() by {
                    assert(configs@[channels@[k].0 as int] == before[channels@[k].0 as int]);
                }
            }
        }
        let ghost old_channels = channels@;
        let channel = open_channel(capacity);
        install(&mut channels, &configs, n, channel);
        let bus = EventBus { configs, channels };
        proof {
            bus.lemma_channel_capacities();
            lemma_added_channel_events(before, event, config);
            assert(bus.configs().last() == (event, config));
            assert(latest_capacity(bus.configs(), event) == config.spec_capacity());
            assert forall|e: E| #[trigger]
                old_bus.events().contains(e) && e != event implies bus.sender_of(e) == old_bus.sender_of(e)
                && bus.capacity_of(e) == old_bus.capacity_of(e) by {
                lemma_events_have_channels(before, old_channels, e);
                let k = choose|k: int|
                    0 <= k < old_channels.len() && before[(#[trigger] old_channels[k]).0 as int].0 == e;
                lemma_channel_index(before, old_channels, k);
                assert(bus.configs@[old_channels[k].0 as int] == before[old_channels[k].0 as int]);
                assert(bus.channels@[k] == old_channels[k]);
                lemma_channel_index(bus.configs@, bus.channels@, k);
            }
        }
        bus
    }

    /// The position of the channel of `event`, if it has one.
    fn find_channel(&self, event: &E) -> (found: Option<usize>)
        requires
            self.wf(),
        ensures
            match found {
                Some(k) => k < self.channels@.len() && self.configs@[self.channels@[k as int].0 as int].0
                    == *event,
                None => !self.events().contains(*event),
            },
    {
        let found = find_event(&self.channels, &self.configs, event);
        proof {
            if found is None && self.events().contains(*event) {
                lemma_events_have_channels(self.configs@, self.channels@, *event);
            }
        }
        found
    }

    /// A receiver of the channel of `channel_event`.
    pub fn subscribe(&self, channel_event: &E) -> (result: Result<ChannelReceiver<M>, OrchestratorError>)
        requires
            self.wf(),
        ensures
            result is Ok <==> self.events().contains(*channel_event),
            result matches Ok(receiver) ==> receiver.source() == self.sender_of(*channel_event),
            result matches Err(e) ==> e matches OrchestratorError::InvalidChannel(name)
                && call_ensures(E::label, (channel_event,), name),
    {
        match self.find_channel(channel_event) {
            Some(k) => {
                proof {
                    lemma_channel_event_configured(self.configs@, self.channels@, k as int);
                    lemma_channel_index(self.configs@, self.channels@, k as int);
                }
                Ok(subscribe_to(&self.channels[k].1.sender))
            },
            None => Err(OrchestratorError::InvalidChannel(channel_event.label())),
        }
    }

    /// Another sender of the channel of `channel_event`.
    pub fn clone_sender(&self, channel_event: &E) -> (result: Result<Sender<M>, OrchestratorError>)
        requires
            self.wf(),
        ensures
            result is Ok <==> self.events().contains(*channel_event),
            result matches Ok(sender) ==> sender == self.sender_of(*channel_event),
            result matches Err(e) ==> e matches OrchestratorError::InvalidChannel(name)
                && call_ensures(E::label, (channel_event,), name),
    {
        match self.find_channel(channel_event) {
            Some(k) => {
                proof {
                    lemma_channel_event_configured(self.configs@, self.channels@, k as int);
                    lemma_channel_index(self.configs@, self.channels@, k as int);
                }
                Ok(copy_sender(&self.channels[k].1.sender))
            },
            None => Err(OrchestratorError::InvalidChannel(channel_event.label())),
        }
    }

    /// The number of channels: one per configured event.
    pub fn channel_count(&self) -> (count: usize)
        requires
            self.wf(),
        ensures
            count == self.events().len(),
    {
        proof {
            lemma_channel_count(self.configs@, self.channels@);
        }
        self.channels.len()
    }

    /// Every channel configuration given, in order.
    pub fn channels(&self) -> (configs: &Vec<(E, ChannelConfig)>)
        ensures
            configs@ == self.configs(),
    {
        &self.configs
    }
}

/// The position of the channel whose event is `event`.
fn find_event<E: EventType, M>(
    channels: &Vec<(usize, Channel<M>)>,
    configs: &Vec<(E, ChannelConfig)>,
    event: &E,
) -> (found: Option<usize>)
    requires
        forall|k: int| 0 <= k < channels@.len() ==> (#[trigger] channels@[k]).0 < configs@.len(),
    ensures
        match found {
            Some(k) => k < channels@.len() && configs@[channels@[k as int].0 as int].0 == *event,
            None => forall|k: int|
                0 <= k < channels@.len() ==> configs@[(#[trigger] channels@[k]).0 as int].0 != *event,
        },
{
    let mut k: usize = 0;
    while k < channels.len()
        invariant
            k <= channels@.len(),
            forall|l: int| 0 <= l < channels@.len() ==> (#[trigger] channels@[l]).0 < configs@.len(),
            forall|l: int| 0 <= l < k ==> configs@[(#[trigger] channels@[l]).0 as int].0 != *event,
        decreases channels@.len() - k,
    {
        if configs[channels[k].0].0.same_event(event) {
            return Some(k);
        }
        k = k + 1;
    }
    None
}

/// Opens the channel of configuration `i` for its event, in place of the
/// channel the event had.
fn install<E: EventType, M>(
    channels: &mut Vec<(usize, Channel<M>)>,
    configs: &Vec<(E, ChannelConfig)>,
    i: usize,
    channel: Channel<M>,
)
    requires
        i < configs@.len(),
        channels_cover(configs@, old(channels)@, i as int),
        capacities_match(configs@, old(channels)@),
        channel.spec_capacity() == configs@[i as int].1.spec_capacity(),
    ensures
        channels_cover(configs@, final(channels)@, i + 1),
        capacities_match(configs@, final(channels)@),
        final(channels)@.len() >= old(channels)@.len(),
        forall|k: int|
            0 <= k < old(channels)@.len() && configs@[(#[trigger] old(channels)@[k]).0 as int].0
                != configs@[i as int].0 ==> final(channels)@[k] == old(channels)@[k],
{
    let ghost before = channels@;
    match find_event(channels, configs, &configs[i].0) {
        Some(k) => {
            channels.set(k, (i, channel));
            proof {
                let after = channels@;
                assert forall|l: int| 0 <= l < after.len() && l != k implies after[l] == before[l] by {}
                assert forall|a: int, b: int|
                    0 <= a < after.len() && 0 <= b < after.len() && a != b implies configs@[(
                    #[trigger] after[a]).0 as int].0 != configs@[(#[trigger] after[b]).0 as int].0 by {
                    assert(configs@[before[k as int].0 as int].0 == configs@[i as int].0);
                    if a != k && b != k {
                        assert(after[a] == before[a] && after[b] == before[b]);
                    } else if a == k {
                        assert(after[b] == before[b]);
                    } else {
                        assert(after[a] == before[a]);
                    }
                }
                assert forall|j: int| 0 <= j < i + 1 implies has_channel(
                    configs@,
                    after,
                    #[trigger] configs@[j].0,
                ) by {
                    if j == i {
                        assert(configs@[after[k as int].0 as int].0 == configs@[j].0);
                    } else {
                        assert(has_channel(configs@, before, configs@[j].0));
                        let l = choose|l: int|
                            0 <= l < before.len() && configs@[(#[trigger] before[l]).0 as int].0
                                == configs@[j].0;
                        if l == k {
                            assert(configs@[after[k as int].0 as int].0 == configs@[j].0);
                        } else {
                            assert(after[l] == before[l]);
                        }
                    }
                }
                assert forall|l: int, j: int|
                    0 <= l < after.len() && 0 <= j < i + 1 && #[trigger] configs@[j].0 == configs@[(
                    #[trigger] after[l]).0 as int].0 implies j <= after[l].0 by {
                    if l != k {
                        assert(after[l] == before[l]);
                        if j == i {
                            assert(configs@[before[k as int].0 as int].0 == configs@[i as int].0);
                            assert(configs@[before[l].0 as int].0 == configs@[before[k as int].0 as int].0);
                        }
                    }
                }
            }
        },
        None => {
            channels.push((i, channel));
            proof {
                let after = channels@;
                let n = before.len() as int;
                assert forall|l: int| 0 <= l < n implies after[l] == before[l] by {}
                assert forall|a: int, b: int|
                    0 <= a < after.len() && 0 <= b < after.len() && a != b implies configs@[(
                    #[trigger] after[a]).0 as int].0 != configs@[(#[trigger] after[b]).0 as int].0 by {
                    if a < n && b < n {
                        assert(after[a] == before[a] && after[b] == before[b]);
                    } else if a < n {
                        assert(after[a] == before[a]);
                    } else {
                        assert(after[b] == before[b]);
                    }
                }
                assert forall|j: int| 0 <= j < i + 1 implies has_channel(
                    configs@,
                    after,
                    #[trigger] configs@[j].0,
                ) by {
                    if j == i {
                        assert(configs@[after[n].0 as int].0 == configs@[j].0);
                    } else {
                        assert(has_channel(configs@, before, configs@[j].0));
                        let l = choose|l: int|
                            0 <= l < before.len() && configs@[(#[trigger] before[l]).0 as int].0
                                == configs@[j].0;
                        assert(after[l] == before[l]);
                    }
                }
                assert forall|l: int, j: int|
                    0 <= l < after.len() && 0 <= j < i + 1 && #[trigger] configs@[j].0 == configs@[(
                    #[trigger] after[l]).0 as int].0 implies j <= after[l].0 by {
                    if l < n {
                        assert(after[l] == before[l]);
                        if j == i {
                            assert(configs@[before[l].0 as int].0 != configs@[i as int].0);
                        }
                    }
                }
            }
        },
    }
}

/// Adding a channel configuration gives its event a channel and keeps the
/// channels of every other event.
pub proof fn lemma_added_channel_events<E>(configs: Seq<(E, ChannelConfig)>, event: E, config: ChannelConfig)
    ensures
        configured_events(configs.push((event, config))) == configured_events(configs).insert(event),
{
    let before = configs.map_values(|c: (E, ChannelConfig)| c.0);
    let after = configs.push((event, config)).map_values(|c: (E, ChannelConfig)| c.0);
    assert(after =~= before.push(event));
    before.lemma_push_to_set_commute(event);
}

/// The channel that stands for an event is the one found at its position.
proof fn lemma_channel_index<E, M>(
    configs: Seq<(E, ChannelConfig)>,
    channels: Seq<(usize, Channel<M>)>,
    k: int,
)
    requires
        channels_cover(configs, channels, configs.len() as int),
        0 <= k < channels.len(),
    ensures
        channel_index(configs, channels, configs[channels[k].0 as int].0) == k,
{
    let e = configs[channels[k].0 as int].0;
    assert(0 <= k < channels.len() && configs[(channels[k]).0 as int].0 == e);
    let j = channel_index(configs, channels, e);
    if j != k {
        assert(configs[(channels[j]).0 as int].0 != configs[(channels[k]).0 as int].0);
    }
}

/// Where configuration `i` is the last one of `event`, the latest capacity
/// of `event` is its capacity.
proof fn lemma_latest_capacity<E>(configs: Seq<(E, ChannelConfig)>, event: E, i: int)
    requires
        0 <= i < configs.len(),
        configs[i].0 == event,
        forall|j: int| i < j < configs.len() ==> configs[j].0 != event,
    ensures
        latest_capacity(configs, event) == configs[i].1.spec_capacity(),
    decreases configs.len(),
{
    if i < configs.len() - 1 {
        let t = configs.drop_last();
        assert(configs.last().0 != event);
        assert forall|j: int| i < j < t.len() implies t[j].0 != event by {
            assert(t[j] == configs[j]);
        }
        lemma_latest_capacity(t, event, i);
    }
}

/// Adding a configuration leaves the channels covering the earlier ones.
proof fn lemma_cover_after_push<E, M>(
    before: Seq<(E, ChannelConfig)>,
    after: Seq<(E, ChannelConfig)>,
    channels: Seq<(usize, Channel<M>)>,
)
    requires
        channels_cover(before, channels, before.len() as int),
        after.len() == before.len() + 1,
        forall|i: int| 0 <= i < before.len() ==> after[i] == before[i],
    ensures
        channels_cover(after, channels, before.len() as int),
{
    let n = before.len() as int;
    assert forall|k: int| 0 <= k < channels.len() implies after[(#[trigger] channels[k]).0 as int]
        == before[channels[k].0 as int] by {}
    assert forall|k: int, l: int|
        0 <= k < channels.len() && 0 <= l < channels.len() && k != l implies after[(
        #[trigger] channels[k]).0 as int].0 != after[(#[trigger] channels[l]).0 as int].0 by {
        assert(after[channels[k].0 as int] == before[channels[k].0 as int]);
        assert(after[channels[l].0 as int] == before[channels[l].0 as int]);
    }
    assert forall|i: int| 0 <= i < n implies has_channel(after, channels, #[trigger] after[i].0) by {
        assert(has_channel(before, channels, before[i].0));
        let k = choose|k: int|
            0 <= k < channels.len() && before[(#[trigger] channels[k]).0 as int].0 == before[i].0;
        assert(after[channels[k].0 as int] == before[channels[k].0 as int]);
        assert(after[i] == before[i]);
        assert(after[(channels[k]).0 as int].0 == after[i].0);
    }
    assert forall|k: int, i: int|
        0 <= k < channels.len() && 0 <= i < n && #[trigger] after[i].0 == after[(
        #[trigger] channels[k]).0 as int].0 implies i <= channels[k].0 by {
        assert(after[channels[k].0 as int] == before[channels[k].0 as int]);
        assert(after[i] == before[i]);
        assert(before[i].0 == before[channels[k].0 as int].0);
    }
}

/// A channel's event is a configured event.
proof fn lemma_channel_event_configured<E, M>(
    configs: Seq<(E, ChannelConfig)>,
    channels: Seq<(usize, Channel<M>)>,
    k: int,
)
    requires
        channels_cover(configs, channels, configs.len() as int),
        0 <= k < channels.len(),
    ensures
        configured_events(configs).contains(configs[channels[k].0 as int].0),
{
    let i = channels[k].0 as int;
    let evs = configs.map_values(|c: (E, ChannelConfig)| c.0);
    assert(evs[i] == configs[i].0);
}

/// A configured event has a channel.
proof fn lemma_events_have_channels<E, M>(
    configs: Seq<(E, ChannelConfig)>,
    channels: Seq<(usize, Channel<M>)>,
    event: E,
)
    requires
        channels_cover(configs, channels, configs.len() as int),
        configured_events(configs).contains(event),
    ensures
        has_channel(configs, channels, event),
{
    let evs = configs.map_values(|c: (E, ChannelConfig)| c.0);
    let i = choose|i: int| 0 <= i < evs.len() && evs[i] == event;
    assert(configs[i].0 == event);
}

/// There are as many channels as configured events.
proof fn lemma_channel_count<E, M>(configs: Seq<(E, ChannelConfig)>, channels: Seq<(usize, Channel<M>)>)
    requires
        channels_cover(configs, channels, configs.len() as int),
    ensures
        channels.len() == configured_events(configs).len(),
{
    let evs = channels.map_values(|c: (usize, Channel<M>)| configs[c.0 as int].0);
    assert(evs.no_duplicates()) by {
        assert forall|a: int, b: int| 0 <= a < evs.len() && 0 <= b < evs.len() && a != b implies evs[a]
            != evs[b] by {
            assert(evs[a] == configs[channels[a].0 as int].0);
            assert(evs[b] == configs[channels[b].0 as int].0);
        }
    }
    evs.unique_seq_to_set();
    assert(evs.to_set() =~= configured_events(configs)) by {
        let cevs = configs.map_values(|c: (E, ChannelConfig)| c.0);
        assert forall|e: E| evs.to_set().contains(e) implies configured_events(configs).contains(e) by {
            let a = choose|a: int| 0 <= a < evs.len() && evs[a] == e;
            assert(cevs[channels[a].0 as int] == e);
        }
        assert forall|e: E| configured_events(configs).contains(e) implies evs.to_set().contains(e) by {
            lemma_events_have_channels(configs, channels, e);
            let k = choose|k: int| 0 <= k < channels.len() && configs[(#[trigger] channels[k]).0 as int].0 == e;
            assert(evs[k] == e);
        }
    }
}

} // verus!
