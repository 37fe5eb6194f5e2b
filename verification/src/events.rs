//! Announcements of mutations, and the bus that carries them to those who
//! subscribed.
//!
//! The bus is a value that its owner holds; there is no bus behind the
//! scenes. Each subscriber has a buffer of its own. Publishing appends to
//! the buffers of the subscribers to the event's topic and never fails;
//! a subscriber takes events out of its buffer in the order in which they
//! were published, at its own pace, and may cancel at any time.

use vstd::prelude::*;
use crate::graphql::{CategoryChanged, ListingChanged};

verus! {

/// What announcements are about.
#[derive(Debug, Clone, Copy, PartialEq, Eq, Structural)]
pub enum Topic {
    Listings,
    Categories,
}

/// An announcement.
#[derive(Debug, Clone, Copy, PartialEq, Eq, Structural)]
pub enum Event {
    Listing(ListingChanged),
    Category(CategoryChanged),
}

impl Event {
    /// The topic of this announcement.
    pub open spec fn spec_topic(&self) -> Topic {
        match self {
            Event::Listing(_) => Topic::Listings,
            Event::Category(_) => Topic::Categories,
        }
    }

    /// The topic of this announcement.
    #[verifier::when_used_as_spec(spec_topic)]
    pub fn topic(&self) -> (topic: Topic)
        ensures
            topic == self.spec_topic(),
    {
        match self {
            Event::Listing(_) => Topic::Listings,
            Event::Category(_) => Topic::Categories,
        }
    }
}

/// What the bus holds for one subscriber.
pub struct Channel {
    /// The topic that was subscribed to.
    pub topic: Topic,
    /// The events that were published and not yet taken, oldest first.
    pub pending: Seq<Event>,
}

struct Subscriber {
    id: u64,
    topic: Topic,
    pending: Vec<Event>,
}

/// The bus: its subscribers, each with its buffer.
pub struct EventBus {
    subscribers: Vec<Subscriber>,
    next_id: u64,
}

spec fn is_member(subscribers: Seq<Subscriber>, id: u64) -> bool {
    exists|i: int| 0 <= i < subscribers.len() && subscribers[i].id == id
}

spec fn position(subscribers: Seq<Subscriber>, id: u64) -> int {
    choose|i: int| 0 <= i < subscribers.len() && subscribers[i].id == id
}

spec fn distinct(subscribers: Seq<Subscriber>) -> bool {
    forall|i: int, j: int|
        0 <= i < j < subscribers.len() ==> subscribers[i].id != subscribers[j].id
}

spec fn channels(subscribers: Seq<Subscriber>) -> Map<u64, Channel> {
    Map::new(
        |id: u64| is_member(subscribers, id),
        |id: u64|
            Channel {
                topic: subscribers[position(subscribers, id)].topic,
                pending: subscribers[position(subscribers, id)].pending@,
            },
    )
}

/// The channel after `event` was published: the event is pending behind
/// what was pending, if the channel is on the event's topic.
pub open spec fn delivered(channel: Channel, event: Event) -> Channel {
    if channel.topic == event.spec_topic() {
        Channel { topic: channel.topic, pending: channel.pending.push(event) }
    } else {
        channel
    }
}

/// The channel after its oldest pending event was taken.
pub open spec fn taken(channel: Channel) -> Channel {
    Channel { topic: channel.topic, pending: channel.pending.drop_first() }
}

proof fn lemma_position(subscribers: Seq<Subscriber>, i: int)
    requires
        distinct(subscribers),
        0 <= i < subscribers.len(),
    ensures
        is_member(subscribers, subscribers[i].id),
        position(subscribers, subscribers[i].id) == i,
{
}

proof fn lemma_member(subscribers: Seq<Subscriber>, id: u64)
    requires
        is_member(subscribers, id),
    ensures
        0 <= position(subscribers, id) < subscribers.len(),
        subscribers[position(subscribers, id)].id == id,
{
}

impl EventBus {
    #[verifier::type_invariant]
    spec fn well_formed(self) -> bool {
        &&& distinct(self.subscribers@)
        &&& forall|i: int|
            0 <= i < self.subscribers@.len() ==> (#[trigger] self.subscribers@[i]).id < self.next_id
    }

    /// The subscribers of the bus by their identifiers, each with its topic
    /// and with what is pending for it.
    pub closed spec fn view(self) -> Map<u64, Channel> {
        channels(self.subscribers@)
    }

    /// A bus without subscribers, which has handed out no identifier yet.
    pub fn new() -> (bus: EventBus)
        ensures
            bus@ == Map::<u64, Channel>::empty(),
            bus.issued() == 0,
    {
        let bus = EventBus { subscribers: Vec::new(), next_id: 0 };
        assert(bus@ =~= Map::<u64, Channel>::empty());
        bus
    }

    /// Adds a subscriber to `topic`, with nothing pending, and hands out
    /// its identifier. Identifiers are handed out in sequence, from zero on,
    /// and none is handed out twice, so no subscriber had it before. The
    /// subscription succeeds as long as an identifier is left, which is
    /// unless `u64::MAX` of them were handed out; the bus is then left as it
    /// was.
    pub fn subscribe(&mut self, topic: Topic) -> (id: Option<u64>)
        ensures
            id is Some <==> old(self).issued() < u64::MAX,
            match id {
                Some(id) => {
                    &&& id == old(self).issued()
                    &&& !old(self)@.contains_key(id)
                    &&& final(self)@ == old(self)@.insert(
                        id,
                        Channel { topic, pending: Seq::empty() },
                    )
                    &&& final(self).issued() == old(self).issued() + 1
                },
                None => final(self)@ == old(self)@ && final(self).issued() == old(self).issued(),
            },
    {
        proof {
            use_type_invariant(&*self);
        }
        if self.next_id == u64::MAX {
            return None;
        }
        let id = self.next_id;
        let ghost before = self.subscribers@;
        let mut subscribers: Vec<Subscriber> = Vec::new();
        core::mem::swap(&mut self.subscribers, &mut subscribers);
        self.next_id = id + 1;
        subscribers.push(Subscriber { id, topic, pending: Vec::new() });
        proof {
            let after = subscribers@;
            assert(!is_member(before, id));
            assert forall|other: u64| is_member(after, other) <==> (other == id || is_member(
                before,
                other,
            )) by {
                if is_member(before, other) {
                    lemma_member(before, other);
                    assert(after[position(before, other)].id == other);
                }
                if other == id {
                    assert(after[before.len() as int].id == id);
                }
            }
            assert forall|other: u64| is_member(before, other) implies channels(after)[other]
                == channels(before)[other] by {
                lemma_member(before, other);
                lemma_position(after, position(before, other));
            }
            lemma_position(after, before.len() as int);
            assert(channels(after) =~= channels(before).insert(
                id,
                Channel { topic, pending: Seq::empty() },
            ));
        }
        core::mem::swap(&mut self.subscribers, &mut subscribers);
        Some(id)
    }

    /// Removes the subscriber `id` with what is pending for it. Says
    /// whether there was such a subscriber.
    pub fn cancel(&mut self, id: u64) -> (found: bool)
        ensures
            found == old(self)@.contains_key(id),
            final(self)@ == old(self)@.remove(id),
            final(self).issued() == old(self).issued(),
    {
        proof {
            use_type_invariant(&*self);
        }
        let ghost before = self.subscribers@;
        let at = self.position_of(id);
        match at {
            Some(i) => {
                let mut subscribers: Vec<Subscriber> = Vec::new();
                core::mem::swap(&mut self.subscribers, &mut subscribers);
                let _ = subscribers.remove(i);
                proof {
                    let after = subscribers@;
                    lemma_position(before, i as int);
                    assert forall|other: u64| is_member(after, other) <==> (other != id
                        && is_member(before, other)) by {
                        if is_member(after, other) {
                            lemma_member(after, other);
                            let k = position(after, other);
                            if k < i {
                                assert(before[k].id == other);
                            } else {
                                assert(before[k + 1].id == other);
                            }
                        }
                        if other != id && is_member(before, other) {
                            lemma_member(before, other);
                            let k = position(before, other);
                            if k < i {
                                assert(after[k].id == other);
                            } else {
                                assert(after[k - 1].id == other);
                            }
                        }
                    }
                    assert forall|other: u64| is_member(after, other) implies channels(after)[other]
                        == channels(before)[other] by {
                        lemma_member(after, other);
                        let k = position(after, other);
                        if k < i {
                            lemma_position(before, k);
                        } else {
                            lemma_position(before, k + 1);
                        }
                    }
                    assert(channels(after) =~= channels(before).remove(id));
                }
                core::mem::swap(&mut self.subscribers, &mut subscribers);
                true
            },
            None => {
                proof {
                    assert(channels(before) =~= channels(before).remove(id));
                }
                false
            },
        }
    }

    /// Where the subscriber `id` stands, if there is such a subscriber.
    fn position_of(&self, id: u64) -> (at: Option<usize>)
        ensures
            match at {
                Some(i) => i < self.subscribers@.len() && self.subscribers@[i as int].id == id
                    && is_member(self.subscribers@, id),
                None => !is_member(self.subscribers@, id),
            },
    {
        let mut i: usize = 0;
        while i < self.subscribers.len()
            invariant
                0 <= i <= self.subscribers@.len(),
                forall|k: int| 0 <= k < i ==> self.subscribers@[k].id != id,
            decreases self.subscribers@.len() - i,
        {
            if self.subscribers[i].id == id {
                return Some(i);
            }
            i += 1;
        }
        None
    }

    /// Publishes `event`: it becomes the newest pending event of every
    /// subscriber to its topic, and no other subscriber notices. Publishing
    /// cannot fail, and it waits for nobody.
    pub fn publish(&mut self, event: Event)
        ensures
            final(self)@ == old(self)@.map_values(|c: Channel| delivered(c, event)),
            final(self).issued() == old(self).issued(),
    {
        proof {
            use_type_invariant(&*self);
        }
        let ghost before = self.subscribers@;
        let ghost next_id = self.next_id;
        let topic = event.topic();
        let mut subscribers: Vec<Subscriber> = Vec::new();
        core::mem::swap(&mut self.subscribers, &mut subscribers);
        let mut i: usize = 0;
        while i < subscribers.len()
            invariant
                distinct(before),
                topic == event.spec_topic(),
                subscribers@.len() == before.len(),
                0 <= i <= before.len(),
                forall|k: int|
                    0 <= k < before.len() ==> (#[trigger] subscribers@[k]).id == before[k].id
                        && subscribers@[k].topic == before[k].topic,
                forall|k: int|
                    0 <= k < i ==> (#[trigger] subscribers@[k]).pending@ == (if before[k].topic
                        == topic {
                        before[k].pending@.push(event)
                    } else {
                        before[k].pending@
                    }),
                forall|k: int|
                    i <= k < before.len() ==> (#[trigger] subscribers@[k]).pending@
                        == before[k].pending@,
            decreases before.len() - i,
        {
            if subscribers[i].topic == topic {
                subscribers[i].pending.push(event);
            }
            i += 1;
        }
        proof {
            let after = subscribers@;
            assert(distinct(after)) by {
                assert forall|a: int, b: int| 0 <= a < b < after.len() implies after[a].id
                    != after[b].id by {
                    assert(after[a].id == before[a].id);
                    assert(after[b].id == before[b].id);
                }
            }
            assert forall|k: int| 0 <= k < after.len() implies (#[trigger] after[k]).id
                < next_id by {
                assert(after[k].id == before[k].id);
            }
            assert forall|id: u64| is_member(after, id) <==> is_member(before, id) by {
                if is_member(after, id) {
                    lemma_member(after, id);
                    assert(before[position(after, id)].id == id);
                }
                if is_member(before, id) {
                    lemma_member(before, id);
                    assert(after[position(before, id)].id == id);
                }
            }
            let f = |c: Channel| delivered(c, event);
            assert forall|id: u64| is_member(before, id) implies channels(after)[id] == f(
                channels(before)[id],
            ) by {
                lemma_member(before, id);
                let k = position(before, id);
                assert(after[k].id == id);
                lemma_position(after, k);
                assert(after[k].topic == before[k].topic);
            }
            assert(channels(after) =~= channels(before).map_values(f));
        }
        core::mem::swap(&mut self.subscribers, &mut subscribers);
    }

    /// Takes the oldest pending event of the subscriber `id`. There is none
    /// where nothing is pending or where there is no such subscriber; the
    /// bus is then left as it was. No other subscriber notices.
    pub fn take(&mut self, id: u64) -> (event: Option<Event>)
        ensures
            final(self).issued() == old(self).issued(),
            match event {
                Some(e) => {
                    &&& old(self)@.contains_key(id)
                    &&& old(self)@[id].pending.len() > 0
                    &&& e == old(self)@[id].pending[0]
                    &&& final(self)@ == old(self)@.insert(id, taken(old(self)@[id]))
                },
                None => {
                    &&& old(self)@.contains_key(id) ==> old(self)@[id].pending.len() == 0
                    &&& final(self)@ == old(self)@
                },
            },
    {
        proof {
            use_type_invariant(&*self);
        }
        let ghost before = self.subscribers@;
        let ghost next_id = self.next_id;
        let i = match self.position_of(id) {
            Some(i) => i,
            None => {
                return None;
            },
        };
        proof {
            lemma_position(before, i as int);
        }
        if self.subscribers[i].pending.len() == 0 {
            return None;
        }
        let mut subscribers: Vec<Subscriber> = Vec::new();
        core::mem::swap(&mut self.subscribers, &mut subscribers);
        let event = subscribers[i].pending.remove(0);
        proof {
            let after = subscribers@;
            assert(after.len() == before.len());
            assert forall|k: int| 0 <= k < before.len() implies (#[trigger] after[k]).id
                == before[k].id by {}
            assert(distinct(after)) by {
                assert forall|a: int, b: int| 0 <= a < b < after.len() implies after[a].id
                    != after[b].id by {
                    assert(after[a].id == before[a].id);
                    assert(after[b].id == before[b].id);
                }
            }
            assert forall|k: int| 0 <= k < after.len() implies (#[trigger] after[k]).id
                < next_id by {
                assert(after[k].id == before[k].id);
            }
            assert forall|other: u64| is_member(after, other) <==> is_member(before, other) by {
                if is_member(after, other) {
                    lemma_member(after, other);
                    assert(before[position(after, other)].id == other);
                }
                if is_member(before, other) {
                    lemma_member(before, other);
                    assert(after[position(before, other)].id == other);
                }
            }
            assert forall|other: u64| is_member(before, other) implies channels(after)[other] == (
            if other == id {
                taken(channels(before)[id])
            } else {
                channels(before)[other]
            }) by {
                lemma_member(before, other);
                let k = position(before, other);
                assert(after[k].id == other);
                lemma_position(after, k);
                if other == id {
                    assert(k == i);
                    assert(after[k].pending@ =~= before[k].pending@.drop_first());
                }
            }
            assert(channels(after) =~= channels(before).insert(id, taken(channels(before)[id])));
        }
        core::mem::swap(&mut self.subscribers, &mut subscribers);
        Some(event)
    }

    /// How many events are pending for the subscriber `id`, if there is
    /// such a subscriber.
    pub fn pending(&self, id: u64) -> (count: Option<usize>)
        ensures
            match count {
                Some(n) => self@.contains_key(id) && n == self@[id].pending.len(),
                None => !self@.contains_key(id),
            },
    {
        proof {
            use_type_invariant(self);
        }
        match self.position_of(id) {
            Some(i) => {
                proof {
                    lemma_position(self.subscribers@, i as int);
                }
                Some(self.subscribers[i].pending.len())
            },
            None => None,
        }
    }

    /// How many identifiers the bus has handed out. The next subscriber
    /// gets this number as its identifier.
    pub closed spec fn issued(self) -> nat {
        self.next_id as nat
    }
}

/// Events arrive in the order in which they were published: of two events
/// published to a channel with nothing pending, the first is taken first
/// and the second is what then remains.
pub proof fn lemma_events_arrive_in_order(channel: Channel, first: Event, second: Event)
    requires
        channel.pending.len() == 0,
        first.spec_topic() == channel.topic,
        second.spec_topic() == channel.topic,
    ensures
        delivered(delivered(channel, first), second).pending == seq![first, second],
        taken(delivered(delivered(channel, first), second)).pending == seq![second],
{
    let both = delivered(delivered(channel, first), second);
    assert(both.pending =~= seq![first, second]);
    assert(taken(both).pending =~= seq![second]);
}

/// An event on another topic changes nothing for a subscriber.
pub proof fn lemma_other_topics_are_not_delivered(channel: Channel, event: Event)
    requires
        event.spec_topic() != channel.topic,
    ensures
        delivered(channel, event) == channel,
{
}

} // verus!
