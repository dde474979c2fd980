//! The subscription registry: for every topic, the connections that asked
//! for its publications.

use std::collections::HashMap;
use vstd::prelude::*;
use vstd::std_specs::iter::IteratorSpec;

verus! {

broadcast use vstd::std_specs::hash::group_hash_axioms;

/// A topic: an opaque 16-bit routing key.
pub type Topic = u16;

/// The identity of a connection: a handle that stays the same for as long
/// as the connection lives.
pub type ClientId = u64;

/// The subscribers of every topic, each list in the order in which its
/// members joined.
pub type Subscriptions = Map<Topic, Seq<ClientId>>;

/// A list of subscribers after `client` has joined it: a member does not
/// join twice.
pub open spec fn joined(subscribers: Seq<ClientId>, client: ClientId) -> Seq<ClientId> {
    if subscribers.contains(client) {
        subscribers
    } else {
        subscribers.push(client)
    }
}

/// The test that every connection but `client` passes.
pub open spec fn is_other(client: ClientId) -> spec_fn(ClientId) -> bool {
    |member: ClientId| member != client
}

/// A list of subscribers after `client` has left it: the others stay, in
/// their order.
pub open spec fn without(subscribers: Seq<ClientId>, client: ClientId) -> Seq<ClientId> {
    subscribers.filter(is_other(client))
}

/// The registry before anybody has subscribed.
pub open spec fn no_subscriptions() -> Subscriptions {
    Map::total(|topic: Topic| Seq::<ClientId>::empty())
}

/// The registry after `client` has subscribed to `topic`.
pub open spec fn subscribed(table: Subscriptions, topic: Topic, client: ClientId) -> Subscriptions {
    table.insert(topic, joined(table[topic], client))
}

/// The registry after `client` has given up `topic`.
pub open spec fn unsubscribed(table: Subscriptions, topic: Topic, client: ClientId) -> Subscriptions {
    table.insert(topic, without(table[topic], client))
}

/// The registry after `client` has given up every topic.
pub open spec fn unsubscribed_all(table: Subscriptions, client: ClientId) -> Subscriptions {
    Map::total(|topic: Topic| without(table[topic], client))
}

/// Whether no list of the registry names a connection twice.
pub open spec fn duplicate_free(table: Subscriptions) -> bool {
    forall|topic: Topic| (#[trigger] table[topic]).no_duplicates()
}

/// The subscribers that a map lists for `topic`; none where it has no entry.
spec fn listed(subscriptions: Map<Topic, Vec<ClientId>>, topic: Topic) -> Seq<ClientId> {
    if subscriptions.contains_key(topic) {
        subscriptions[topic]@
    } else {
        Seq::empty()
    }
}

/// The shared mapping from topics to their subscribers.
pub struct SubscriptionTable {
    subscriptions: HashMap<Topic, Vec<ClientId>>,
}

impl View for SubscriptionTable {
    type V = Subscriptions;

    /// The subscribers of every topic; of a topic that nobody asked for,
    /// none.
    open spec fn view(&self) -> Subscriptions {
        Map::total(|topic: Topic| self.subscribers(topic))
    }
}

impl SubscriptionTable {
    /// The subscribers of `topic`, in the order in which they joined.
    pub closed spec fn subscribers(&self, topic: Topic) -> Seq<ClientId> {
        listed(self.subscriptions@, topic)
    }

    /// No topic names a connection twice.
    #[verifier::type_invariant]
    pub open spec fn names_nobody_twice(&self) -> bool {
        duplicate_free(self@)
    }

    /// A registry without subscriptions.
    pub fn new() -> (table: SubscriptionTable)
        ensures
            table@ == no_subscriptions(),
    {
        let table = SubscriptionTable { subscriptions: HashMap::new() };
        assert(table@ =~= no_subscriptions());
        table
    }

    /// The subscribers of `topic` at this moment. None of them is named
    /// twice.
    pub fn get_subscriptions(&self, topic: &Topic) -> (subscribers: Vec<ClientId>)
        ensures
            subscribers@ == self@[*topic],
            subscribers@.no_duplicates(),
    {
        proof {
            use_type_invariant(self);
        }
        match self.subscriptions.get(topic) {
            Some(clients) => {
                let copy = clients.clone();
                assert(copy@ =~= clients@);
                copy
            },
            None => Vec::new(),
        }
    }

    /// Subscribes `client` to `topic`. A connection that is subscribed
    /// already stays so, once.
    pub fn add_subscription(&mut self, topic: Topic, client: ClientId)
        ensures
            final(self)@ == subscribed(old(self)@, topic, client),
    {
        proof {
            use_type_invariant(&*self);
        }
        let mut clients = self.get_subscriptions(&topic);
        if !contains(&clients, client) {
            clients.push(client);
            self.store(topic, clients);
        }
        assert(self@ =~= subscribed(old(self)@, topic, client));
    }

    /// Takes `client` off the subscribers of `topic`.
    pub fn remove_subscription(&mut self, topic: &Topic, client: &ClientId)
        ensures
            final(self)@ == unsubscribed(old(self)@, *topic, *client),
    {
        let clients = self.get_subscriptions(topic);
        let rest = others(&clients, *client);
        proof {
            lemma_filter_keeps_no_duplicates(clients@, is_other(*client));
        }
        if rest.len() != clients.len() {
            self.store(*topic, rest);
        } else {
            proof {
                lemma_filter_of_full_length(clients@, is_other(*client));
            }
        }
        assert(self@ =~= unsubscribed(old(self)@, *topic, *client));
    }

    /// Takes `client` off the subscribers of every topic.
    pub fn unsubscribe_all(&mut self, client: ClientId)
        ensures
            final(self)@ == unsubscribed_all(old(self)@, client),
    {
        let topics = self.topics();
        let mut index: usize = 0;
        while index < topics.len()
            invariant
                index <= topics.len(),
                forall|topic: Topic|
                    old(self).subscriptions@.contains_key(topic) ==> topics@.contains(topic),
                forall|topic: Topic|
                    topics@.take(index as int).contains(topic) ==> #[trigger] self@[topic]
                        == without(old(self)@[topic], client),
                forall|topic: Topic|
                    !topics@.take(index as int).contains(topic) ==> #[trigger] self@[topic]
                        == old(self)@[topic],
            decreases topics.len() - index,
        {
            let topic = topics[index];
            let ghost before = self@;
            self.remove_subscription(&topic, &client);
            proof {
                lemma_without_twice(old(self)@[topic], client);
                assert(topics@.take(index + 1) =~= topics@.take(index as int).push(topic));
                assert forall|other: Topic|
                    topics@.take(index + 1).contains(other) implies #[trigger] self@[other]
                    == without(old(self)@[other], client) by {
                    if other != topic {
                        assert(topics@.take(index as int).contains(other));
                        assert(before[other] == without(old(self)@[other], client));
                    }
                }
                assert forall|other: Topic|
                    !topics@.take(index + 1).contains(other) implies #[trigger] self@[other]
                    == old(self)@[other] by {
                    assert(topics@.take(index + 1)[index as int] == topic);
                    assert(!topics@.take(index as int).contains(other));
                    assert(before[other] == old(self)@[other]);
                }
            }
            index += 1;
        }
        proof {
            assert(topics@.take(index as int) =~= topics@);
            assert forall|topic: Topic| #[trigger] self@[topic] == without(old(self)@[topic], client) by {
                if !topics@.contains(topic) {
                    assert(!old(self).subscriptions@.contains_key(topic));
                    assert(old(self)@[topic] =~= Seq::<ClientId>::empty());
                    lemma_filter_of_full_length(Seq::<ClientId>::empty(), is_other(client));
                }
            }
            assert(self@ =~= unsubscribed_all(old(self)@, client));
        }
    }

    /// The topics that somebody has asked for at some time, each once.
    fn topics(&self) -> (topics: Vec<Topic>)
        ensures
            forall|topic: Topic|
                self.subscriptions@.contains_key(topic) <==> topics@.contains(topic),
            topics@.no_duplicates(),
    {
        let mut topics: Vec<Topic> = Vec::new();
        let ghost keys = self.subscriptions.keys().remaining();
        for topic in iter: self.subscriptions.keys()
            invariant
                iter.seq() == keys,
                topics@.len() == iter.index(),
                forall|i: int| 0 <= i < iter.index() ==> topics@[i] == *keys[i],
        {
            topics.push(*topic);
        }
        assert(topics@ =~= keys.unref());
        assert forall|topic: Topic| self.subscriptions@.contains_key(topic) implies topics@.contains(
            topic,
        ) by {
            assert(keys.unref().to_set().contains(topic));
        }
        assert forall|topic: Topic| topics@.contains(topic) implies self.subscriptions@.contains_key(
            topic,
        ) by {
            assert(keys.unref().to_set().contains(topic));
        }
        assert forall|i: int, j: int| 0 <= i < j < topics@.len() implies topics@[i] != topics@[j] by {
            assert(keys[i] != keys[j]);
        }
        topics
    }

    /// Replaces the subscribers of `topic`. The map is taken out of the
    /// registry while it changes and put back afterwards.
    fn store(&mut self, topic: Topic, clients: Vec<ClientId>)
        requires
            clients@.no_duplicates(),
        ensures
            final(self)@ == old(self)@.insert(topic, clients@),
    {
        proof {
            use_type_invariant(&*self);
        }
        let mut subscriptions = HashMap::new();
        core::mem::swap(&mut self.subscriptions, &mut subscriptions);
        subscriptions.insert(topic, clients);
        assert forall|other: Topic| (#[trigger] listed(subscriptions@, other)).no_duplicates() by {
            if other != topic {
                assert(listed(subscriptions@, other) == old(self)@[other]);
            }
        }
        core::mem::swap(&mut self.subscriptions, &mut subscriptions);
        assert(self@ =~= old(self)@.insert(topic, clients@));
    }
}

/// Whether `client` is among `clients`.
pub(crate) fn contains(clients: &Vec<ClientId>, client: ClientId) -> (found: bool)
    ensures
        found == clients@.contains(client),
{
    let mut index: usize = 0;
    while index < clients.len()
        invariant
            index <= clients.len(),
            forall|i: int| 0 <= i < index ==> clients@[i] != client,
        decreases clients.len() - index,
    {
        if clients[index] == client {
            return true;
        }
        index += 1;
    }
    false
}

/// The members of `clients` other than `client`, in their order.
pub(crate) fn others(clients: &Vec<ClientId>, client: ClientId) -> (rest: Vec<ClientId>)
    ensures
        rest@ == without(clients@, client),
{
    let mut rest: Vec<ClientId> = Vec::new();
    let mut index: usize = 0;
    proof {
        lemma_filter_of_full_length(Seq::<ClientId>::empty(), is_other(client));
        assert(clients@.take(0) =~= Seq::<ClientId>::empty());
    }
    while index < clients.len()
        invariant
            index <= clients.len(),
            rest@ == without(clients@.take(index as int), client),
        decreases clients.len() - index,
    {
        proof {
            clients@.take(index as int).lemma_filter_push(clients@[index as int], is_other(client));
            assert(clients@.take(index + 1) =~= clients@.take(index as int).push(
                clients@[index as int],
            ));
        }
        if clients[index] != client {
            rest.push(clients[index]);
        }
        index += 1;
    }
    assert(clients@.take(index as int) =~= clients@);
    rest
}

/// A filter that drops nothing changes nothing.
pub proof fn lemma_filter_of_full_length<A>(items: Seq<A>, keep: spec_fn(A) -> bool)
    requires
        items.filter(keep).len() == items.len(),
    ensures
        items.filter(keep) == items,
    decreases items.len(),
{
    reveal(Seq::filter);
    if items.len() > 0 {
        items.drop_last().lemma_filter_len(keep);
        lemma_filter_of_full_length(items.drop_last(), keep);
        assert(items.drop_last().push(items.last()) =~= items);
    }
}

/// What a filter keeps, it keeps once where it was there once.
pub proof fn lemma_filter_keeps_no_duplicates<A>(items: Seq<A>, keep: spec_fn(A) -> bool)
    requires
        items.no_duplicates(),
    ensures
        items.filter(keep).no_duplicates(),
    decreases items.len(),
{
    reveal(Seq::filter);
    if items.len() > 0 {
        let front = items.drop_last();
        lemma_filter_keeps_no_duplicates(front, keep);
        if keep(items.last()) {
            if front.filter(keep).contains(items.last()) {
                front.lemma_filter_contains_rev(keep, items.last());
                let i = choose|i: int| 0 <= i < front.len() && front[i] == items.last();
                assert(items[i] == items[items.len() - 1]);
            }
        }
    }
}

/// A filter keeps exactly the items that pass its test.
pub proof fn lemma_filter_members<A>(items: Seq<A>, keep: spec_fn(A) -> bool, item: A)
    ensures
        items.filter(keep).contains(item) <==> items.contains(item) && keep(item),
{
    if items.filter(keep).contains(item) {
        items.lemma_filter_contains_rev(keep, item);
        let i = choose|i: int| 0 <= i < items.filter(keep).len() && items.filter(keep)[i] == item;
        items.lemma_filter_pred(keep, i);
    }
    if items.contains(item) && keep(item) {
        let i = choose|i: int| 0 <= i < items.len() && items[i] == item;
        items.lemma_filter_contains(keep, i);
    }
}

/// Leaving a list twice is leaving it once.
pub proof fn lemma_without_twice(subscribers: Seq<ClientId>, client: ClientId)
    ensures
        without(without(subscribers, client), client) == without(subscribers, client),
    decreases subscribers.len(),
{
    reveal(Seq::filter);
    if subscribers.len() > 0 {
        let front = subscribers.drop_last();
        lemma_without_twice(front, client);
        if subscribers.last() != client {
            without(front, client).lemma_filter_push(subscribers.last(), is_other(client));
        }
    }
}

/// A filter that nothing passes keeps nothing.
pub proof fn lemma_filter_none<A>(items: Seq<A>, keep: spec_fn(A) -> bool)
    requires
        forall|i: int| 0 <= i < items.len() ==> !keep(#[trigger] items[i]),
    ensures
        items.filter(keep) == Seq::<A>::empty(),
    decreases items.len(),
{
    reveal(Seq::filter);
    if items.len() > 0 {
        let front = items.drop_last();
        assert forall|i: int| 0 <= i < front.len() implies !keep(#[trigger] front[i]) by {
            assert(front[i] == items[i]);
        }
        lemma_filter_none(front, keep);
    }
}

/// A filter that everything passes keeps everything.
pub proof fn lemma_filter_all<A>(items: Seq<A>, keep: spec_fn(A) -> bool)
    requires
        forall|i: int| 0 <= i < items.len() ==> keep(#[trigger] items[i]),
    ensures
        items.filter(keep) == items,
    decreases items.len(),
{
    reveal(Seq::filter);
    if items.len() > 0 {
        let front = items.drop_last();
        assert forall|i: int| 0 <= i < front.len() implies keep(#[trigger] front[i]) by {
            assert(front[i] == items[i]);
        }
        lemma_filter_all(front, keep);
        assert(front.push(items.last()) =~= items);
    }
}

/// Idempotent subscribe: a second subscription of the same connection to
/// the same topic changes nothing.
pub proof fn lemma_subscribed_twice(table: Subscriptions, topic: Topic, client: ClientId)
    ensures
        subscribed(subscribed(table, topic, client), topic, client) == subscribed(
            table,
            topic,
            client,
        ),
        subscribed(table, topic, client)[topic].contains(client),
{
    let once = subscribed(table, topic, client);
    if !table[topic].contains(client) {
        assert(table[topic].push(client)[table[topic].len() as int] == client);
    }
    assert(subscribed(once, topic, client) =~= once);
}

/// A registry that names nobody twice still does so after a subscription.
pub proof fn lemma_subscribed_keeps_duplicate_free(
    table: Subscriptions,
    topic: Topic,
    client: ClientId,
)
    requires
        duplicate_free(table),
    ensures
        duplicate_free(subscribed(table, topic, client)),
{
    let after = subscribed(table, topic, client);
    assert forall|other: Topic| (#[trigger] after[other]).no_duplicates() by {
        assert(table[other].no_duplicates());
    }
}

/// After a connection has given up every topic, no topic names it, and
/// every other connection is where it was.
pub proof fn lemma_unsubscribed_all_members(
    table: Subscriptions,
    client: ClientId,
    topic: Topic,
    member: ClientId,
)
    ensures
        unsubscribed_all(table, client)[topic].contains(member) <==> table[topic].contains(member)
            && member != client,
        table[topic].no_duplicates() ==> unsubscribed_all(table, client)[topic].no_duplicates(),
{
    lemma_filter_members(table[topic], is_other(client), member);
    if table[topic].no_duplicates() {
        lemma_filter_keeps_no_duplicates(table[topic], is_other(client));
    }
}

} // verus!
