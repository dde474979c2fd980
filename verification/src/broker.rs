//! The routing engine: what a broker does with each thing that happens on a
//! connection.
//!
//! The broker here is the state that all connections share, the
//! subscription registry and the directory of live connections, and the
//! decisions taken on it. It performs no I/O. Each step takes an event and
//! gives back the packets to put on the delivery channels of other
//! connections; whoever owns the channels and the sockets carries them out.

use std::collections::HashSet;
use vstd::prelude::*;
use crate::packet::{
    MqttPacket, MqttPubackPacket, MqttPublishPacket, MqttSubscribePacket, PacketView, QoS,
};
use crate::registry::{
    duplicate_free, lemma_filter_all, lemma_filter_keeps_no_duplicates, lemma_filter_members,
    lemma_filter_none, lemma_subscribed_keeps_duplicate_free, lemma_subscribed_twice,
    lemma_unsubscribed_all_members, no_subscriptions, subscribed, unsubscribed_all, ClientId,
    SubscriptionTable, Subscriptions, Topic,
};
use crate::wire::FramingError;

verus! {

broadcast use vstd::std_specs::hash::group_hash_axioms;

/// The directory of live connections.
pub struct Clients {
    clients: HashSet<ClientId>,
}

impl View for Clients {
    type V = Set<ClientId>;

    closed spec fn view(&self) -> Set<ClientId> {
        self.clients@
    }
}

impl Clients {
    /// A directory without connections.
    pub fn new() -> (directory: Clients)
        ensures
            directory@ == Set::<ClientId>::empty(),
    {
        Clients { clients: HashSet::new() }
    }

    /// Records `client` as live.
    pub fn insert(&mut self, client: ClientId)
        ensures
            final(self)@ == old(self)@.insert(client),
    {
        self.clients.insert(client);
    }

    /// Records `client` as gone.
    pub fn remove(&mut self, client: ClientId)
        ensures
            final(self)@ == old(self)@.remove(client),
    {
        self.clients.remove(&client);
    }

    /// Whether `client` is live.
    pub fn contains(&self, client: ClientId) -> (live: bool)
        ensures
            live == self@.contains(client),
    {
        self.clients.contains(&client)
    }
}

/// A packet on its way to the delivery channel of one connection.
#[derive(Debug, PartialEq, Eq)]
pub struct Delivery {
    pub to: ClientId,
    pub packet: MqttPacket,
}

/// What a delivery is: a packet and the connection it goes to.
pub struct DeliveryView {
    pub to: ClientId,
    pub packet: PacketView,
}

impl View for Delivery {
    type V = DeliveryView;

    open spec fn view(&self) -> DeliveryView {
        DeliveryView { to: self.to, packet: self.packet@ }
    }
}

/// What a list of deliveries is.
pub open spec fn delivered(deliveries: Seq<Delivery>) -> Seq<DeliveryView> {
    deliveries.map_values(|delivery: Delivery| delivery@)
}

/// The state that the connections share.
pub struct BrokerView {
    pub subscriptions: Subscriptions,
    pub clients: Set<ClientId>,
}

/// Whether a state is one that a broker can be in: no topic names a
/// connection twice.
pub open spec fn valid(state: BrokerView) -> bool {
    duplicate_free(state.subscriptions)
}

/// The state before anything has happened.
pub open spec fn initial() -> BrokerView {
    BrokerView { subscriptions: no_subscriptions(), clients: Set::empty() }
}

/// The state after `client` has connected.
pub open spec fn connected(state: BrokerView, client: ClientId) -> BrokerView {
    BrokerView { clients: state.clients.insert(client), ..state }
}

/// The state after `client` has torn down: it is subscribed to nothing and
/// is no longer live.
pub open spec fn disconnected(state: BrokerView, client: ClientId) -> BrokerView {
    BrokerView {
        subscriptions: unsubscribed_all(state.subscriptions, client),
        clients: state.clients.remove(client),
    }
}

/// The test that the live connections pass.
pub open spec fn is_live(state: BrokerView) -> spec_fn(ClientId) -> bool {
    |client: ClientId| state.clients.contains(client)
}

/// The connections that a publication on `topic` goes to: the subscribers
/// of the topic that are live, in the order in which they subscribed.
pub open spec fn recipients(state: BrokerView, topic: Topic) -> Seq<ClientId> {
    state.subscriptions[topic].filter(is_live(state))
}

/// One copy of `packet` for each of `targets`.
pub open spec fn copies(targets: Seq<ClientId>, packet: PacketView) -> Seq<DeliveryView> {
    targets.map_values(|to: ClientId| DeliveryView { to, packet })
}

/// The deliveries that a publication causes: one copy for each recipient.
pub open spec fn fan_out(state: BrokerView, topic: Topic, packet: PacketView) -> Seq<DeliveryView> {
    copies(recipients(state, topic), packet)
}

/// The acknowledgment that a publication at the tier `qos` is owed: one
/// Puback to the publisher above the lowest tier, nothing at the lowest.
pub open spec fn acknowledgment(publisher: ClientId, qos: QoS) -> Seq<DeliveryView> {
    if qos.spec_wants_ack() {
        seq![DeliveryView { to: publisher, packet: PacketView::Puback }]
    } else {
        Seq::empty()
    }
}

/// A request to the registry and the router, as one connection's packet
/// gives rise to it.
#[allow(inconsistent_fields)]
#[derive(Debug, PartialEq, Eq)]
pub enum Command {
    Subscribe { packet: MqttSubscribePacket, client: ClientId },
    Publish { packet: MqttPublishPacket },
}

/// The state after a command.
pub open spec fn state_after_command(state: BrokerView, command: Command) -> BrokerView {
    match command {
        Command::Subscribe { packet, client } => BrokerView {
            subscriptions: subscribed(state.subscriptions, packet.topic_name, client),
            ..state
        },
        Command::Publish { .. } => state,
    }
}

/// The deliveries that a command causes.
pub open spec fn deliveries_of_command(state: BrokerView, command: Command) -> Seq<DeliveryView> {
    match command {
        Command::Subscribe { .. } => Seq::empty(),
        Command::Publish { packet } => fan_out(state, packet.topic_name, packet@),
    }
}

/// What can happen on a connection, as far as the shared state is
/// concerned.
#[derive(Debug, PartialEq, Eq)]
pub enum ConnectionEvent {
    /// The codec decoded a packet from the stream.
    Packet(MqttPacket),
    /// The codec refused a frame.
    ProtocolError(FramingError),
    /// The stream has ended.
    Closed,
    /// A read from the stream failed.
    ReadFailed,
    /// A write to the stream failed.
    WriteFailed,
}

/// Whether a connection ends with this event. Everything but a packet ends
/// it.
pub open spec fn is_fatal(event: ConnectionEvent) -> bool {
    !(event is Packet)
}

/// The state after an event on the connection `client`.
///
/// A Subscribe enters the connection in the registry. A Publish and a
/// Puback leave the state as it is. Every other event tears the connection
/// down.
pub open spec fn state_after(state: BrokerView, client: ClientId, event: ConnectionEvent) -> BrokerView {
    match event {
        ConnectionEvent::Packet(MqttPacket::Subscribe(packet)) => state_after_command(
            state,
            Command::Subscribe { packet, client },
        ),
        ConnectionEvent::Packet(_) => state,
        _ => disconnected(state, client),
    }
}

/// The deliveries that an event on the connection `client` causes.
///
/// A Publish is acknowledged to its publisher as its tier asks, and then
/// fanned out. Nothing else causes a delivery.
pub open spec fn deliveries_on(state: BrokerView, client: ClientId, event: ConnectionEvent) -> Seq<
    DeliveryView,
> {
    match event {
        ConnectionEvent::Packet(MqttPacket::Publish(packet)) => acknowledgment(client, packet.qos)
            + fan_out(state, packet.topic_name, packet@),
        _ => Seq::empty(),
    }
}

/// What the broker decided on an event.
#[derive(Debug, PartialEq, Eq)]
pub struct Outcome {
    /// The packets to put on delivery channels, in this order.
    pub deliveries: Vec<Delivery>,
    /// Whether the connection is over and its actor has to exit.
    pub terminated: bool,
}

/// The shared state of a broker, and the decisions taken on it.
pub struct Broker {
    subscriptions: SubscriptionTable,
    clients: Clients,
}

impl View for Broker {
    type V = BrokerView;

    closed spec fn view(&self) -> BrokerView {
        BrokerView { subscriptions: self.subscriptions@, clients: self.clients@ }
    }
}

impl Broker {
    /// A broker without connections or subscriptions.
    pub fn new() -> (broker: Broker)
        ensures
            broker@ == initial(),
            valid(broker@),
    {
        Broker { subscriptions: SubscriptionTable::new(), clients: Clients::new() }
    }

    /// Enters an accepted connection in the directory.
    pub fn connect(&mut self, client: ClientId)
        ensures
            final(self)@ == connected(old(self)@, client),
            valid(final(self)@),
    {
        self.clients.insert(client);
        proof {
            use_type_invariant(&self.subscriptions);
        }
    }

    /// Tears a connection down: it leaves every topic, and the directory.
    pub fn disconnect(&mut self, client: ClientId)
        ensures
            final(self)@ == disconnected(old(self)@, client),
            valid(final(self)@),
    {
        self.subscriptions.unsubscribe_all(client);
        self.clients.remove(client);
        proof {
            use_type_invariant(&self.subscriptions);
        }
    }

    /// Whether `client` is in the directory.
    pub fn is_connected(&self, client: ClientId) -> (live: bool)
        ensures
            live == self@.clients.contains(client),
    {
        self.clients.contains(client)
    }

    /// The subscribers of `topic` at this moment, live or not.
    pub fn subscribers(&self, topic: Topic) -> (subscribers: Vec<ClientId>)
        ensures
            subscribers@ == self@.subscriptions[topic],
            valid(self@),
    {
        proof {
            use_type_invariant(&self.subscriptions);
        }
        self.subscriptions.get_subscriptions(&topic)
    }

    /// Fans a publication out: a copy for every subscriber of its topic
    /// that is live at this moment, and for nobody twice.
    pub fn route_publish(&self, packet: &MqttPublishPacket) -> (deliveries: Vec<Delivery>)
        ensures
            delivered(deliveries@) == fan_out(self@, packet.topic_name, packet@),
            valid(self@),
    {
        proof {
            use_type_invariant(&self.subscriptions);
        }
        let subscribers = self.subscriptions.get_subscriptions(&packet.topic_name);
        let mut deliveries: Vec<Delivery> = Vec::new();
        let mut index: usize = 0;
        let ghost live = is_live(self@);
        proof {
            reveal(Seq::filter);
            assert(subscribers@.take(0) =~= Seq::<ClientId>::empty());
            assert(delivered(deliveries@) =~= copies(
                subscribers@.take(0).filter(live),
                packet@,
            ));
        }
        while index < subscribers.len()
            invariant
                index <= subscribers.len(),
                live == is_live(self@),
                delivered(deliveries@) == copies(
                    subscribers@.take(index as int).filter(live),
                    packet@,
                ),
            decreases subscribers.len() - index,
        {
            let to = subscribers[index];
            let ghost before = deliveries@;
            proof {
                subscribers@.take(index as int).lemma_filter_push(to, live);
                assert(subscribers@.take(index + 1) =~= subscribers@.take(index as int).push(to));
            }
            if self.clients.contains(to) {
                deliveries.push(Delivery { to, packet: MqttPacket::Publish(packet.clone()) });
                assert(delivered(deliveries@) =~= delivered(before).push(
                    DeliveryView { to, packet: packet@ },
                ));
                assert(delivered(deliveries@) =~= copies(
                    subscribers@.take(index + 1).filter(live),
                    packet@,
                ));
            }
            index += 1;
        }
        assert(subscribers@.take(index as int) =~= subscribers@);
        deliveries
    }

    /// Carries out a command: a Subscribe enters its connection in the
    /// registry, a Publish is fanned out.
    pub fn manage(&mut self, command: Command) -> (deliveries: Vec<Delivery>)
        ensures
            final(self)@ == state_after_command(old(self)@, command),
            delivered(deliveries@) == deliveries_of_command(old(self)@, command),
            valid(final(self)@),
    {
        proof {
            use_type_invariant(&self.subscriptions);
        }
        match command {
            Command::Subscribe { packet, client } => {
                self.subscriptions.add_subscription(packet.topic_name, client);
                proof {
                    use_type_invariant(&self.subscriptions);
                }
                let deliveries: Vec<Delivery> = Vec::new();
                assert(delivered(deliveries@) =~= Seq::<DeliveryView>::empty());
                deliveries
            },
            Command::Publish { packet } => self.route_publish(&packet),
        }
    }

    /// Decides what follows from an event on the connection `client`.
    ///
    /// A Publish above the lowest tier is acknowledged to its publisher
    /// first, with one Puback, and then fanned out to the live subscribers
    /// of its topic. A Subscribe enters the connection in the registry. A
    /// Puback changes nothing. The end of the stream, a refused frame, a
    /// failed read and a failed write tear the connection down, and the
    /// outcome says that it is over.
    pub fn process(&mut self, client: ClientId, event: ConnectionEvent) -> (outcome: Outcome)
        ensures
            final(self)@ == state_after(old(self)@, client, event),
            delivered(outcome.deliveries@) == deliveries_on(old(self)@, client, event),
            outcome.terminated == is_fatal(event),
            valid(final(self)@),
    {
        proof {
            use_type_invariant(&self.subscriptions);
        }
        match event {
            ConnectionEvent::Packet(MqttPacket::Publish(packet)) => {
                let mut deliveries: Vec<Delivery> = Vec::new();
                if packet.qos.wants_ack() {
                    deliveries.push(
                        Delivery { to: client, packet: MqttPacket::Puback(MqttPubackPacket {}) },
                    );
                }
                assert(delivered(deliveries@) =~= acknowledgment(client, packet.qos));
                let ghost acknowledged = deliveries@;
                let mut routed = self.manage(Command::Publish { packet });
                let ghost fanned = routed@;
                deliveries.append(&mut routed);
                assert(delivered(deliveries@) =~= delivered(acknowledged) + delivered(fanned));
                Outcome { deliveries, terminated: false }
            },
            ConnectionEvent::Packet(MqttPacket::Subscribe(packet)) => {
                let deliveries = self.manage(Command::Subscribe { packet, client });
                Outcome { deliveries, terminated: false }
            },
            ConnectionEvent::Packet(MqttPacket::Puback(_)) => {
                let deliveries: Vec<Delivery> = Vec::new();
                assert(delivered(deliveries@) =~= Seq::<DeliveryView>::empty());
                Outcome { deliveries, terminated: false }
            },
            _ => {
                self.disconnect(client);
                let deliveries: Vec<Delivery> = Vec::new();
                assert(delivered(deliveries@) =~= Seq::<DeliveryView>::empty());
                Outcome { deliveries, terminated: true }
            },
        }
    }
}

/// The test that the deliveries to `client` pass.
pub open spec fn goes_to(client: ClientId) -> spec_fn(DeliveryView) -> bool {
    |delivery: DeliveryView| delivery.to == client
}

/// The test that the acknowledgments among deliveries pass.
pub open spec fn is_acknowledgment() -> spec_fn(DeliveryView) -> bool {
    |delivery: DeliveryView| delivery.packet is Puback
}

/// Whether `client` has no part in the state: it is not live and no topic
/// names it.
pub open spec fn is_absent(state: BrokerView, client: ClientId) -> bool {
    &&& !state.clients.contains(client)
    &&& forall|topic: Topic| !(#[trigger] state.subscriptions[topic]).contains(client)
}

/// Among one copy for each of a list of targets that names nobody twice,
/// a target finds exactly its own copy, and anybody else finds nothing.
pub proof fn lemma_copies_to_one(targets: Seq<ClientId>, packet: PacketView, client: ClientId)
    requires
        targets.no_duplicates(),
    ensures
        copies(targets, packet).filter(goes_to(client)) == if targets.contains(client) {
            seq![DeliveryView { to: client, packet }]
        } else {
            Seq::<DeliveryView>::empty()
        },
    decreases targets.len(),
{
    reveal(Seq::filter);
    if targets.len() > 0 {
        let front = targets.drop_last();
        let last = targets.last();
        lemma_copies_to_one(front, packet, client);
        assert(copies(targets, packet).drop_last() =~= copies(front, packet));
        assert(copies(targets, packet).last() == DeliveryView { to: last, packet });
        if last == client {
            if front.contains(client) {
                let i = choose|i: int| 0 <= i < front.len() && front[i] == client;
                assert(targets[i] == targets[targets.len() - 1]);
            }
            assert(targets[targets.len() - 1] == client);
            assert(copies(targets, packet).filter(goes_to(client)) =~= seq![
                DeliveryView { to: client, packet },
            ]);
        } else {
            if front.contains(client) {
                let i = choose|i: int| 0 <= i < front.len() && front[i] == client;
                assert(targets[i] == client);
            }
            if targets.contains(client) {
                let i = choose|i: int| 0 <= i < targets.len() && targets[i] == client;
                assert(front[i] == client);
            }
        }
    } else {
        assert(copies(targets, packet) =~= Seq::<DeliveryView>::empty());
    }
}

/// Fan-out: a publication reaches each live subscriber of its topic
/// exactly once, with the packet as it was published, and reaches nobody
/// else.
pub proof fn lemma_fan_out_exactly_once(
    state: BrokerView,
    topic: Topic,
    packet: PacketView,
    client: ClientId,
)
    requires
        valid(state),
    ensures
        fan_out(state, topic, packet).filter(goes_to(client)) == if state.subscriptions[topic].contains(
            client,
        ) && state.clients.contains(client) {
            seq![DeliveryView { to: client, packet }]
        } else {
            Seq::<DeliveryView>::empty()
        },
{
    assert(state.subscriptions[topic].no_duplicates());
    lemma_filter_keeps_no_duplicates(state.subscriptions[topic], is_live(state));
    lemma_filter_members(state.subscriptions[topic], is_live(state), client);
    lemma_copies_to_one(recipients(state, topic), packet, client);
}

/// Idempotent subscribe: a connection that subscribes to a topic twice is
/// in the same state as after the first time, and a publication on the
/// topic reaches it once.
pub proof fn lemma_idempotent_subscribe(
    state: BrokerView,
    client: ClientId,
    subscribe: MqttSubscribePacket,
    packet: PacketView,
)
    requires
        valid(state),
        state.clients.contains(client),
    ensures
        ({
            let event = ConnectionEvent::Packet(MqttPacket::Subscribe(subscribe));
            let once = state_after(state, client, event);
            let twice = state_after(once, client, event);
            &&& twice == once
            &&& fan_out(twice, subscribe.topic_name, packet).filter(goes_to(client)) == seq![
                DeliveryView { to: client, packet },
            ]
        }),
{
    let event = ConnectionEvent::Packet(MqttPacket::Subscribe(subscribe));
    let once = state_after(state, client, event);
    lemma_subscribed_twice(state.subscriptions, subscribe.topic_name, client);
    lemma_subscribed_keeps_duplicate_free(state.subscriptions, subscribe.topic_name, client);
    lemma_fan_out_exactly_once(once, subscribe.topic_name, packet, client);
}

/// Teardown completeness: after its teardown a connection is not live, no
/// topic names it, and no publication reaches it.
pub proof fn lemma_teardown_is_complete(state: BrokerView, client: ClientId)
    ensures
        is_absent(disconnected(state, client), client),
        forall|topic: Topic, packet: PacketView|
            (#[trigger] fan_out(disconnected(state, client), topic, packet)).filter(
                goes_to(client),
            ) == Seq::<DeliveryView>::empty(),
{
    let after = disconnected(state, client);
    assert forall|topic: Topic| !(#[trigger] after.subscriptions[topic]).contains(client) by {
        lemma_unsubscribed_all_members(state.subscriptions, client, topic, client);
    }
    assert forall|topic: Topic, packet: PacketView|
        (#[trigger] fan_out(after, topic, packet)).filter(goes_to(client)) == Seq::<
            DeliveryView,
        >::empty() by {
        lemma_absent_gets_nothing(after, client, topic, packet);
    }
}

/// No publication reaches a connection that is not live.
pub proof fn lemma_absent_gets_nothing(
    state: BrokerView,
    client: ClientId,
    topic: Topic,
    packet: PacketView,
)
    requires
        !state.clients.contains(client),
    ensures
        fan_out(state, topic, packet).filter(goes_to(client)) == Seq::<DeliveryView>::empty(),
{
    let deliveries = fan_out(state, topic, packet);
    let targets = recipients(state, topic);
    assert forall|i: int| 0 <= i < deliveries.len() implies !goes_to(client)(
        #[trigger] deliveries[i],
    ) by {
        assert(targets.contains(targets[i]));
        lemma_filter_members(state.subscriptions[topic], is_live(state), targets[i]);
    }
    lemma_filter_none(deliveries, goes_to(client));
}

/// Teardown completeness, as time goes on: whatever happens on another
/// connection, a connection that has no part in the state receives nothing
/// and still has no part in the state afterwards.
pub proof fn lemma_absent_stays_absent(
    state: BrokerView,
    client: ClientId,
    other: ClientId,
    event: ConnectionEvent,
)
    requires
        is_absent(state, client),
        other != client,
    ensures
        deliveries_on(state, other, event).filter(goes_to(client)) == Seq::<DeliveryView>::empty(),
        is_absent(state_after(state, other, event), client),
{
    let after = state_after(state, other, event);
    let deliveries = deliveries_on(state, other, event);
    match event {
        ConnectionEvent::Packet(MqttPacket::Publish(packet)) => {
            let acknowledged = acknowledgment(other, packet.qos);
            let fanned = fan_out(state, packet.topic_name, packet@);
            lemma_absent_gets_nothing(state, client, packet.topic_name, packet@);
            lemma_filter_none(acknowledged, goes_to(client));
            Seq::filter_distributes_over_add(acknowledged, fanned, goes_to(client));
        },
        ConnectionEvent::Packet(MqttPacket::Subscribe(packet)) => {
            lemma_filter_none(deliveries, goes_to(client));
            assert forall|topic: Topic| !(#[trigger] after.subscriptions[topic]).contains(
                client,
            ) by {
                assert(!state.subscriptions[topic].contains(client));
                if topic == packet.topic_name && after.subscriptions[topic].contains(client) {
                    let i = choose|i: int|
                        0 <= i < after.subscriptions[topic].len() && after.subscriptions[topic][i]
                            == client;
                    if i < state.subscriptions[topic].len() {
                        assert(state.subscriptions[topic][i] == client);
                    }
                }
            }
        },
        ConnectionEvent::Packet(MqttPacket::Puback(_)) => {
            lemma_filter_none(deliveries, goes_to(client));
        },
        _ => {
            lemma_filter_none(deliveries, goes_to(client));
            assert forall|topic: Topic| !(#[trigger] after.subscriptions[topic]).contains(
                client,
            ) by {
                assert(!state.subscriptions[topic].contains(client));
                lemma_unsubscribed_all_members(state.subscriptions, other, topic, client);
            }
        },
    }
}

/// QoS acknowledgment: a Publish above the lowest tier brings its
/// publisher exactly one Puback, a Publish at the lowest tier none; and
/// nobody else is sent one.
pub proof fn lemma_one_acknowledgment(
    state: BrokerView,
    publisher: ClientId,
    packet: MqttPublishPacket,
)
    ensures
        deliveries_on(
            state,
            publisher,
            ConnectionEvent::Packet(MqttPacket::Publish(packet)),
        ).filter(is_acknowledgment()) == if packet.qos == QoS::AtMostOnce {
            Seq::<DeliveryView>::empty()
        } else {
            seq![DeliveryView { to: publisher, packet: PacketView::Puback }]
        },
{
    let acknowledged = acknowledgment(publisher, packet.qos);
    let fanned = fan_out(state, packet.topic_name, packet@);
    lemma_filter_all(acknowledged, is_acknowledgment());
    lemma_filter_none(fanned, is_acknowledgment());
    Seq::filter_distributes_over_add(acknowledged, fanned, is_acknowledgment());
    assert(acknowledged + Seq::<DeliveryView>::empty() =~= acknowledged);
}

/// Validity is an invariant: the state at the start is valid, and a
/// connection and every event lead from a valid state to a valid state.
pub proof fn lemma_steps_keep_valid(
    state: BrokerView,
    client: ClientId,
    event: ConnectionEvent,
)
    requires
        valid(state),
    ensures
        valid(initial()),
        valid(connected(state, client)),
        valid(state_after(state, client, event)),
{
    let after = state_after(state, client, event);
    match event {
        ConnectionEvent::Packet(MqttPacket::Subscribe(packet)) => {
            lemma_subscribed_keeps_duplicate_free(state.subscriptions, packet.topic_name, client);
        },
        ConnectionEvent::Packet(_) => {},
        _ => {
            assert forall|topic: Topic| (#[trigger] after.subscriptions[topic]).no_duplicates() by {
                assert(state.subscriptions[topic].no_duplicates());
                lemma_unsubscribed_all_members(state.subscriptions, client, topic, client);
            }
        },
    }
}

} // verus!
