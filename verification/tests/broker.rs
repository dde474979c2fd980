use mqtiny::{
    Broker, Clients, Command, ConnectionEvent, Delivery, FramingError, MqttPacket,
    MqttPubackPacket, MqttPublishPacket, MqttSubscribePacket, Outcome, QoS, SubscriptionTable,
};

const A: u64 = 1;
const B: u64 = 2;
const C: u64 = 3;
const P: u64 = 10;
const S: u64 = 11;

fn publish(topic_name: u16, qos: QoS, payload: &[u8]) -> MqttPublishPacket {
    MqttPublishPacket { topic_name, qos, payload: payload.to_vec() }
}

fn on_publish(topic_name: u16, qos: QoS, payload: &[u8]) -> ConnectionEvent {
    ConnectionEvent::Packet(MqttPacket::Publish(publish(topic_name, qos, payload)))
}

fn on_subscribe(topic_name: u16) -> ConnectionEvent {
    ConnectionEvent::Packet(MqttPacket::Subscribe(MqttSubscribePacket { topic_name }))
}

fn copy_to(to: u64, topic_name: u16, qos: QoS, payload: &[u8]) -> Delivery {
    Delivery { to, packet: MqttPacket::Publish(publish(topic_name, qos, payload)) }
}

fn puback_to(to: u64) -> Delivery {
    Delivery { to, packet: MqttPacket::Puback(MqttPubackPacket {}) }
}

fn quiet() -> Outcome {
    Outcome { deliveries: vec![], terminated: false }
}

#[test]
fn registry_starts_empty() {
    let table = SubscriptionTable::new();
    assert_eq!(table.get_subscriptions(&0), Vec::<u64>::new());
    assert_eq!(table.get_subscriptions(&7), Vec::<u64>::new());
}

#[test]
fn registry_keeps_the_order_of_subscription() {
    let mut table = SubscriptionTable::new();
    table.add_subscription(7, B);
    table.add_subscription(7, A);
    table.add_subscription(8, C);
    assert_eq!(table.get_subscriptions(&7), vec![B, A]);
    assert_eq!(table.get_subscriptions(&8), vec![C]);
    assert_eq!(table.get_subscriptions(&9), Vec::<u64>::new());
}

#[test]
fn registry_subscribe_is_idempotent() {
    let mut table = SubscriptionTable::new();
    table.add_subscription(7, A);
    table.add_subscription(7, B);
    table.add_subscription(7, A);
    assert_eq!(table.get_subscriptions(&7), vec![A, B]);
}

#[test]
fn registry_remove_subscription() {
    let mut table = SubscriptionTable::new();
    table.add_subscription(7, A);
    table.add_subscription(7, B);
    table.add_subscription(7, C);
    table.add_subscription(8, B);
    table.remove_subscription(&7, &B);
    assert_eq!(table.get_subscriptions(&7), vec![A, C]);
    assert_eq!(table.get_subscriptions(&8), vec![B]);
    table.remove_subscription(&7, &B);
    table.remove_subscription(&9, &A);
    assert_eq!(table.get_subscriptions(&7), vec![A, C]);
    assert_eq!(table.get_subscriptions(&9), Vec::<u64>::new());
}

#[test]
fn registry_unsubscribe_all() {
    let mut table = SubscriptionTable::new();
    for topic in 0..40u16 {
        table.add_subscription(topic, A);
        table.add_subscription(topic, B);
        if topic % 2 == 0 {
            table.add_subscription(topic, C);
        }
    }
    table.unsubscribe_all(B);
    for topic in 0..40u16 {
        let expected = if topic % 2 == 0 { vec![A, C] } else { vec![A] };
        assert_eq!(table.get_subscriptions(&topic), expected);
    }
    table.unsubscribe_all(B);
    table.unsubscribe_all(A);
    table.unsubscribe_all(C);
    for topic in 0..40u16 {
        assert_eq!(table.get_subscriptions(&topic), Vec::<u64>::new());
    }
}

#[test]
fn directory_of_connections() {
    let mut directory = Clients::new();
    assert!(!directory.contains(A));
    directory.insert(A);
    directory.insert(B);
    directory.insert(A);
    assert!(directory.contains(A));
    assert!(directory.contains(B));
    assert!(!directory.contains(C));
    directory.remove(A);
    directory.remove(C);
    assert!(!directory.contains(A));
    assert!(directory.contains(B));
}

#[test]
fn fan_out_reaches_the_subscribers_of_the_topic_only() {
    const T: u16 = 100;
    const U: u16 = 200;
    let mut broker = Broker::new();
    for client in [A, B, C, P] {
        broker.connect(client);
    }
    assert_eq!(broker.process(A, on_subscribe(T)), quiet());
    assert_eq!(broker.process(B, on_subscribe(T)), quiet());
    assert_eq!(broker.process(C, on_subscribe(U)), quiet());
    let outcome = broker.process(P, on_publish(T, QoS::AtMostOnce, b"data"));
    assert_eq!(
        outcome,
        Outcome {
            deliveries: vec![
                copy_to(A, T, QoS::AtMostOnce, b"data"),
                copy_to(B, T, QoS::AtMostOnce, b"data"),
            ],
            terminated: false,
        }
    );
    let outcome = broker.process(P, on_publish(300, QoS::AtMostOnce, b"data"));
    assert_eq!(outcome, quiet());
}

#[test]
fn publisher_gets_no_copy_unless_it_is_subscribed() {
    let mut broker = Broker::new();
    broker.connect(A);
    broker.connect(P);
    broker.process(A, on_subscribe(1));
    let outcome = broker.process(P, on_publish(1, QoS::AtMostOnce, b"x"));
    assert_eq!(outcome.deliveries, vec![copy_to(A, 1, QoS::AtMostOnce, b"x")]);
    broker.process(P, on_subscribe(1));
    let outcome = broker.process(P, on_publish(1, QoS::AtLeastOnce, b"x"));
    assert_eq!(
        outcome.deliveries,
        vec![
            puback_to(P),
            copy_to(A, 1, QoS::AtLeastOnce, b"x"),
            copy_to(P, 1, QoS::AtLeastOnce, b"x"),
        ]
    );
}

#[test]
fn subscribing_twice_gives_one_delivery() {
    let mut broker = Broker::new();
    broker.connect(S);
    broker.connect(P);
    broker.process(S, on_subscribe(7));
    broker.process(S, on_subscribe(7));
    assert_eq!(broker.subscribers(7), vec![S]);
    let outcome = broker.process(P, on_publish(7, QoS::AtMostOnce, b"once"));
    assert_eq!(outcome.deliveries, vec![copy_to(S, 7, QoS::AtMostOnce, b"once")]);
}

#[test]
fn teardown_is_complete() {
    let mut broker = Broker::new();
    for client in [A, B, P] {
        broker.connect(client);
    }
    for topic in [1u16, 2, 3] {
        broker.process(A, on_subscribe(topic));
        broker.process(B, on_subscribe(topic));
    }
    let outcome = broker.process(A, ConnectionEvent::Closed);
    assert_eq!(outcome, Outcome { deliveries: vec![], terminated: true });
    assert!(!broker.is_connected(A));
    assert!(broker.is_connected(B));
    for topic in [1u16, 2, 3] {
        assert_eq!(broker.subscribers(topic), vec![B]);
        let outcome = broker.process(P, on_publish(topic, QoS::ExactlyOnce, b"later"));
        assert_eq!(
            outcome.deliveries,
            vec![puback_to(P), copy_to(B, topic, QoS::ExactlyOnce, b"later")]
        );
    }
}

#[test]
fn every_fatal_event_tears_down() {
    let fatal = [
        ConnectionEvent::Closed,
        ConnectionEvent::ReadFailed,
        ConnectionEvent::WriteFailed,
        ConnectionEvent::ProtocolError(FramingError::UnsupportedPacketType),
        ConnectionEvent::ProtocolError(FramingError::LengthMismatch),
        ConnectionEvent::ProtocolError(FramingError::InvalidQoS),
    ];
    for event in fatal {
        let mut broker = Broker::new();
        broker.connect(A);
        broker.process(A, on_subscribe(5));
        let outcome = broker.process(A, event);
        assert_eq!(outcome, Outcome { deliveries: vec![], terminated: true });
        assert!(!broker.is_connected(A));
        assert_eq!(broker.subscribers(5), Vec::<u64>::new());
    }
}

#[test]
fn disconnect_twice_is_harmless() {
    let mut broker = Broker::new();
    broker.connect(A);
    broker.connect(B);
    broker.process(A, on_subscribe(5));
    broker.process(B, on_subscribe(5));
    broker.disconnect(A);
    broker.disconnect(A);
    assert!(!broker.is_connected(A));
    assert_eq!(broker.subscribers(5), vec![B]);
}

#[test]
fn subscriber_that_left_the_directory_is_skipped() {
    let mut broker = Broker::new();
    broker.connect(P);
    broker.process(A, on_subscribe(5));
    assert_eq!(broker.subscribers(5), vec![A]);
    let outcome = broker.process(P, on_publish(5, QoS::AtMostOnce, b"x"));
    assert_eq!(outcome, quiet());
    broker.connect(A);
    let outcome = broker.process(P, on_publish(5, QoS::AtMostOnce, b"x"));
    assert_eq!(outcome.deliveries, vec![copy_to(A, 5, QoS::AtMostOnce, b"x")]);
}

#[test]
fn qos_decides_the_acknowledgment() {
    let mut broker = Broker::new();
    broker.connect(P);
    let outcome = broker.process(P, on_publish(1, QoS::AtMostOnce, b"a"));
    assert_eq!(outcome, quiet());
    let outcome = broker.process(P, on_publish(1, QoS::AtLeastOnce, b"a"));
    assert_eq!(outcome, Outcome { deliveries: vec![puback_to(P)], terminated: false });
    let outcome = broker.process(P, on_publish(1, QoS::ExactlyOnce, b"a"));
    assert_eq!(outcome, Outcome { deliveries: vec![puback_to(P)], terminated: false });
}

#[test]
fn inbound_puback_changes_nothing() {
    let mut broker = Broker::new();
    broker.connect(A);
    broker.process(A, on_subscribe(1));
    let outcome = broker.process(A, ConnectionEvent::Packet(MqttPacket::Puback(MqttPubackPacket {})));
    assert_eq!(outcome, quiet());
    assert!(broker.is_connected(A));
    assert_eq!(broker.subscribers(1), vec![A]);
}

#[test]
fn manage_carries_out_commands() {
    let mut broker = Broker::new();
    broker.connect(A);
    broker.connect(B);
    let none = broker.manage(Command::Subscribe {
        packet: MqttSubscribePacket { topic_name: 4 },
        client: A,
    });
    assert_eq!(none, vec![]);
    broker.manage(Command::Subscribe { packet: MqttSubscribePacket { topic_name: 4 }, client: B });
    let deliveries = broker.manage(Command::Publish { packet: publish(4, QoS::AtLeastOnce, b"m") });
    assert_eq!(
        deliveries,
        vec![copy_to(A, 4, QoS::AtLeastOnce, b"m"), copy_to(B, 4, QoS::AtLeastOnce, b"m")]
    );
}

#[test]
fn route_publish_copies_the_packet_for_each_recipient() {
    let mut broker = Broker::new();
    broker.connect(A);
    broker.connect(B);
    broker.process(B, on_subscribe(9));
    broker.process(A, on_subscribe(9));
    let packet = publish(9, QoS::AtMostOnce, &[0xff; 253]);
    assert_eq!(
        broker.route_publish(&packet),
        vec![
            Delivery { to: B, packet: MqttPacket::Publish(packet.clone()) },
            Delivery { to: A, packet: MqttPacket::Publish(packet.clone()) },
        ]
    );
}

#[test]
fn scenario_subscribe_then_publish_hello() {
    let mut broker = Broker::new();
    broker.connect(S);
    broker.connect(P);
    assert_eq!(broker.process(S, on_subscribe(7)), quiet());
    let outcome = broker.process(P, on_publish(7, QoS::AtMostOnce, b"hello"));
    assert!(!outcome.terminated);
    assert_eq!(outcome.deliveries, vec![copy_to(S, 7, QoS::AtMostOnce, b"hello")]);
    let to_publisher: Vec<&Delivery> = outcome.deliveries.iter().filter(|d| d.to == P).collect();
    assert!(to_publisher.is_empty());
}
