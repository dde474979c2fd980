//! A tiny publish/subscribe message broker core.
//!
//! Clients of the broker speak a simplified, MQTT-inspired binary protocol
//! over a byte stream: they publish a payload under a 16-bit topic, or
//! subscribe to a topic and receive what is published on it from then on.
//!
//! - [`packet`]: the packet kinds, the QoS tiers and the packets.
//! - [`wire`]: the frame format as mathematics, with the laws of encoding
//!   and decoding.
//! - [`buffer`]: the byte buffer of the `bytes` crate, as far as the codec
//!   uses it.
//! - [`codec`]: the codec on that buffer, and one decoding step on a slice.
//! - [`registry`]: the subscribers of each topic.
//! - [`broker`]: the directory of live connections and the routing
//!   decisions, with the laws of fan-out, acknowledgment and teardown.
//!
//! The crate performs no I/O. Every function states what it computes in a
//! contract that Verus proves; the functions in [`buffer`] are the
//! exception, and state what is taken on trust of `bytes`.

pub mod broker;
pub mod buffer;
pub mod codec;
pub mod packet;
pub mod registry;
pub mod wire;

pub use broker::{Broker, Clients, Command, ConnectionEvent, Delivery, Outcome};
pub use codec::{
    decode_frame, encode, has_room, parse_frame, parse_publish_packet, parse_subscribe_packet,
    DecodeStep, MQTinyCodec,
};
pub use packet::{
    FixedHeader, MqttPacket, MqttPubackPacket, MqttPublishPacket, MqttSubscribePacket, Packet,
    PacketType, QoS, VariableHeader,
};
pub use registry::{ClientId, SubscriptionTable, Topic};
pub use wire::FramingError;
