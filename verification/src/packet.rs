//! The packet model: packet kinds, quality-of-service levels and the packets
//! themselves, in two shapes.
//!
//! [`MqttPacket`] is the tagged union that the codec hands to a broker.
//! [`Packet`] is the same information laid out as the frame is: a fixed
//! header, a variable header and an optional payload, together with the
//! predicate that says when the three agree.

use vstd::prelude::*;
use crate::wire::{encodable, FramingError, MAX_PAYLOAD_LEN, TOPIC_LEN};

verus! {

/// The sixteen packet kinds that fit in the high four bits of a frame's
/// first byte.
#[derive(Clone, Copy, Debug, PartialEq, Eq, Structural)]
pub enum PacketType {
    Unknown,
    Connect,
    Connack,
    Publish,
    Puback,
    Pubrec,
    Pubrel,
    Pubcomp,
    Subscribe,
    Suback,
    Unsubscribe,
    Unsuback,
    Pingreq,
    Pingresp,
    Disconnect,
    Reserved,
}

impl PacketType {
    /// The four-bit code of this packet kind on the wire.
    pub open spec fn spec_code(self) -> u8 {
        match self {
            PacketType::Unknown => 0,
            PacketType::Connect => 1,
            PacketType::Connack => 2,
            PacketType::Publish => 3,
            PacketType::Puback => 4,
            PacketType::Pubrec => 5,
            PacketType::Pubrel => 6,
            PacketType::Pubcomp => 7,
            PacketType::Subscribe => 8,
            PacketType::Suback => 9,
            PacketType::Unsubscribe => 10,
            PacketType::Unsuback => 11,
            PacketType::Pingreq => 12,
            PacketType::Pingresp => 13,
            PacketType::Disconnect => 14,
            PacketType::Reserved => 15,
        }
    }

    /// The four-bit code of this packet kind on the wire.
    #[verifier::when_used_as_spec(spec_code)]
    pub fn code(self) -> (code: u8)
        ensures
            code == self.spec_code(),
            code < 16,
    {
        match self {
            PacketType::Unknown => 0,
            PacketType::Connect => 1,
            PacketType::Connack => 2,
            PacketType::Publish => 3,
            PacketType::Puback => 4,
            PacketType::Pubrec => 5,
            PacketType::Pubrel => 6,
            PacketType::Pubcomp => 7,
            PacketType::Subscribe => 8,
            PacketType::Suback => 9,
            PacketType::Unsubscribe => 10,
            PacketType::Unsuback => 11,
            PacketType::Pingreq => 12,
            PacketType::Pingresp => 13,
            PacketType::Disconnect => 14,
            PacketType::Reserved => 15,
        }
    }

    /// The packet kind with the code `n`, if `n` is a four-bit code.
    pub fn from_usize(n: usize) -> (kind: Option<PacketType>)
        ensures
            kind is Some <==> n < 16,
            kind is Some ==> kind->0.spec_code() == n,
    {
        match n {
            0 => Some(PacketType::Unknown),
            1 => Some(PacketType::Connect),
            2 => Some(PacketType::Connack),
            3 => Some(PacketType::Publish),
            4 => Some(PacketType::Puback),
            5 => Some(PacketType::Pubrec),
            6 => Some(PacketType::Pubrel),
            7 => Some(PacketType::Pubcomp),
            8 => Some(PacketType::Subscribe),
            9 => Some(PacketType::Suback),
            10 => Some(PacketType::Unsubscribe),
            11 => Some(PacketType::Unsuback),
            12 => Some(PacketType::Pingreq),
            13 => Some(PacketType::Pingresp),
            14 => Some(PacketType::Disconnect),
            15 => Some(PacketType::Reserved),
            _ => None,
        }
    }
}

/// The delivery-acknowledgment tier that a publisher asks for.
#[derive(Clone, Copy, Debug, PartialEq, Eq, Structural)]
pub enum QoS {
    AtMostOnce,
    AtLeastOnce,
    ExactlyOnce,
}

impl QoS {
    /// The two-bit level of this tier on the wire.
    pub open spec fn spec_level(self) -> u8 {
        match self {
            QoS::AtMostOnce => 0,
            QoS::AtLeastOnce => 1,
            QoS::ExactlyOnce => 2,
        }
    }

    /// The two-bit level of this tier on the wire.
    #[verifier::when_used_as_spec(spec_level)]
    pub fn level(self) -> (level: u8)
        ensures
            level == self.spec_level(),
            level < 3,
    {
        match self {
            QoS::AtMostOnce => 0,
            QoS::AtLeastOnce => 1,
            QoS::ExactlyOnce => 2,
        }
    }

    /// The tier with the level `n`, if there is one.
    pub fn from_usize(n: usize) -> (qos: Option<QoS>)
        ensures
            qos is Some <==> n < 3,
            qos is Some ==> qos->0.spec_level() == n,
    {
        match n {
            0 => Some(QoS::AtMostOnce),
            1 => Some(QoS::AtLeastOnce),
            2 => Some(QoS::ExactlyOnce),
            _ => None,
        }
    }

    /// Whether a publication at this tier is acknowledged to its publisher.
    pub open spec fn spec_wants_ack(self) -> bool {
        self != QoS::AtMostOnce
    }

    /// Whether a publication at this tier is acknowledged to its publisher.
    #[verifier::when_used_as_spec(spec_wants_ack)]
    pub fn wants_ack(self) -> (ack: bool)
        ensures
            ack == self.spec_wants_ack(),
    {
        match self {
            QoS::AtMostOnce => false,
            QoS::AtLeastOnce => true,
            QoS::ExactlyOnce => true,
        }
    }
}

/// A publication: a payload tagged with the topic it is broadcast on.
#[derive(Debug, PartialEq, Eq)]
pub struct MqttPublishPacket {
    pub topic_name: u16,
    pub qos: QoS,
    pub payload: Vec<u8>,
}

/// An acknowledgment of a publication. It carries nothing.
#[derive(Clone, Copy, Debug, PartialEq, Eq, Structural)]
pub struct MqttPubackPacket {}

/// A request to receive the future publications on one topic.
#[derive(Clone, Copy, Debug, PartialEq, Eq, Structural)]
pub struct MqttSubscribePacket {
    pub topic_name: u16,
}

/// A packet that the broker understands.
#[derive(Debug, PartialEq, Eq)]
pub enum MqttPacket {
    Publish(MqttPublishPacket),
    Puback(MqttPubackPacket),
    Subscribe(MqttSubscribePacket),
}

/// What a packet is, with its payload as a sequence of bytes.
pub enum PacketView {
    Publish { topic: u16, qos: QoS, payload: Seq<u8> },
    Puback,
    Subscribe { topic: u16 },
}

impl View for MqttPublishPacket {
    type V = PacketView;

    open spec fn view(&self) -> PacketView {
        PacketView::Publish { topic: self.topic_name, qos: self.qos, payload: self.payload@ }
    }
}

impl View for MqttPubackPacket {
    type V = PacketView;

    open spec fn view(&self) -> PacketView {
        PacketView::Puback
    }
}

impl View for MqttSubscribePacket {
    type V = PacketView;

    open spec fn view(&self) -> PacketView {
        PacketView::Subscribe { topic: self.topic_name }
    }
}

impl View for MqttPacket {
    type V = PacketView;

    open spec fn view(&self) -> PacketView {
        match self {
            MqttPacket::Publish(publish) => publish@,
            MqttPacket::Puback(puback) => puback@,
            MqttPacket::Subscribe(subscribe) => subscribe@,
        }
    }
}

impl Clone for MqttPublishPacket {
    fn clone(&self) -> (copy: Self)
        ensures
            copy@ == self@,
    {
        let payload = self.payload.clone();
        assert(payload@ =~= self.payload@);
        MqttPublishPacket { topic_name: self.topic_name, qos: self.qos, payload }
    }
}

impl Clone for MqttPacket {
    fn clone(&self) -> (copy: Self)
        ensures
            copy@ == self@,
    {
        match self {
            MqttPacket::Publish(publish) => MqttPacket::Publish(publish.clone()),
            MqttPacket::Puback(puback) => MqttPacket::Puback(*puback),
            MqttPacket::Subscribe(subscribe) => MqttPacket::Subscribe(*subscribe),
        }
    }
}

/// The fixed header of a frame: its kind, its QoS tier and the number of
/// bytes that follow the header.
#[derive(Clone, Copy, Debug, PartialEq, Eq, Structural)]
pub struct FixedHeader {
    pub packet_type: PacketType,
    pub qos: QoS,
    pub remaining_length: u8,
}

/// The variable header of a frame: the topic.
#[derive(Clone, Copy, Debug, PartialEq, Eq, Structural)]
pub struct VariableHeader {
    pub topic_name: u16,
}

/// A packet laid out as its frame is.
///
/// The three parts are free-standing fields, so they can disagree.
/// [`Packet::fault`] says whether they do.
#[derive(Debug, PartialEq, Eq)]
pub struct Packet {
    pub fixed_header: FixedHeader,
    pub variable_header: VariableHeader,
    pub payload: Option<Vec<u8>>,
}

impl Packet {
    /// The payload bytes; none where the packet has no payload.
    pub open spec fn payload_bytes(&self) -> Seq<u8> {
        match self.payload {
            Some(bytes) => bytes@,
            None => Seq::empty(),
        }
    }

    /// What is wrong with this packet, if anything.
    ///
    /// Only Publish, Subscribe and Puback have a frame. The remaining
    /// length counts the two topic bytes and the payload, so a payload has
    /// at most 253 bytes, and only a Publish carries one.
    pub open spec fn spec_fault(&self) -> Option<FramingError> {
        let carried = self.payload_bytes().len();
        match self.fixed_header.packet_type {
            PacketType::Publish => if carried > MAX_PAYLOAD_LEN {
                Some(FramingError::PayloadTooLarge)
            } else if self.fixed_header.remaining_length != TOPIC_LEN + carried {
                Some(FramingError::LengthMismatch)
            } else {
                None
            },
            PacketType::Subscribe | PacketType::Puback => if carried != 0
                || self.fixed_header.remaining_length != TOPIC_LEN {
                Some(FramingError::LengthMismatch)
            } else {
                None
            },
            _ => Some(FramingError::UnsupportedPacketType),
        }
    }

    /// Whether the header, the topic and the payload agree.
    pub open spec fn well_formed(&self) -> bool {
        self.spec_fault() is None
    }

    /// The number of payload bytes.
    fn payload_len(&self) -> (len: usize)
        ensures
            len == self.payload_bytes().len(),
    {
        match &self.payload {
            Some(bytes) => bytes.len(),
            None => 0,
        }
    }

    /// What is wrong with this packet, if anything.
    #[verifier::when_used_as_spec(spec_fault)]
    pub fn fault(&self) -> (fault: Option<FramingError>)
        ensures
            fault == self.spec_fault(),
    {
        let carried = self.payload_len();
        match self.fixed_header.packet_type {
            PacketType::Publish => {
                if carried > MAX_PAYLOAD_LEN {
                    Some(FramingError::PayloadTooLarge)
                } else if self.fixed_header.remaining_length as usize != TOPIC_LEN + carried {
                    Some(FramingError::LengthMismatch)
                } else {
                    None
                }
            },
            PacketType::Subscribe | PacketType::Puback => {
                if carried != 0 || self.fixed_header.remaining_length as usize != TOPIC_LEN {
                    Some(FramingError::LengthMismatch)
                } else {
                    None
                }
            },
            _ => Some(FramingError::UnsupportedPacketType),
        }
    }

    /// The tagged packet that this well-formed packet stands for.
    ///
    /// A Publish keeps its QoS tier; the tier of a Subscribe or a Puback is
    /// not part of the packet.
    pub open spec fn as_view(&self) -> PacketView
        recommends
            self.well_formed(),
    {
        match self.fixed_header.packet_type {
            PacketType::Publish => PacketView::Publish {
                topic: self.variable_header.topic_name,
                qos: self.fixed_header.qos,
                payload: self.payload_bytes(),
            },
            PacketType::Subscribe => PacketView::Subscribe {
                topic: self.variable_header.topic_name,
            },
            _ => PacketView::Puback,
        }
    }

    /// Lays a tagged packet out as its frame will be: the remaining length
    /// is computed from the variant, and a Subscribe or a Puback is given
    /// the lowest tier. A Publish whose payload is too long for a one-byte
    /// remaining length is refused.
    pub fn from_mqtt(item: MqttPacket) -> (result: Result<Packet, FramingError>)
        ensures
            encodable(item@) ==> result is Ok && result->Ok_0.well_formed()
                && result->Ok_0.as_view() == item@
                && (!(item is Publish) ==> result->Ok_0.fixed_header.qos == QoS::AtMostOnce
                && result->Ok_0.payload is None)
                && (item is Puback ==> result->Ok_0.variable_header.topic_name == 0),
            !encodable(item@) ==> result == Err::<Packet, FramingError>(
                FramingError::PayloadTooLarge,
            ),
    {
        match item {
            MqttPacket::Publish(publish) => {
                let carried = publish.payload.len();
                if carried > MAX_PAYLOAD_LEN {
                    return Err(FramingError::PayloadTooLarge);
                }
                Ok(
                    Packet {
                        fixed_header: FixedHeader {
                            packet_type: PacketType::Publish,
                            qos: publish.qos,
                            remaining_length: (TOPIC_LEN + carried) as u8,
                        },
                        variable_header: VariableHeader { topic_name: publish.topic_name },
                        payload: Some(publish.payload),
                    },
                )
            },
            MqttPacket::Subscribe(subscribe) => Ok(
                Packet {
                    fixed_header: FixedHeader {
                        packet_type: PacketType::Subscribe,
                        qos: QoS::AtMostOnce,
                        remaining_length: TOPIC_LEN as u8,
                    },
                    variable_header: VariableHeader { topic_name: subscribe.topic_name },
                    payload: None,
                },
            ),
            MqttPacket::Puback(_) => Ok(
                Packet {
                    fixed_header: FixedHeader {
                        packet_type: PacketType::Puback,
                        qos: QoS::AtMostOnce,
                        remaining_length: TOPIC_LEN as u8,
                    },
                    variable_header: VariableHeader { topic_name: 0 },
                    payload: None,
                },
            ),
        }
    }
}

} // verus!
