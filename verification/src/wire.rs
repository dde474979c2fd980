//! The wire format, stated as mathematics.
//!
//! A frame is a two-byte fixed header followed by as many bytes as the
//! header's second byte announces:
//!
//! ```text
//! byte 0: bits 7..4 = packet kind, bits 2..1 = QoS level, bits 3 and 0 unused
//! byte 1: remaining length, the number of bytes after byte 1
//! bytes 2..4: topic, big-endian
//! bytes 4.. : payload (Publish only)
//! ```
//!
//! A Puback frame has a remaining length of 2 and two zero bytes where the
//! other kinds have their topic.

use vstd::prelude::*;
use crate::packet::{Packet, PacketType, PacketView, QoS};

verus! {

/// The length of the fixed header.
pub const FIXED_HEADER_LEN: usize = 2;

/// The length of the topic field.
pub const TOPIC_LEN: usize = 2;

/// The longest payload that a Publish frame can carry.
pub const MAX_PAYLOAD_LEN: usize = 253;

/// Why a frame was refused.
#[derive(Clone, Copy, Debug, PartialEq, Eq, Structural)]
pub enum FramingError {
    /// The frame's kind is none of those that can be decoded or encoded.
    UnsupportedPacketType,
    /// The remaining length does not fit what the frame's kind carries.
    LengthMismatch,
    /// The QoS bits of a Publish frame name no level.
    InvalidQoS,
    /// The payload is too long for a one-byte remaining length.
    PayloadTooLarge,
}

/// The first byte of a frame of kind `kind` at QoS level `level`.
pub open spec fn header_byte(kind: u8, level: u8) -> u8 {
    (kind << 4) | (level << 1)
}

/// The packet kind code in a frame's first byte.
pub open spec fn kind_bits(first: u8) -> u8 {
    first >> 4
}

/// The QoS level in a frame's first byte.
pub open spec fn level_bits(first: u8) -> u8 {
    (first >> 1) & 0x03
}

/// The number whose big-endian bytes are `hi`, `lo`.
pub open spec fn u16_from_be(hi: u8, lo: u8) -> u16 {
    (hi as int * 256 + lo as int) as u16
}

/// The two bytes of `value`, most significant first.
pub open spec fn u16_to_be(value: u16) -> Seq<u8> {
    seq![(value / 256) as u8, (value % 256) as u8]
}

/// The QoS tier with the level `level`, if there is one.
pub open spec fn qos_of_level(level: u8) -> Option<QoS> {
    if level == 0 {
        Some(QoS::AtMostOnce)
    } else if level == 1 {
        Some(QoS::AtLeastOnce)
    } else if level == 2 {
        Some(QoS::ExactlyOnce)
    } else {
        None
    }
}

/// Whether a packet has a frame: a payload of at most 253 bytes.
pub open spec fn encodable(packet: PacketView) -> bool {
    match packet {
        PacketView::Publish { payload, .. } => payload.len() <= MAX_PAYLOAD_LEN,
        _ => true,
    }
}

/// The frame of a packet.
pub open spec fn encoded(packet: PacketView) -> Seq<u8> {
    match packet {
        PacketView::Publish { topic, qos, payload } => seq![
            header_byte(PacketType::Publish.spec_code(), qos.spec_level()),
            (TOPIC_LEN + payload.len()) as u8,
        ] + u16_to_be(topic) + payload,
        PacketView::Subscribe { topic } => seq![
            header_byte(PacketType::Subscribe.spec_code(), 0),
            TOPIC_LEN as u8,
        ] + u16_to_be(topic),
        PacketView::Puback => seq![
            header_byte(PacketType::Puback.spec_code(), 0),
            TOPIC_LEN as u8,
            0u8,
            0u8,
        ],
    }
}

/// The longest frame: the fixed header and 255 bytes after it.
pub const MAX_FRAME_LEN: usize = 257;

/// The frame that a packet in frame layout is written as: the header byte,
/// the remaining length, the topic and the payload. A Puback has two zero
/// bytes in the topic's place.
pub open spec fn laid_out(packet: Packet) -> Seq<u8> {
    seq![
        header_byte(packet.fixed_header.packet_type.spec_code(), packet.fixed_header.qos.spec_level()),
        packet.fixed_header.remaining_length,
    ] + u16_to_be(
        if packet.fixed_header.packet_type == PacketType::Puback {
            0
        } else {
            packet.variable_header.topic_name
        },
    ) + packet.payload_bytes()
}

/// The length that the fixed header of `buffer` gives its frame, counting
/// the header itself.
pub open spec fn frame_len(buffer: Seq<u8>) -> nat
    recommends
        buffer.len() >= FIXED_HEADER_LEN,
{
    (FIXED_HEADER_LEN + buffer[1]) as nat
}

/// Whether `buffer` holds the whole of its first frame.
pub open spec fn has_frame(buffer: Seq<u8>) -> bool {
    buffer.len() >= FIXED_HEADER_LEN && buffer.len() >= frame_len(buffer)
}

/// The packet in a complete frame, or why there is none.
///
/// A Publish frame carries a topic and any payload; a Subscribe frame
/// carries a topic and nothing else, and its QoS bits are not read. No other
/// kind is decoded.
pub open spec fn frame_packet(frame: Seq<u8>) -> Result<PacketView, FramingError>
    recommends
        has_frame(frame),
        frame.len() == frame_len(frame),
{
    let kind = kind_bits(frame[0]);
    if kind == PacketType::Publish.spec_code() {
        if frame.len() < FIXED_HEADER_LEN + TOPIC_LEN {
            Err(FramingError::LengthMismatch)
        } else {
            match qos_of_level(level_bits(frame[0])) {
                None => Err(FramingError::InvalidQoS),
                Some(qos) => Ok(
                    PacketView::Publish {
                        topic: u16_from_be(frame[2], frame[3]),
                        qos,
                        payload: frame.subrange(4, frame.len() as int),
                    },
                ),
            }
        }
    } else if kind == PacketType::Subscribe.spec_code() {
        if frame.len() != FIXED_HEADER_LEN + TOPIC_LEN {
            Err(FramingError::LengthMismatch)
        } else {
            Ok(PacketView::Subscribe { topic: u16_from_be(frame[2], frame[3]) })
        }
    } else {
        Err(FramingError::UnsupportedPacketType)
    }
}

/// What one decoding step makes of a buffer.
pub enum Decoding {
    /// The first frame is not complete: `missing` more bytes are needed
    /// before another attempt can get further, and nothing is consumed.
    NeedMoreBytes { missing: nat },
    /// The first `consumed` bytes are a frame that holds `packet`.
    Packet { packet: PacketView, consumed: nat },
    /// The first `consumed` bytes are a frame that is refused.
    ProtocolError { error: FramingError, consumed: nat },
}

/// One decoding step on the bytes received so far.
pub open spec fn decoding(buffer: Seq<u8>) -> Decoding {
    if buffer.len() < FIXED_HEADER_LEN {
        Decoding::NeedMoreBytes { missing: (FIXED_HEADER_LEN - buffer.len()) as nat }
    } else if buffer.len() < frame_len(buffer) {
        Decoding::NeedMoreBytes { missing: (frame_len(buffer) - buffer.len()) as nat }
    } else {
        let consumed = frame_len(buffer);
        match frame_packet(buffer.subrange(0, consumed as int)) {
            Ok(packet) => Decoding::Packet { packet, consumed },
            Err(error) => Decoding::ProtocolError { error, consumed },
        }
    }
}

/// The number of bytes that a decoding step takes from the buffer.
pub open spec fn consumed_by(step: Decoding) -> nat {
    match step {
        Decoding::NeedMoreBytes { .. } => 0,
        Decoding::Packet { consumed, .. } => consumed,
        Decoding::ProtocolError { consumed, .. } => consumed,
    }
}

/// The kind and the level that went into a header byte can be read back
/// from it.
pub proof fn lemma_header_byte_reads_back(kind: u8, level: u8)
    requires
        kind < 16,
        level < 4,
    ensures
        kind_bits(header_byte(kind, level)) == kind,
        level_bits(header_byte(kind, level)) == level,
{
    assert(((kind << 4) | (level << 1)) >> 4 == kind) by (bit_vector)
        requires
            kind < 16,
            level < 4,
    ;
    assert(((((kind << 4) | (level << 1)) >> 1) & 0x03) == level) by (bit_vector)
        requires
            kind < 16,
            level < 4,
    ;
}

/// A topic can be read back from its two bytes.
pub proof fn lemma_topic_reads_back(topic: u16)
    ensures
        u16_to_be(topic).len() == 2,
        u16_from_be(u16_to_be(topic)[0], u16_to_be(topic)[1]) == topic,
{
}

/// Round trip: the frame of a Publish or a Subscribe packet decodes to that
/// packet and is consumed whole, whatever follows it in the buffer.
pub proof fn lemma_round_trip(packet: PacketView, rest: Seq<u8>)
    requires
        encodable(packet),
        !(packet is Puback),
    ensures
        decoding(encoded(packet) + rest) == (Decoding::Packet {
            packet,
            consumed: encoded(packet).len(),
        }),
{
    let frame = encoded(packet);
    let buffer = frame + rest;
    assert(buffer.subrange(0, frame.len() as int) =~= frame);
    match packet {
        PacketView::Publish { topic, qos, payload } => {
            lemma_header_byte_reads_back(PacketType::Publish.spec_code(), qos.spec_level());
            lemma_topic_reads_back(topic);
            assert(frame.len() == 4 + payload.len());
            assert(frame.subrange(4, frame.len() as int) =~= payload);
            assert(frame_len(buffer) == frame.len());
        },
        PacketView::Subscribe { topic } => {
            lemma_header_byte_reads_back(PacketType::Subscribe.spec_code(), 0);
            lemma_topic_reads_back(topic);
            assert(frame.len() == 4);
            assert(frame_len(buffer) == frame.len());
        },
        PacketView::Puback => {},
    }
}

/// A Puback frame is well delimited, but no decoder accepts it: it is
/// consumed whole and refused as an unsupported kind.
pub proof fn lemma_puback_is_refused(rest: Seq<u8>)
    ensures
        decoding(encoded(PacketView::Puback) + rest) == (Decoding::ProtocolError {
            error: FramingError::UnsupportedPacketType,
            consumed: 4,
        }),
{
    let frame = encoded(PacketView::Puback);
    lemma_header_byte_reads_back(PacketType::Puback.spec_code(), 0);
    assert((frame + rest).subrange(0, 4) =~= frame);
}

/// Partial-frame stability: while a buffer holds less than its first frame,
/// a decoding step asks for more bytes, no more than the frame still lacks,
/// and consumes nothing.
pub proof fn lemma_prefix_needs_more(buffer: Seq<u8>, cut: int)
    requires
        has_frame(buffer),
        0 <= cut < frame_len(buffer),
    ensures
        decoding(buffer.take(cut)) is NeedMoreBytes,
        0 < decoding(buffer.take(cut))->missing <= frame_len(buffer) - cut,
        consumed_by(decoding(buffer.take(cut))) == 0,
{
    let prefix = buffer.take(cut);
    if cut >= FIXED_HEADER_LEN {
        assert(prefix[1] == buffer[1]);
    }
}

/// Partial-frame stability: the byte that completes a frame decides the
/// step. What the step gives depends on the frame alone, not on what comes
/// after it, and it consumes exactly the frame.
pub proof fn lemma_complete_frame_decides(buffer: Seq<u8>)
    requires
        has_frame(buffer),
    ensures
        decoding(buffer.take(frame_len(buffer) as int)) == decoding(buffer),
        consumed_by(decoding(buffer)) == frame_len(buffer),
{
    let frame = buffer.take(frame_len(buffer) as int);
    assert(frame[1] == buffer[1]);
    assert(frame.subrange(0, frame_len(buffer) as int) =~= buffer.subrange(
        0,
        frame_len(buffer) as int,
    ));
}

/// Partial-frame stability for a packet's own frame: fed one byte at a
/// time, every proper prefix asks for more bytes and the whole frame gives
/// the packet.
pub proof fn lemma_byte_by_byte(packet: PacketView, fed: int)
    requires
        encodable(packet),
        !(packet is Puback),
        0 <= fed <= encoded(packet).len(),
    ensures
        fed < encoded(packet).len() ==> decoding(encoded(packet).take(fed)) is NeedMoreBytes,
        fed == encoded(packet).len() ==> decoding(encoded(packet).take(fed)) == (Decoding::Packet {
            packet,
            consumed: encoded(packet).len(),
        }),
{
    let frame = encoded(packet);
    lemma_round_trip(packet, Seq::empty());
    assert(frame + Seq::<u8>::empty() =~= frame);
    assert(frame.take(frame.len() as int) =~= frame);
    if fed < frame.len() {
        lemma_prefix_needs_more(frame, fed);
    }
}

} // verus!
