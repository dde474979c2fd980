//! The codec: frames out of a byte buffer, packets onto one.
//!
//! [`MQTinyCodec`] works on the `BytesMut` of a framed stream: `decode`
//! takes one frame off its front once the frame is complete, `encode` adds
//! one frame to its end. [`decode_frame`] is the same decoding step on a
//! plain slice, for a caller that keeps its own buffer; it also says how
//! many bytes are still missing. What both compute is stated in
//! [`crate::wire`].

use bytes::BytesMut;
use vstd::prelude::*;
use vstd::slice::{slice_subrange, slice_to_vec};
use crate::buffer::{
    buf_byte, buf_bytes, buf_len, buf_put_slice, buf_put_u16, buf_put_u8, buf_reserve,
    buf_split_to, get_u16,
};
use crate::packet::{
    MqttPacket, MqttPublishPacket, MqttSubscribePacket, Packet, PacketType, PacketView, QoS,
};
use crate::wire::{
    consumed_by, decoding, encodable, encoded, frame_packet, laid_out, level_bits, qos_of_level,
    u16_from_be, u16_to_be, Decoding, FramingError, FIXED_HEADER_LEN, MAX_FRAME_LEN, TOPIC_LEN,
};

verus! {

/// The QoS level in the flags of a frame, the low four bits of its first
/// byte.
pub open spec fn flags_level(flags: u8) -> u8 {
    (flags & 0x06) >> 1
}

/// Reads a Publish packet out of a complete frame. `flags` are the low four
/// bits of the frame's first byte.
///
/// The frame must hold its topic, and the flags must name a QoS tier.
pub fn parse_publish_packet(flags: u8, data: &[u8]) -> (publish: MqttPublishPacket)
    requires
        data@.len() >= FIXED_HEADER_LEN + TOPIC_LEN,
        qos_of_level(flags_level(flags)) is Some,
    ensures
        publish@ == (PacketView::Publish {
            topic: u16_from_be(data@[2], data@[3]),
            qos: qos_of_level(flags_level(flags))->0,
            payload: data@.subrange(4, data@.len() as int),
        }),
{
    let level = (flags & 0x06) >> 1;
    let qos = QoS::from_usize(level as usize).unwrap();
    let topic_name = get_u16(slice_subrange(data, FIXED_HEADER_LEN, FIXED_HEADER_LEN + TOPIC_LEN));
    let payload = slice_to_vec(slice_subrange(data, FIXED_HEADER_LEN + TOPIC_LEN, data.len()));
    MqttPublishPacket { topic_name, qos, payload }
}

/// Reads a Subscribe packet out of a complete frame. The flags are not
/// read.
///
/// The frame must hold its topic.
pub fn parse_subscribe_packet(_flags: u8, data: &[u8]) -> (subscribe: MqttSubscribePacket)
    requires
        data@.len() >= FIXED_HEADER_LEN + TOPIC_LEN,
    ensures
        subscribe.topic_name == u16_from_be(data@[2], data@[3]),
{
    let topic_name = get_u16(slice_subrange(data, FIXED_HEADER_LEN, FIXED_HEADER_LEN + TOPIC_LEN));
    MqttSubscribePacket { topic_name }
}

/// Reads the packet out of a complete frame, or says why the frame is
/// refused.
pub fn parse_frame(frame: &[u8]) -> (result: Result<MqttPacket, FramingError>)
    requires
        frame@.len() >= FIXED_HEADER_LEN,
    ensures
        match frame_packet(frame@) {
            Ok(packet) => result is Ok && result->Ok_0@ == packet,
            Err(error) => result is Err && result->Err_0 == error,
        },
{
    let first = frame[0];
    let packet_type = first >> 4;
    let packet_flags = first & 0x0F;
    assert(flags_level(packet_flags) == level_bits(first)) by (bit_vector)
        requires
            packet_flags == first & 0x0F,
    ;
    match packet_type {
        3 => {
            if frame.len() < FIXED_HEADER_LEN + TOPIC_LEN {
                return Err(FramingError::LengthMismatch);
            }
            if (packet_flags & 0x06) >> 1 == 3 {
                return Err(FramingError::InvalidQoS);
            }
            assert(level_bits(first) < 4) by (bit_vector);
            Ok(MqttPacket::Publish(parse_publish_packet(packet_flags, frame)))
        },
        8 => {
            if frame.len() != FIXED_HEADER_LEN + TOPIC_LEN {
                return Err(FramingError::LengthMismatch);
            }
            Ok(MqttPacket::Subscribe(parse_subscribe_packet(packet_flags, frame)))
        },
        _ => Err(FramingError::UnsupportedPacketType),
    }
}

/// What one decoding step made of a buffer.
#[derive(Debug, PartialEq, Eq)]
pub enum DecodeStep {
    /// The first frame is not complete: `missing` more bytes are needed
    /// before another attempt can get further.
    NeedMoreBytes { missing: usize },
    /// The first `consumed` bytes are a frame that holds `packet`.
    Packet { packet: MqttPacket, consumed: usize },
    /// The first `consumed` bytes are a frame that is refused.
    ProtocolError { error: FramingError, consumed: usize },
}

impl View for DecodeStep {
    type V = Decoding;

    open spec fn view(&self) -> Decoding {
        match self {
            DecodeStep::NeedMoreBytes { missing } => Decoding::NeedMoreBytes {
                missing: *missing as nat,
            },
            DecodeStep::Packet { packet, consumed } => Decoding::Packet {
                packet: packet@,
                consumed: *consumed as nat,
            },
            DecodeStep::ProtocolError { error, consumed } => Decoding::ProtocolError {
                error: *error,
                consumed: *consumed as nat,
            },
        }
    }
}

/// One decoding step on the bytes received so far.
///
/// Nothing is decided before the first frame is complete. Once it is, the
/// step gives the frame's packet or the reason why it is refused, and in
/// both cases the length of the frame, which the caller drops from its
/// buffer.
pub fn decode_frame(buffer: &[u8]) -> (step: DecodeStep)
    ensures
        step@ == decoding(buffer@),
{
    if buffer.len() < FIXED_HEADER_LEN {
        return DecodeStep::NeedMoreBytes { missing: FIXED_HEADER_LEN - buffer.len() };
    }
    let remaining_length = buffer[1] as usize;
    let consumed = remaining_length + FIXED_HEADER_LEN;
    if buffer.len() < consumed {
        return DecodeStep::NeedMoreBytes { missing: consumed - buffer.len() };
    }
    match parse_frame(slice_subrange(buffer, 0, consumed)) {
        Ok(packet) => DecodeStep::Packet { packet, consumed },
        Err(error) => DecodeStep::ProtocolError { error, consumed },
    }
}

/// Whether a buffer with these contents has room for one more frame of any
/// length.
pub open spec fn spec_has_room(contents: Seq<u8>) -> bool {
    contents.len() + MAX_FRAME_LEN <= isize::MAX
}

/// Whether `dst` has room for one more frame of any length.
pub fn has_room(dst: &BytesMut) -> (room: bool)
    ensures
        room == spec_has_room(buf_bytes(*dst)),
{
    buf_len(dst) <= isize::MAX as usize - MAX_FRAME_LEN
}

/// Writes a packet in frame layout to the end of `dst`.
///
/// A packet whose parts disagree is refused with its fault and nothing is
/// written. The buffer must have room for a frame.
pub fn encode(item: &Packet, dst: &mut BytesMut) -> (result: Result<(), FramingError>)
    requires
        spec_has_room(buf_bytes(*old(dst))),
    ensures
        match item.spec_fault() {
            None => result is Ok && buf_bytes(*final(dst)) == buf_bytes(*old(dst)) + laid_out(
                *item,
            ),
            Some(error) => result == Err::<(), FramingError>(error) && buf_bytes(*final(dst))
                == buf_bytes(*old(dst)),
        },
{
    if let Some(error) = item.fault() {
        return Err(error);
    }
    let remaining_length = item.fixed_header.remaining_length;
    buf_reserve(dst, FIXED_HEADER_LEN + remaining_length as usize);
    let first = (item.fixed_header.packet_type.code() << 4) | (item.fixed_header.qos.level() << 1);
    buf_put_u8(dst, first);
    buf_put_u8(dst, remaining_length);
    match item.fixed_header.packet_type {
        PacketType::Publish => {
            buf_put_u16(dst, item.variable_header.topic_name);
            if let Some(payload) = &item.payload {
                buf_put_slice(dst, payload.as_slice());
            }
        },
        PacketType::Subscribe => {
            buf_put_u16(dst, item.variable_header.topic_name);
        },
        _ => {
            buf_put_u16(dst, 0);
        },
    }
    Ok(())
}

/// The codec of the protocol. It keeps no state of its own: what has
/// arrived and is not yet decoded stays in the caller's buffer.
pub struct MQTinyCodec {}

impl MQTinyCodec {
    /// Takes the first frame out of `src` once it is complete.
    ///
    /// While the frame is incomplete the result is `Ok(None)` and the
    /// buffer keeps its bytes; room is made for the bytes still missing.
    /// A complete frame leaves the buffer whether it is decoded or refused.
    pub fn decode(&mut self, src: &mut BytesMut) -> (result: Result<
        Option<MqttPacket>,
        FramingError,
    >)
        ensures
            match decoding(buf_bytes(*old(src))) {
                Decoding::NeedMoreBytes { .. } => result matches Ok(None),
                Decoding::Packet { packet, .. } => result matches Ok(Some(decoded))
                    && decoded@ == packet,
                Decoding::ProtocolError { error, .. } => result matches Err(refusal)
                    && refusal == error,
            },
            buf_bytes(*final(src)) == buf_bytes(*old(src)).skip(
                consumed_by(decoding(buf_bytes(*old(src)))) as int,
            ),
    {
        let len = buf_len(src);
        if len < FIXED_HEADER_LEN {
            return Ok(None);
        }
        let remaining_length = buf_byte(src, 1) as usize;
        let frame_len = remaining_length + FIXED_HEADER_LEN;
        if len < frame_len {
            buf_reserve(src, frame_len - len);
            return Ok(None);
        }
        let frame = buf_split_to(src, frame_len);
        match parse_frame(frame.as_slice()) {
            Ok(packet) => Ok(Some(packet)),
            Err(error) => Err(error),
        }
    }

    /// Writes the frame of `item` to the end of `dst`, if the buffer has room
    /// for a frame.
    ///
    /// Without room the result is `None` and nothing is written. With room
    /// the result is that of [`MQTinyCodec::encode`].
    pub fn try_encode(&mut self, item: MqttPacket, dst: &mut BytesMut) -> (result: Option<
        Result<(), FramingError>,
    >)
        ensures
            result is Some <==> spec_has_room(buf_bytes(*old(dst))),
            result is None ==> buf_bytes(*final(dst)) == buf_bytes(*old(dst)),
            result is Some && encodable(item@) ==> result->0 is Ok && buf_bytes(*final(dst))
                == buf_bytes(*old(dst)) + encoded(item@),
            result is Some && !encodable(item@) ==> result->0 == Err::<(), FramingError>(
                FramingError::PayloadTooLarge,
            ) && buf_bytes(*final(dst)) == buf_bytes(*old(dst)),
    {
        if has_room(dst) {
            Some(self.encode(item, dst))
        } else {
            None
        }
    }

    /// Writes the frame of `item` to the end of `dst`.
    ///
    /// A Publish whose payload would push the remaining length past 255 is
    /// refused and nothing is written. The buffer must have room for a
    /// frame.
    pub fn encode(&mut self, item: MqttPacket, dst: &mut BytesMut) -> (result: Result<
        (),
        FramingError,
    >)
        requires
            spec_has_room(buf_bytes(*old(dst))),
        ensures
            encodable(item@) ==> result is Ok && buf_bytes(*final(dst)) == buf_bytes(*old(dst))
                + encoded(item@),
            !encodable(item@) ==> result == Err::<(), FramingError>(FramingError::PayloadTooLarge)
                && buf_bytes(*final(dst)) == buf_bytes(*old(dst)),
    {
        match Packet::from_mqtt(item) {
            Ok(packet) => {
                proof {
                    lemma_laid_out_is_encoded(packet);
                }
                self::encode(&packet, dst)
            },
            Err(error) => Err(error),
        }
    }
}

/// A well-formed packet in frame layout that carries the lowest tier unless
/// it is a Publish is written as the frame of the tagged packet it stands
/// for.
pub proof fn lemma_laid_out_is_encoded(packet: Packet)
    requires
        packet.well_formed(),
        packet.fixed_header.packet_type != PacketType::Publish ==> packet.fixed_header.qos
            == QoS::AtMostOnce,
    ensures
        laid_out(packet) == encoded(packet.as_view()),
{
    assert(u16_to_be(0) == seq![0u8, 0u8]);
    assert(laid_out(packet) =~= encoded(packet.as_view()));
}

} // verus!
