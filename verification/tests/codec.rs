use bytes::BytesMut;
use mqtiny::{
    decode_frame, encode, has_room, parse_frame, parse_publish_packet, parse_subscribe_packet, DecodeStep,
    FixedHeader, FramingError, MQTinyCodec, MqttPacket, MqttPubackPacket, MqttPublishPacket,
    MqttSubscribePacket, Packet, PacketType, QoS, VariableHeader,
};

fn publish(topic_name: u16, qos: QoS, payload: &[u8]) -> MqttPacket {
    MqttPacket::Publish(MqttPublishPacket { topic_name, qos, payload: payload.to_vec() })
}

fn subscribe(topic_name: u16) -> MqttPacket {
    MqttPacket::Subscribe(MqttSubscribePacket { topic_name })
}

fn encoded(packet: MqttPacket) -> Vec<u8> {
    let mut dst = BytesMut::new();
    MQTinyCodec {}.encode(packet, &mut dst).unwrap();
    dst.to_vec()
}

#[test]
fn packet_type_codes() {
    let kinds = [
        PacketType::Unknown,
        PacketType::Connect,
        PacketType::Connack,
        PacketType::Publish,
        PacketType::Puback,
        PacketType::Pubrec,
        PacketType::Pubrel,
        PacketType::Pubcomp,
        PacketType::Subscribe,
        PacketType::Suback,
        PacketType::Unsubscribe,
        PacketType::Unsuback,
        PacketType::Pingreq,
        PacketType::Pingresp,
        PacketType::Disconnect,
        PacketType::Reserved,
    ];
    for (n, kind) in kinds.iter().enumerate() {
        assert_eq!(PacketType::from_usize(n), Some(*kind));
        assert_eq!(kind.code() as usize, n);
    }
    assert_eq!(PacketType::from_usize(16), None);
    assert_eq!(PacketType::from_usize(usize::MAX), None);
}

#[test]
fn qos_levels() {
    assert_eq!(QoS::from_usize(0), Some(QoS::AtMostOnce));
    assert_eq!(QoS::from_usize(1), Some(QoS::AtLeastOnce));
    assert_eq!(QoS::from_usize(2), Some(QoS::ExactlyOnce));
    assert_eq!(QoS::from_usize(3), None);
    assert_eq!(QoS::AtMostOnce.level(), 0);
    assert_eq!(QoS::AtLeastOnce.level(), 1);
    assert_eq!(QoS::ExactlyOnce.level(), 2);
    assert!(!QoS::AtMostOnce.wants_ack());
    assert!(QoS::AtLeastOnce.wants_ack());
    assert!(QoS::ExactlyOnce.wants_ack());
}

#[test]
fn publish_frame_bytes() {
    assert_eq!(
        encoded(publish(7, QoS::AtMostOnce, b"hello")),
        vec![0x30, 7, 0, 7, b'h', b'e', b'l', b'l', b'o']
    );
    assert_eq!(encoded(publish(0x1234, QoS::AtLeastOnce, b"")), vec![0x32, 2, 0x12, 0x34]);
    assert_eq!(encoded(publish(0xffff, QoS::ExactlyOnce, &[9])), vec![0x34, 3, 0xff, 0xff, 9]);
}

#[test]
fn subscribe_frame_bytes() {
    assert_eq!(encoded(subscribe(7)), vec![0x80, 2, 0, 7]);
    assert_eq!(encoded(subscribe(0xabcd)), vec![0x80, 2, 0xab, 0xcd]);
}

#[test]
fn puback_frame_bytes() {
    assert_eq!(encoded(MqttPacket::Puback(MqttPubackPacket {})), vec![0x40, 2, 0, 0]);
}

#[test]
fn encode_appends_to_what_is_there() {
    let mut dst = BytesMut::from(&[1u8, 2, 3][..]);
    MQTinyCodec {}.encode(subscribe(5), &mut dst).unwrap();
    assert_eq!(dst.to_vec(), vec![1, 2, 3, 0x80, 2, 0, 5]);
}

#[test]
fn round_trip_publish() {
    for qos in [QoS::AtMostOnce, QoS::AtLeastOnce, QoS::ExactlyOnce] {
        for len in [0usize, 1, 5, 252, 253] {
            let payload: Vec<u8> = (0..len).map(|i| (i * 7 % 251) as u8).collect();
            let packet = publish(0x0102, qos, &payload);
            let mut buffer = BytesMut::new();
            let mut codec = MQTinyCodec {};
            codec.encode(packet.clone(), &mut buffer).unwrap();
            assert_eq!(buffer.len(), 4 + len);
            assert_eq!(codec.decode(&mut buffer), Ok(Some(packet)));
            assert!(buffer.is_empty());
        }
    }
}

#[test]
fn round_trip_subscribe() {
    for topic in [0u16, 1, 7, 255, 256, 0x8000, u16::MAX] {
        let mut buffer = BytesMut::new();
        let mut codec = MQTinyCodec {};
        codec.encode(subscribe(topic), &mut buffer).unwrap();
        assert_eq!(codec.decode(&mut buffer), Ok(Some(subscribe(topic))));
        assert!(buffer.is_empty());
    }
}

#[test]
fn puback_frame_is_not_decoded() {
    let mut buffer = BytesMut::from(&[0x40u8, 2, 0, 0, 0x80, 2, 0, 1][..]);
    let mut codec = MQTinyCodec {};
    assert_eq!(codec.decode(&mut buffer), Err(FramingError::UnsupportedPacketType));
    assert_eq!(buffer.to_vec(), vec![0x80, 2, 0, 1]);
}

#[test]
fn partial_frame_byte_by_byte() {
    let frame = encoded(publish(7, QoS::AtLeastOnce, b"hello"));
    let mut buffer = BytesMut::new();
    let mut codec = MQTinyCodec {};
    for (fed, byte) in frame.iter().enumerate() {
        assert_eq!(codec.decode(&mut buffer), Ok(None));
        assert_eq!(buffer.to_vec(), frame[..fed].to_vec());
        buffer.extend_from_slice(&[*byte]);
    }
    assert_eq!(codec.decode(&mut buffer), Ok(Some(publish(7, QoS::AtLeastOnce, b"hello"))));
    assert!(buffer.is_empty());
    assert_eq!(codec.decode(&mut buffer), Ok(None));
}

#[test]
fn decode_frame_reports_missing_bytes() {
    let frame = encoded(publish(7, QoS::AtMostOnce, b"hello"));
    assert_eq!(decode_frame(&[]), DecodeStep::NeedMoreBytes { missing: 2 });
    assert_eq!(decode_frame(&frame[..1]), DecodeStep::NeedMoreBytes { missing: 1 });
    assert_eq!(decode_frame(&frame[..2]), DecodeStep::NeedMoreBytes { missing: 7 });
    assert_eq!(decode_frame(&frame[..8]), DecodeStep::NeedMoreBytes { missing: 1 });
    assert_eq!(
        decode_frame(&frame),
        DecodeStep::Packet { packet: publish(7, QoS::AtMostOnce, b"hello"), consumed: 9 }
    );
}

#[test]
fn decode_frame_ignores_what_follows_the_frame() {
    let mut bytes = encoded(subscribe(3));
    bytes.extend_from_slice(&[0x30, 200, 1]);
    assert_eq!(decode_frame(&bytes), DecodeStep::Packet { packet: subscribe(3), consumed: 4 });
}

#[test]
fn decode_takes_one_frame_at_a_time() {
    let mut buffer = BytesMut::new();
    let mut codec = MQTinyCodec {};
    codec.encode(subscribe(1), &mut buffer).unwrap();
    codec.encode(publish(2, QoS::ExactlyOnce, b"xy"), &mut buffer).unwrap();
    buffer.extend_from_slice(&[0x80, 2, 0]);
    assert_eq!(codec.decode(&mut buffer), Ok(Some(subscribe(1))));
    assert_eq!(codec.decode(&mut buffer), Ok(Some(publish(2, QoS::ExactlyOnce, b"xy"))));
    assert_eq!(codec.decode(&mut buffer), Ok(None));
    assert_eq!(buffer.to_vec(), vec![0x80, 2, 0]);
    buffer.extend_from_slice(&[9]);
    assert_eq!(codec.decode(&mut buffer), Ok(Some(subscribe(9))));
}

#[test]
fn unsupported_kinds_are_refused_and_consumed() {
    for kind in [0u8, 1, 2, 4, 5, 6, 7, 9, 10, 11, 12, 13, 14, 15] {
        let mut buffer = BytesMut::from(&[kind << 4, 3, 1, 2, 3, 0xaa][..]);
        let mut codec = MQTinyCodec {};
        assert_eq!(codec.decode(&mut buffer), Err(FramingError::UnsupportedPacketType));
        assert_eq!(buffer.to_vec(), vec![0xaa]);
        assert_eq!(
            decode_frame(&[kind << 4, 0]),
            DecodeStep::ProtocolError { error: FramingError::UnsupportedPacketType, consumed: 2 }
        );
    }
}

#[test]
fn unsupported_kind_waits_for_its_whole_frame() {
    let mut buffer = BytesMut::from(&[0x10u8, 3, 1][..]);
    assert_eq!(MQTinyCodec {}.decode(&mut buffer), Ok(None));
    assert_eq!(buffer.to_vec(), vec![0x10, 3, 1]);
}

#[test]
fn publish_without_topic_is_refused() {
    let mut buffer = BytesMut::from(&[0x30u8, 1, 7, 0x55][..]);
    assert_eq!(MQTinyCodec {}.decode(&mut buffer), Err(FramingError::LengthMismatch));
    assert_eq!(buffer.to_vec(), vec![0x55]);
    assert_eq!(
        decode_frame(&[0x30, 0]),
        DecodeStep::ProtocolError { error: FramingError::LengthMismatch, consumed: 2 }
    );
}

#[test]
fn subscribe_with_wrong_length_is_refused() {
    let mut buffer = BytesMut::from(&[0x80u8, 3, 0, 7, 1, 0x55][..]);
    assert_eq!(MQTinyCodec {}.decode(&mut buffer), Err(FramingError::LengthMismatch));
    assert_eq!(buffer.to_vec(), vec![0x55]);
    assert_eq!(parse_frame(&[0x80, 1, 0]), Err(FramingError::LengthMismatch));
    assert_eq!(parse_frame(&[0x80, 0]), Err(FramingError::LengthMismatch));
}

#[test]
fn publish_with_reserved_qos_is_refused() {
    let mut buffer = BytesMut::from(&[0x36u8, 2, 0, 7][..]);
    assert_eq!(MQTinyCodec {}.decode(&mut buffer), Err(FramingError::InvalidQoS));
    assert!(buffer.is_empty());
}

#[test]
fn unused_header_bits_are_not_read() {
    assert_eq!(
        parse_frame(&[0x30 | 0x09, 3, 0, 7, 1]),
        Ok(publish(7, QoS::AtMostOnce, &[1]))
    );
    assert_eq!(parse_frame(&[0x80 | 0x0f, 2, 1, 0]), Ok(subscribe(256)));
}

#[test]
fn parse_publish_reads_flags_topic_and_payload() {
    let packet = parse_publish_packet(0x04, &[0x34, 4, 0x12, 0x34, 0xde, 0xad]);
    assert_eq!(
        packet,
        MqttPublishPacket { topic_name: 0x1234, qos: QoS::ExactlyOnce, payload: vec![0xde, 0xad] }
    );
    let packet = parse_publish_packet(0x02, &[0x32, 2, 0, 1]);
    assert_eq!(
        packet,
        MqttPublishPacket { topic_name: 1, qos: QoS::AtLeastOnce, payload: vec![] }
    );
}

#[test]
fn parse_subscribe_reads_topic() {
    assert_eq!(
        parse_subscribe_packet(0, &[0x80, 2, 0xab, 0xcd]),
        MqttSubscribePacket { topic_name: 0xabcd }
    );
}

#[test]
fn oversize_publish_is_refused() {
    let mut dst = BytesMut::from(&[1u8, 2][..]);
    let mut codec = MQTinyCodec {};
    let result = codec.encode(publish(7, QoS::AtMostOnce, &[0u8; 254]), &mut dst);
    assert_eq!(result, Err(FramingError::PayloadTooLarge));
    assert_eq!(dst.to_vec(), vec![1, 2]);
    let result = codec.encode(publish(7, QoS::AtMostOnce, &[0u8; 1000]), &mut dst);
    assert_eq!(result, Err(FramingError::PayloadTooLarge));
    assert_eq!(dst.to_vec(), vec![1, 2]);
}

#[test]
fn largest_publish_fills_the_remaining_length() {
    let frame = encoded(publish(7, QoS::AtMostOnce, &[0x11u8; 253]));
    assert_eq!(frame.len(), 257);
    assert_eq!(frame[1], 255);
    assert_eq!(&frame[4..], &[0x11u8; 253][..]);
}

fn laid_out(kind: PacketType, qos: QoS, remaining_length: u8, topic: u16, payload: Option<&[u8]>) -> Packet {
    Packet {
        fixed_header: FixedHeader { packet_type: kind, qos, remaining_length },
        variable_header: VariableHeader { topic_name: topic },
        payload: payload.map(|bytes| bytes.to_vec()),
    }
}

#[test]
fn from_mqtt_computes_the_remaining_length() {
    assert_eq!(
        Packet::from_mqtt(publish(7, QoS::AtLeastOnce, b"abc")),
        Ok(laid_out(PacketType::Publish, QoS::AtLeastOnce, 5, 7, Some(b"abc")))
    );
    assert_eq!(
        Packet::from_mqtt(subscribe(9)),
        Ok(laid_out(PacketType::Subscribe, QoS::AtMostOnce, 2, 9, None))
    );
    assert_eq!(
        Packet::from_mqtt(MqttPacket::Puback(MqttPubackPacket {})),
        Ok(laid_out(PacketType::Puback, QoS::AtMostOnce, 2, 0, None))
    );
    assert_eq!(
        Packet::from_mqtt(publish(7, QoS::AtLeastOnce, &[0u8; 254])),
        Err(FramingError::PayloadTooLarge)
    );
}

#[test]
fn faults_of_laid_out_packets() {
    assert_eq!(laid_out(PacketType::Publish, QoS::AtMostOnce, 5, 7, Some(b"abc")).fault(), None);
    assert_eq!(laid_out(PacketType::Publish, QoS::AtMostOnce, 2, 7, None).fault(), None);
    assert_eq!(
        laid_out(PacketType::Publish, QoS::AtMostOnce, 4, 7, Some(b"abc")).fault(),
        Some(FramingError::LengthMismatch)
    );
    assert_eq!(
        laid_out(PacketType::Publish, QoS::AtMostOnce, 255, 7, Some(&[0u8; 254])).fault(),
        Some(FramingError::PayloadTooLarge)
    );
    assert_eq!(laid_out(PacketType::Subscribe, QoS::AtMostOnce, 2, 7, None).fault(), None);
    assert_eq!(
        laid_out(PacketType::Subscribe, QoS::AtMostOnce, 3, 7, Some(&[1])).fault(),
        Some(FramingError::LengthMismatch)
    );
    assert_eq!(
        laid_out(PacketType::Subscribe, QoS::AtMostOnce, 0, 7, None).fault(),
        Some(FramingError::LengthMismatch)
    );
    assert_eq!(laid_out(PacketType::Puback, QoS::AtLeastOnce, 2, 0, None).fault(), None);
    assert_eq!(
        laid_out(PacketType::Connect, QoS::AtMostOnce, 2, 0, None).fault(),
        Some(FramingError::UnsupportedPacketType)
    );
    assert_eq!(
        laid_out(PacketType::Pingreq, QoS::AtMostOnce, 0, 0, None).fault(),
        Some(FramingError::UnsupportedPacketType)
    );
}

#[test]
fn encode_writes_a_laid_out_packet() {
    let mut dst = BytesMut::new();
    let packet = laid_out(PacketType::Publish, QoS::ExactlyOnce, 4, 0x0a0b, Some(&[1, 2]));
    assert_eq!(encode(&packet, &mut dst), Ok(()));
    assert_eq!(dst.to_vec(), vec![0x34, 4, 0x0a, 0x0b, 1, 2]);

    let mut dst = BytesMut::new();
    let packet = laid_out(PacketType::Puback, QoS::AtLeastOnce, 2, 77, None);
    assert_eq!(encode(&packet, &mut dst), Ok(()));
    assert_eq!(dst.to_vec(), vec![0x42, 2, 0, 0]);

    let mut dst = BytesMut::new();
    let packet = laid_out(PacketType::Subscribe, QoS::AtMostOnce, 2, 0x0100, Some(&[]));
    assert_eq!(encode(&packet, &mut dst), Ok(()));
    assert_eq!(dst.to_vec(), vec![0x80, 2, 1, 0]);
}

#[test]
fn encode_refuses_a_packet_whose_parts_disagree() {
    let mut dst = BytesMut::from(&[5u8][..]);
    let packet = laid_out(PacketType::Publish, QoS::AtMostOnce, 9, 1, Some(&[1, 2]));
    assert_eq!(encode(&packet, &mut dst), Err(FramingError::LengthMismatch));
    let packet = laid_out(PacketType::Disconnect, QoS::AtMostOnce, 0, 0, None);
    assert_eq!(encode(&packet, &mut dst), Err(FramingError::UnsupportedPacketType));
    let packet = laid_out(PacketType::Publish, QoS::AtMostOnce, 255, 1, Some(&[0u8; 300]));
    assert_eq!(encode(&packet, &mut dst), Err(FramingError::PayloadTooLarge));
    assert_eq!(dst.to_vec(), vec![5]);
}

#[test]
fn clones_are_equal() {
    let packet = publish(7, QoS::ExactlyOnce, b"payload");
    assert_eq!(packet.clone(), packet);
    assert_eq!(subscribe(1).clone(), subscribe(1));
}

#[test]
fn try_encode_writes_where_there_is_room() {
    let mut dst = BytesMut::from(&[9u8][..]);
    assert!(has_room(&dst));
    let mut codec = MQTinyCodec {};
    assert_eq!(codec.try_encode(subscribe(0x0203), &mut dst), Some(Ok(())));
    assert_eq!(dst.to_vec(), vec![9, 0x80, 2, 2, 3]);
    assert_eq!(
        codec.try_encode(publish(1, QoS::AtMostOnce, &[0u8; 254]), &mut dst),
        Some(Err(FramingError::PayloadTooLarge))
    );
    assert_eq!(dst.to_vec(), vec![9, 0x80, 2, 2, 3]);
}
