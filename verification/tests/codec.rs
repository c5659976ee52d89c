use mqtt_broker::broker::Broker;
use mqtt_broker::definitions::{have_packet_identifier, ControlPacketType, Flags, FixHeader, Qos};
use mqtt_broker::frame::{ControlPacket, Error, Frame};
use mqtt_broker::packet::{Property, PublishControlPacket, SubscriptionOptions};
use mqtt_broker::reader::FrameReader;
use mqtt_broker::varint::VariableByteInteger;

#[test]
fn variable_byte_integer_encode() {
    let var = VariableByteInteger { data: 128 };
    assert_eq!(var.encode().as_slice(), [0x80, 0x1]);
}

#[test]
fn variable_byte_integer_decode() {
    let test_vec = vec![0x80, 0x1, 0, 0];
    let (value, consumed) = VariableByteInteger::decode(&test_vec, 0).unwrap();
    assert_eq!(value, 128);
    assert_eq!(consumed, 2);
}

#[test]
fn varint_boundaries() {
    for &(value, len) in &[
        (0u32, 1usize),
        (127, 1),
        (128, 2),
        (16383, 2),
        (16384, 3),
        (2097151, 3),
        (2097152, 4),
        (268435455, 4),
    ] {
        let bytes = VariableByteInteger::encode_u32(value);
        assert_eq!(bytes.len(), len);
        let (decoded, consumed) = VariableByteInteger::decode(&bytes, 0).unwrap();
        assert_eq!(decoded, value);
        assert_eq!(consumed, len);
    }
}

#[test]
fn varint_rejects_fifth_byte() {
    let bad = vec![0x80, 0x80, 0x80, 0x80, 0x01];
    assert_eq!(
        VariableByteInteger::decode(&bad, 0),
        Err(Error::MalformedPacket)
    );
}

#[test]
fn varint_incomplete() {
    let short = vec![0x80];
    assert_eq!(VariableByteInteger::decode(&short, 0), Err(Error::Incomplete));
}

fn connect_bytes() -> Vec<u8> {
    // CONNECT, clean_start = 1, keep_alive = 60, client_id = "test".
    vec![
        0x10, 0x11, 0x00, 0x04, 0x4D, 0x51, 0x54, 0x54, 0x05, 0x02, 0x00, 0x3C, 0x00, 0x00, 0x04,
        0x74, 0x65, 0x73, 0x74,
    ]
}

#[test]
fn connect_decodes() {
    let bytes = connect_bytes();
    let (frame, n) = Frame::deserialize(&bytes).unwrap();
    assert_eq!(n, bytes.len());
    match frame.control_packet {
        ControlPacket::Connect(p) => {
            assert_eq!(p.variable_header.protocol_name, b"MQTT".to_vec());
            assert_eq!(p.variable_header.protocol_version, 5);
            assert!(p.variable_header.connect_flag.clean_start);
            assert_eq!(p.variable_header.keep_alive, 60);
            assert_eq!(p.payload.client_identifier, b"test".to_vec());
        }
        other => panic!("expected CONNECT, got {:?}", other),
    }
}

#[test]
fn publish_frame_round_trip() {
    let frame = Frame {
        fix_header: FixHeader {
            control_packet_type: ControlPacketType::PUBLISH,
            flags: Flags(0, 1, 0, 0),
        },
        control_packet: ControlPacket::Publish(PublishControlPacket {
            topic_name: b"sensors/a/temp".to_vec(),
            packet_identifier: Some(0x1234),
            properties: vec![
                Property::PayloadFormatIndicator(1),
                Property::MessageExpiryInterval(30),
                Property::ContentType(b"text/plain".to_vec()),
                Property::UserProperty(b"k".to_vec()),
            ],
            payload: vec![0x4F, 0x4B],
        }),
    };
    let bytes = Frame::serialize(frame.clone()).unwrap();
    let (decoded, n) = Frame::deserialize(&bytes).unwrap();
    assert_eq!(n, bytes.len());
    assert_eq!(decoded, frame);
}

#[test]
fn subscribe_frame_round_trip() {
    let opts = SubscriptionOptions::new(0x01);
    assert!(matches!(opts.maximum_qos, Qos::AtleastOnce));
    let frame = Frame {
        fix_header: FixHeader {
            control_packet_type: ControlPacketType::SUBSCRIBE,
            flags: Flags(0, 1, 0, 0),
        },
        control_packet: ControlPacket::Subscribe(mqtt_broker::packet::SubscribeControlPacket {
            packet_identifier: 7,
            properties: vec![],
            subscribe_payload: vec![mqtt_broker::packet::SubscribePayload {
                subscription_options: opts,
                topic_filter: b"sensors/+/temp".to_vec(),
            }],
        }),
    };
    let bytes = Frame::serialize(frame.clone()).unwrap();
    let (decoded, _n) = Frame::deserialize(&bytes).unwrap();
    assert_eq!(decoded, frame);
}

#[test]
fn publish_qos_three_is_protocol_error() {
    // Header byte 0x36: PUBLISH with QoS bits set to 3.
    let bytes = vec![0x36, 0x05, 0x00, 0x01, 0x61, 0x00, 0x00];
    assert_eq!(Frame::deserialize(&bytes), Err(Error::ProtocolError));
}

#[test]
fn bad_utf8_topic_is_malformed() {
    // PUBLISH QoS 0 with a topic of one invalid UTF-8 byte.
    let bytes = vec![0x30, 0x04, 0x00, 0x01, 0xFF, 0x00];
    assert_eq!(Frame::deserialize(&bytes), Err(Error::MalformedPacket));
}

#[test]
fn unknown_property_is_malformed() {
    // CONNACK with a property list holding the unknown identifier 0x7F.
    let bytes = vec![0x20, 0x04, 0x00, 0x00, 0x02, 0x7F];
    assert_eq!(Frame::deserialize(&bytes), Err(Error::MalformedPacket));
}

#[test]
fn short_buffer_is_incomplete() {
    let bytes = vec![0x10];
    assert_eq!(Frame::deserialize(&bytes), Err(Error::Incomplete));
}

#[test]
fn incomplete_feed_keeps_buffer() {
    // First 3 bytes of the 19-byte CONNECT, then the remaining 16.
    let bytes = connect_bytes();
    let mut reader = FrameReader::new();
    reader.feed(&bytes[..3].to_vec());
    assert_eq!(reader.try_parse(), Ok(None));
    reader.feed(&bytes[3..].to_vec());
    match reader.try_parse() {
        Ok(Some(frame)) => match frame.control_packet {
            ControlPacket::Connect(p) => {
                assert_eq!(p.payload.client_identifier, b"test".to_vec())
            }
            other => panic!("expected CONNECT, got {:?}", other),
        },
        other => panic!("expected a frame, got {:?}", other),
    }
}

#[test]
fn split_feed_equals_whole_feed() {
    let bytes = connect_bytes();
    for cut in 0..bytes.len() {
        let mut split_reader = FrameReader::new();
        split_reader.feed(&bytes[..cut].to_vec());
        let first = split_reader.try_parse();
        if cut < bytes.len() {
            assert!(matches!(first, Ok(None)));
        }
        split_reader.feed(&bytes[cut..].to_vec());
        let mut whole_reader = FrameReader::new();
        whole_reader.feed(&bytes);
        assert_eq!(split_reader.try_parse(), whole_reader.try_parse());
    }
}

#[test]
fn decode_string_rejects_bad_utf8() {
    let buf = vec![0x00, 0x02, 0xC0, 0x20];
    let n = buf.len();
    assert_eq!(
        mqtt_broker::frame::decoder::decode_string(&buf, 0, n),
        Err(Error::MalformedPacket)
    );
}

#[test]
fn decode_string_reads_utf8() {
    let buf = vec![0x00, 0x02, 0xC3, 0xA9];
    let n = buf.len();
    let (s, consumed) = mqtt_broker::frame::decoder::decode_string(&buf, 0, n).unwrap();
    assert_eq!(s, vec![0xC3, 0xA9]);
    assert_eq!(consumed, 4);
}

#[test]
fn frame_new_defaults() {
    let frame = Frame::new(ControlPacketType::CONNACK);
    let bytes = Frame::serialize(frame).unwrap();
    let (decoded, _n) = Frame::deserialize(&bytes).unwrap();
    match decoded.control_packet {
        ControlPacket::ConnAck(a) => {
            assert!(!a.conn_ack_flag.session_present_flag);
            assert_eq!(a.reason_code.to_u8(), 0);
        }
        other => panic!("expected CONNACK, got {:?}", other),
    }
}

#[test]
fn packet_identifier_presence() {
    let publish_qos1 = FixHeader {
        control_packet_type: ControlPacketType::PUBLISH,
        flags: Flags(0, 1, 0, 0),
    };
    let publish_qos0 = FixHeader {
        control_packet_type: ControlPacketType::PUBLISH,
        flags: Flags(0, 0, 0, 0),
    };
    let connect = FixHeader {
        control_packet_type: ControlPacketType::CONNECT,
        flags: Flags(0, 0, 0, 0),
    };
    let puback = FixHeader {
        control_packet_type: ControlPacketType::PUBACK,
        flags: Flags(0, 0, 0, 0),
    };
    assert!(have_packet_identifier(publish_qos1));
    assert!(!have_packet_identifier(publish_qos0));
    assert!(!have_packet_identifier(connect));
    assert!(have_packet_identifier(puback));
}

#[test]
fn puback_short_form_defaults_to_success() {
    // PUBACK with remaining length 2: identifier only.
    let bytes = vec![0x40, 0x02, 0x12, 0x34];
    let (frame, _n) = Frame::deserialize(&bytes).unwrap();
    match frame.control_packet {
        ControlPacket::PubAck(p) => {
            assert_eq!(p.packet_identifier, 0x1234);
            assert_eq!(p.reason_code.to_u8(), 0);
            assert!(p.properties.is_empty());
        }
        other => panic!("expected PUBACK, got {:?}", other),
    }
}

#[test]
fn keep_alive_deadline() {
    assert!(!Broker::keep_alive_exceeded(0, 1_000_000));
    assert!(!Broker::keep_alive_exceeded(60, 90));
    assert!(Broker::keep_alive_exceeded(60, 91));
}

#[test]
fn utf8_boundary_cases() {
    let decode_string = mqtt_broker::frame::decoder::decode_string;
    // Overlong two-byte encoding of '/'.
    let overlong = vec![0x00, 0x02, 0xC0, 0xAF];
    assert_eq!(decode_string(&overlong, 0, 4), Err(Error::MalformedPacket));
    // A surrogate code point.
    let surrogate = vec![0x00, 0x03, 0xED, 0xA0, 0x80];
    assert_eq!(decode_string(&surrogate, 0, 5), Err(Error::MalformedPacket));
    // Above U+10FFFF.
    let too_big = vec![0x00, 0x04, 0xF4, 0x90, 0x80, 0x80];
    assert_eq!(decode_string(&too_big, 0, 6), Err(Error::MalformedPacket));
    // A valid four-byte scalar.
    let four = vec![0x00, 0x04, 0xF0, 0x9F, 0x98, 0x80];
    let (s, consumed) = decode_string(&four, 0, 6).unwrap();
    assert_eq!(s, vec![0xF0, 0x9F, 0x98, 0x80]);
    assert_eq!(consumed, 6);
    assert_eq!(std::str::from_utf8(&s).unwrap(), "\u{1F600}");
    // The checks agree with the standard library on the rejected cases.
    assert!(std::str::from_utf8(&[0xC0, 0xAF]).is_err());
    assert!(std::str::from_utf8(&[0xED, 0xA0, 0x80]).is_err());
    assert!(std::str::from_utf8(&[0xF4, 0x90, 0x80, 0x80]).is_err());
}
