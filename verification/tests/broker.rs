use mqtt_broker::broker::Broker;
use mqtt_broker::definitions::{
    ConnAckReasonCode, ControlPacketType, DisconnectReasonCode, Flags, FixHeader,
    PubCompReasonCode, PubRecReasonCode,
};
use mqtt_broker::frame::{ControlPacket, Frame};
use mqtt_broker::packet::{
    ConnectControlPacket, ConnectFlags, ConnectPayload, ConnectVariableHeader,
    PublishControlPacket, SubscribeControlPacket, SubscribePayload, SubscriptionOptions,
};
use mqtt_broker::topic::{split_segments, TopicTree};

fn connect_frame(client_id: &[u8]) -> Frame {
    Frame {
        fix_header: FixHeader {
            control_packet_type: ControlPacketType::CONNECT,
            flags: Flags(0, 0, 0, 0),
        },
        control_packet: ControlPacket::Connect(ConnectControlPacket {
            variable_header: ConnectVariableHeader {
                protocol_name: b"MQTT".to_vec(),
                protocol_version: 5,
                connect_flag: ConnectFlags::new(0x02),
                keep_alive: 60,
                properties: vec![],
            },
            payload: ConnectPayload {
                client_identifier: client_id.to_vec(),
                will_properties: vec![],
                will_topic: None,
                will_payload: None,
                user_name: None,
                password: None,
            },
        }),
    }
}

fn subscribe_frame(pid: u16, filter: &[u8]) -> Frame {
    Frame {
        fix_header: FixHeader {
            control_packet_type: ControlPacketType::SUBSCRIBE,
            flags: Flags(0, 1, 0, 0),
        },
        control_packet: ControlPacket::Subscribe(SubscribeControlPacket {
            packet_identifier: pid,
            properties: vec![],
            subscribe_payload: vec![SubscribePayload {
                subscription_options: SubscriptionOptions::new(0x00),
                topic_filter: filter.to_vec(),
            }],
        }),
    }
}

fn publish_frame(topic: &[u8], payload: &[u8], qos: u8, pid: Option<u16>) -> Frame {
    Frame {
        fix_header: FixHeader {
            control_packet_type: ControlPacketType::PUBLISH,
            flags: Flags(0, qos, 0, 0),
        },
        control_packet: ControlPacket::Publish(PublishControlPacket {
            topic_name: topic.to_vec(),
            packet_identifier: pid,
            properties: vec![],
            payload: payload.to_vec(),
        }),
    }
}

fn publishes_in_queue(queue: &[Frame]) -> Vec<(Vec<u8>, Vec<u8>)> {
    queue
        .iter()
        .filter_map(|f| match &f.control_packet {
            ControlPacket::Publish(p) => Some((p.topic_name.clone(), p.payload.clone())),
            _ => None,
        })
        .collect()
}

#[test]
fn connect_handshake() {
    let mut broker = Broker::new();
    let conn = broker.open_connection();
    let keep = broker.handle_frame(conn, &connect_frame(b"test"));
    assert!(keep);
    let last = broker.sessions[conn].outbound.last().unwrap();
    match &last.control_packet {
        ControlPacket::ConnAck(a) => {
            assert!(matches!(a.reason_code, ConnAckReasonCode::Success));
            assert!(!a.conn_ack_flag.session_present_flag);
        }
        other => panic!("expected CONNACK, got {:?}", other),
    }
    // The reply serializes to a parseable CONNACK with reason 0x00.
    let bytes = Frame::serialize(last.clone()).unwrap();
    assert_eq!(bytes[0], 0x20);
    assert_eq!(bytes[3], 0x00);
}

#[test]
fn qos0_publish_fan_out() {
    let mut broker = Broker::new();
    let publisher = broker.open_connection();
    let subscriber = broker.open_connection();
    assert!(broker.handle_frame(publisher, &connect_frame(b"pub")));
    assert!(broker.handle_frame(subscriber, &connect_frame(b"sub")));
    assert!(broker.handle_frame(subscriber, &subscribe_frame(1, b"sensors/+/temp")));
    assert!(broker.handle_frame(
        publisher,
        &publish_frame(b"sensors/a/temp", &[0x4F, 0x4B], 0, None)
    ));
    let delivered = publishes_in_queue(&broker.sessions[subscriber].outbound);
    assert_eq!(
        delivered,
        vec![(b"sensors/a/temp".to_vec(), vec![0x4F, 0x4B])]
    );
}

#[test]
fn qos2_dialogue() {
    let mut broker = Broker::new();
    let publisher = broker.open_connection();
    let subscriber = broker.open_connection();
    assert!(broker.handle_frame(publisher, &connect_frame(b"pub")));
    assert!(broker.handle_frame(subscriber, &connect_frame(b"sub")));
    assert!(broker.handle_frame(subscriber, &subscribe_frame(1, b"a")));

    assert!(broker.handle_frame(publisher, &publish_frame(b"a", b"x", 2, Some(0x1234))));
    match &broker.sessions[publisher].outbound.last().unwrap().control_packet {
        ControlPacket::PubRec(p) => {
            assert_eq!(p.packet_identifier, 0x1234);
            assert!(matches!(p.reason_code, PubRecReasonCode::Success));
        }
        other => panic!("expected PUBREC, got {:?}", other),
    }
    assert_eq!(publishes_in_queue(&broker.sessions[subscriber].outbound).len(), 1);

    // A duplicate PUBLISH with the same identifier before PUBREL re-emits
    // PUBREC without re-delivering.
    assert!(broker.handle_frame(publisher, &publish_frame(b"a", b"x", 2, Some(0x1234))));
    match &broker.sessions[publisher].outbound.last().unwrap().control_packet {
        ControlPacket::PubRec(p) => assert_eq!(p.packet_identifier, 0x1234),
        other => panic!("expected PUBREC, got {:?}", other),
    }
    assert_eq!(publishes_in_queue(&broker.sessions[subscriber].outbound).len(), 1);

    let pubrel = Frame {
        fix_header: FixHeader {
            control_packet_type: ControlPacketType::PUBREL,
            flags: Flags(0, 1, 0, 0),
        },
        control_packet: ControlPacket::PubRel(mqtt_broker::packet::PubRelControlPacket {
            packet_identifier: 0x1234,
            reason_code: mqtt_broker::definitions::PubRelReasonCode::Success,
            properties: vec![],
        }),
    };
    assert!(broker.handle_frame(publisher, &pubrel));
    match &broker.sessions[publisher].outbound.last().unwrap().control_packet {
        ControlPacket::PubComp(p) => {
            assert_eq!(p.packet_identifier, 0x1234);
            assert!(matches!(p.reason_code, PubCompReasonCode::Success));
        }
        other => panic!("expected PUBCOMP, got {:?}", other),
    }
}

#[test]
fn wildcard_hash() {
    let mut broker = Broker::new();
    let publisher = broker.open_connection();
    let subscriber = broker.open_connection();
    assert!(broker.handle_frame(publisher, &connect_frame(b"pub")));
    assert!(broker.handle_frame(subscriber, &connect_frame(b"sub")));
    assert!(broker.handle_frame(subscriber, &subscribe_frame(1, b"a/#")));
    for topic in [b"a".as_slice(), b"a/b", b"a/b/c", b"b"] {
        assert!(broker.handle_frame(publisher, &publish_frame(topic, b"m", 0, None)));
    }
    let delivered = publishes_in_queue(&broker.sessions[subscriber].outbound);
    let topics: Vec<Vec<u8>> = delivered.into_iter().map(|(t, _)| t).collect();
    assert_eq!(topics, vec![b"a".to_vec(), b"a/b".to_vec(), b"a/b/c".to_vec()]);
}

#[test]
fn fan_out_preserves_order() {
    let mut broker = Broker::new();
    let publisher = broker.open_connection();
    let subscriber = broker.open_connection();
    assert!(broker.handle_frame(publisher, &connect_frame(b"pub")));
    assert!(broker.handle_frame(subscriber, &connect_frame(b"sub")));
    assert!(broker.handle_frame(subscriber, &subscribe_frame(1, b"a")));
    assert!(broker.handle_frame(publisher, &publish_frame(b"a", b"first", 0, None)));
    assert!(broker.handle_frame(publisher, &publish_frame(b"a", b"second", 0, None)));
    let delivered = publishes_in_queue(&broker.sessions[subscriber].outbound);
    assert_eq!(
        delivered,
        vec![
            (b"a".to_vec(), b"first".to_vec()),
            (b"a".to_vec(), b"second".to_vec())
        ]
    );
}

#[test]
fn session_take_over() {
    let mut broker = Broker::new();
    let first = broker.open_connection();
    let second = broker.open_connection();
    assert!(broker.handle_frame(first, &connect_frame(b"same")));
    assert!(broker.handle_frame(second, &connect_frame(b"same")));
    assert!(!broker.sessions[first].connected);
    match &broker.sessions[first].outbound.last().unwrap().control_packet {
        ControlPacket::Disconnect(d) => {
            assert!(matches!(d.reason_code, DisconnectReasonCode::SessionTakenOver));
            assert_eq!(d.reason_code.to_u8(), 0x8E);
        }
        other => panic!("expected DISCONNECT, got {:?}", other),
    }
    assert!(broker.sessions[second].connected);
}

#[test]
fn first_frame_must_be_connect() {
    let mut broker = Broker::new();
    let conn = broker.open_connection();
    let keep = broker.handle_frame(conn, &publish_frame(b"a", b"x", 0, None));
    assert!(!keep);
    assert!(broker.sessions[conn].outbound.is_empty());
    assert!(!broker.sessions[conn].connected);
}

#[test]
fn second_connect_is_protocol_error() {
    let mut broker = Broker::new();
    let conn = broker.open_connection();
    assert!(broker.handle_frame(conn, &connect_frame(b"c")));
    assert!(!broker.handle_frame(conn, &connect_frame(b"c")));
    match &broker.sessions[conn].outbound.last().unwrap().control_packet {
        ControlPacket::Disconnect(d) => {
            assert!(matches!(d.reason_code, DisconnectReasonCode::ProtocolError))
        }
        other => panic!("expected DISCONNECT, got {:?}", other),
    }
}

#[test]
fn empty_client_id_gets_assigned_one() {
    let mut broker = Broker::new();
    let conn = broker.open_connection();
    assert!(broker.handle_frame(conn, &connect_frame(b"")));
    assert!(!broker.sessions[conn].client_id.is_empty());
    match &broker.sessions[conn].outbound.last().unwrap().control_packet {
        ControlPacket::ConnAck(a) => {
            assert!(matches!(a.reason_code, ConnAckReasonCode::Success));
            assert_eq!(a.properties.len(), 1);
        }
        other => panic!("expected CONNACK, got {:?}", other),
    }
}

#[test]
fn ping_draws_pong() {
    let mut broker = Broker::new();
    let conn = broker.open_connection();
    assert!(broker.handle_frame(conn, &connect_frame(b"c")));
    let ping = Frame {
        fix_header: FixHeader {
            control_packet_type: ControlPacketType::PINGREQ,
            flags: Flags(0, 0, 0, 0),
        },
        control_packet: ControlPacket::PingReq,
    };
    assert!(broker.handle_frame(conn, &ping));
    assert!(matches!(
        broker.sessions[conn].outbound.last().unwrap().control_packet,
        ControlPacket::PingResp
    ));
}

#[test]
fn topic_test() {
    let start = std::time::Instant::now();
    let mut root_topic = TopicTree::new_root();
    root_topic.subscribe(&b"hello/beto".to_vec(), &b"observer1".to_vec());
    root_topic.subscribe(&b"a/b/c".to_vec(), &b"observer2".to_vec());
    root_topic.subscribe(&b"a/g/d".to_vec(), &b"observer3".to_vec());
    root_topic.subscribe(&b"a/g/e".to_vec(), &b"observer4".to_vec());
    root_topic.subscribe(&b"a/g/z".to_vec(), &b"observer3".to_vec());
    root_topic.subscribe(&b"a/g/#".to_vec(), &b"observer#".to_vec());
    root_topic.subscribe(&b"d/g/a".to_vec(), &b"observer5".to_vec());
    root_topic.subscribe(&b"b/a/a".to_vec(), &b"observer6".to_vec());
    root_topic.subscribe(&b"#".to_vec(), &b"observer root".to_vec());
    println!("{:#?}", root_topic.get_subscribers_id(&b"a/b/c".to_vec()));
    println!("{:#?}", root_topic.get_subscribers_id(&b"a/g".to_vec()));
    println!("{:#?}", root_topic.get_subscribers_id(&b"a".to_vec()));
    println!("{:#?}", root_topic.get_subscribers_id(&b"a/g/d".to_vec()));
    println!("{:#?}", root_topic.get_subscribers_id(&b"a/g/e".to_vec()));
    println!("{:#?}", root_topic.get_subscribers_id(&b"a/g/m".to_vec()));
    println!("{:#?}", root_topic.get_subscribers_id(&b"hello/beto".to_vec()));
    let duration = start.elapsed();
    println!("Time elapsed in topic_test() is: {:?}", duration);
}

#[test]
fn splitn_test() {
    let datas = split_segments(&b"hello".to_vec());
    println!("{:#?}", datas);
}

#[test]
fn trie_matches_expected_sets() {
    let mut trie = TopicTree::new_root();
    trie.subscribe(&b"a/b/c".to_vec(), &b"two".to_vec());
    trie.subscribe(&b"a/g/#".to_vec(), &b"hash".to_vec());
    trie.subscribe(&b"a/+/c".to_vec(), &b"plus".to_vec());
    let mut got = trie.get_subscribers_id(&b"a/b/c".to_vec()).unwrap();
    got.sort();
    assert_eq!(got, vec![b"plus".to_vec(), b"two".to_vec()]);
    assert_eq!(
        trie.get_subscribers_id(&b"a/g".to_vec()),
        Some(vec![b"hash".to_vec()])
    );
    assert_eq!(trie.get_subscribers_id(&b"b".to_vec()), None);
    trie.unsubscribe(&b"a/b/c".to_vec(), &b"two".to_vec());
    assert_eq!(
        trie.get_subscribers_id(&b"a/b/c".to_vec()),
        Some(vec![b"plus".to_vec()])
    );
}

#[test]
fn dollar_topics_hidden_from_root_wildcards() {
    let mut trie = TopicTree::new_root();
    trie.subscribe(&b"#".to_vec(), &b"all".to_vec());
    trie.subscribe(&b"+/x".to_vec(), &b"plus".to_vec());
    trie.subscribe(&b"$SYS/x".to_vec(), &b"literal".to_vec());
    assert_eq!(
        trie.get_subscribers_id(&b"$SYS/x".to_vec()),
        Some(vec![b"literal".to_vec()])
    );
    let mut got = trie.get_subscribers_id(&b"y/x".to_vec()).unwrap();
    got.sort();
    assert_eq!(got, vec![b"all".to_vec(), b"plus".to_vec()]);
}

#[test]
fn qos1_publish_acked_and_delivered() {
    let mut broker = Broker::new();
    let publisher = broker.open_connection();
    let subscriber = broker.open_connection();
    assert!(broker.handle_frame(publisher, &connect_frame(b"pub")));
    assert!(broker.handle_frame(subscriber, &connect_frame(b"sub")));
    // Options byte 0x02: maximum QoS 2.
    let sub = Frame {
        fix_header: FixHeader {
            control_packet_type: ControlPacketType::SUBSCRIBE,
            flags: Flags(0, 1, 0, 0),
        },
        control_packet: ControlPacket::Subscribe(SubscribeControlPacket {
            packet_identifier: 3,
            properties: vec![],
            subscribe_payload: vec![SubscribePayload {
                subscription_options: SubscriptionOptions::new(0x02),
                topic_filter: b"a".to_vec(),
            }],
        }),
    };
    assert!(broker.handle_frame(subscriber, &sub));
    assert!(broker.handle_frame(publisher, &publish_frame(b"a", b"x", 1, Some(7))));
    match &broker.sessions[publisher].outbound.last().unwrap().control_packet {
        ControlPacket::PubAck(p) => assert_eq!(p.packet_identifier, 7),
        other => panic!("expected PUBACK, got {:?}", other),
    }
    let delivered = broker.sessions[subscriber]
        .outbound
        .iter()
        .find(|f| matches!(f.control_packet, ControlPacket::Publish(_)))
        .expect("a delivery");
    // The delivered copy keeps QoS 1 (the subscription allows up to 2)
    // and therefore carries a broker-allocated packet identifier.
    assert_eq!(delivered.fix_header.flags.1, 1);
    match &delivered.control_packet {
        ControlPacket::Publish(p) => assert!(p.packet_identifier.is_some()),
        other => panic!("expected PUBLISH, got {:?}", other),
    }
}

#[test]
fn connect_rejections_carry_reasons() {
    // Wrong protocol version.
    let mut broker = Broker::new();
    let conn = broker.open_connection();
    let mut bad_version = connect_frame(b"c");
    if let ControlPacket::Connect(p) = &mut bad_version.control_packet {
        p.variable_header.protocol_version = 4;
    }
    assert!(!broker.handle_frame(conn, &bad_version));
    match &broker.sessions[conn].outbound.last().unwrap().control_packet {
        ControlPacket::ConnAck(a) => assert!(matches!(
            a.reason_code,
            ConnAckReasonCode::UnsupportedProtocolVersion
        )),
        other => panic!("expected CONNACK, got {:?}", other),
    }
    assert!(!broker.sessions[conn].connected);

    // Empty client identifier without clean start.
    let mut broker = Broker::new();
    let conn = broker.open_connection();
    let mut no_id = connect_frame(b"");
    if let ControlPacket::Connect(p) = &mut no_id.control_packet {
        p.variable_header.connect_flag = ConnectFlags::new(0x00);
    }
    assert!(!broker.handle_frame(conn, &no_id));
    match &broker.sessions[conn].outbound.last().unwrap().control_packet {
        ControlPacket::ConnAck(a) => assert!(matches!(
            a.reason_code,
            ConnAckReasonCode::ClientIdentifierNotValid
        )),
        other => panic!("expected CONNACK, got {:?}", other),
    }
}

#[test]
fn suback_grants_min_of_requested_and_maximum() {
    let mut broker = Broker::new();
    let conn = broker.open_connection();
    assert!(broker.handle_frame(conn, &connect_frame(b"c")));
    let sub = Frame {
        fix_header: FixHeader {
            control_packet_type: ControlPacketType::SUBSCRIBE,
            flags: Flags(0, 1, 0, 0),
        },
        control_packet: ControlPacket::Subscribe(SubscribeControlPacket {
            packet_identifier: 9,
            properties: vec![],
            subscribe_payload: vec![
                SubscribePayload {
                    subscription_options: SubscriptionOptions::new(0x00),
                    topic_filter: b"a".to_vec(),
                },
                SubscribePayload {
                    subscription_options: SubscriptionOptions::new(0x02),
                    topic_filter: b"b".to_vec(),
                },
            ],
        }),
    };
    assert!(broker.handle_frame(conn, &sub));
    match &broker.sessions[conn].outbound.last().unwrap().control_packet {
        ControlPacket::SubAck(a) => {
            assert_eq!(a.packet_identifier, 9);
            let codes: Vec<u8> = a
                .sub_ack_payload
                .sub_ack_reason_codes
                .iter()
                .map(|c| c.to_u8())
                .collect();
            assert_eq!(codes, vec![0, 2]);
        }
        other => panic!("expected SUBACK, got {:?}", other),
    }
}

#[test]
fn unsubscribe_stops_delivery() {
    let mut broker = Broker::new();
    let publisher = broker.open_connection();
    let subscriber = broker.open_connection();
    assert!(broker.handle_frame(publisher, &connect_frame(b"pub")));
    assert!(broker.handle_frame(subscriber, &connect_frame(b"sub")));
    assert!(broker.handle_frame(subscriber, &subscribe_frame(1, b"a")));
    assert!(broker.handle_frame(publisher, &publish_frame(b"a", b"one", 0, None)));
    let unsub = Frame {
        fix_header: FixHeader {
            control_packet_type: ControlPacketType::UNSUBSCRIBE,
            flags: Flags(0, 1, 0, 0),
        },
        control_packet: ControlPacket::Unsubscribe(
            mqtt_broker::packet::UnsubscribeControlPacket {
                packet_identifier: 2,
                properties: vec![],
                topic_filters: vec![b"a".to_vec()],
            },
        ),
    };
    assert!(broker.handle_frame(subscriber, &unsub));
    match &broker.sessions[subscriber].outbound.last().unwrap().control_packet {
        ControlPacket::UnsubAck(a) => {
            assert_eq!(a.packet_identifier, 2);
            assert_eq!(a.reason_codes.len(), 1);
            assert_eq!(a.reason_codes[0].to_u8(), 0);
        }
        other => panic!("expected UNSUBACK, got {:?}", other),
    }
    assert!(broker.handle_frame(publisher, &publish_frame(b"a", b"two", 0, None)));
    let delivered = publishes_in_queue(&broker.sessions[subscriber].outbound);
    assert_eq!(delivered, vec![(b"a".to_vec(), b"one".to_vec())]);
}

#[test]
fn connection_loss_publishes_will() {
    let mut broker = Broker::new();
    let dying = broker.open_connection();
    let watcher = broker.open_connection();
    let mut with_will = connect_frame(b"dying");
    if let ControlPacket::Connect(p) = &mut with_will.control_packet {
        // clean_start plus will flag.
        p.variable_header.connect_flag = ConnectFlags::new(0x06);
        p.payload.will_topic = Some(b"gone".to_vec());
        p.payload.will_payload = Some(b"bye".to_vec());
    }
    assert!(broker.handle_frame(dying, &with_will));
    assert!(broker.handle_frame(watcher, &connect_frame(b"watcher")));
    assert!(broker.handle_frame(watcher, &subscribe_frame(1, b"gone")));
    broker.handle_connection_lost(dying);
    assert!(!broker.sessions[dying].connected);
    let delivered = publishes_in_queue(&broker.sessions[watcher].outbound);
    assert_eq!(delivered, vec![(b"gone".to_vec(), b"bye".to_vec())]);
}

#[test]
fn shutdown_disconnects_every_live_session() {
    let mut broker = Broker::new();
    let a = broker.open_connection();
    let b = broker.open_connection();
    assert!(broker.handle_frame(a, &connect_frame(b"a")));
    assert!(broker.handle_frame(b, &connect_frame(b"b")));
    broker.shutdown();
    for conn in [a, b] {
        assert!(!broker.sessions[conn].connected);
        match &broker.sessions[conn].outbound.last().unwrap().control_packet {
            ControlPacket::Disconnect(d) => assert!(matches!(
                d.reason_code,
                DisconnectReasonCode::ServerShuttingDown
            )),
            other => panic!("expected DISCONNECT, got {:?}", other),
        }
    }
}

#[test]
fn take_outbound_drains_the_queue() {
    let mut broker = Broker::new();
    let conn = broker.open_connection();
    assert!(broker.handle_frame(conn, &connect_frame(b"c")));
    let frames = broker.take_outbound(conn);
    assert_eq!(frames.len(), 1);
    assert!(matches!(frames[0].control_packet, ControlPacket::ConnAck(_)));
    assert!(broker.sessions[conn].outbound.is_empty());
}

#[test]
fn subscribe_twice_equals_once() {
    let mut once = TopicTree::new_root();
    once.subscribe(&b"a/+/c".to_vec(), &b"s".to_vec());
    let mut twice = TopicTree::new_root();
    twice.subscribe(&b"a/+/c".to_vec(), &b"s".to_vec());
    twice.subscribe(&b"a/+/c".to_vec(), &b"s".to_vec());
    assert_eq!(once, twice);
}

#[test]
fn subscribe_does_not_disturb_others() {
    let mut trie = TopicTree::new_root();
    trie.subscribe(&b"a".to_vec(), &b"first".to_vec());
    assert_eq!(
        trie.get_subscribers_id(&b"a".to_vec()),
        Some(vec![b"first".to_vec()])
    );
    trie.subscribe(&b"c/+".to_vec(), &b"second".to_vec());
    assert_eq!(
        trie.get_subscribers_id(&b"a".to_vec()),
        Some(vec![b"first".to_vec()])
    );
    assert_eq!(
        trie.get_subscribers_id(&b"c/x".to_vec()),
        Some(vec![b"second".to_vec()])
    );
}
