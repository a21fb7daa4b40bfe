use cloudmqtt::error::MqttWriteError;
use cloudmqtt::error::ParseError;
use cloudmqtt::packets::auth::MAuth;
use cloudmqtt::packets::connack::MConnack;
use cloudmqtt::packets::connect::ConnectFlags;
use cloudmqtt::packets::connect::MConnect;
use cloudmqtt::packets::connect::Will;
use cloudmqtt::packets::disconnect::MDisconnect;
use cloudmqtt::packets::ping::MPingreq;
use cloudmqtt::packets::ping::MPingresp;
use cloudmqtt::packets::puback::MPuback;
use cloudmqtt::packets::pubcomp::MPubcomp;
use cloudmqtt::packets::publish::MPublish;
use cloudmqtt::packets::pubrec::MPubrec;
use cloudmqtt::packets::pubrel::MPubrel;
use cloudmqtt::packets::suback::MSuback;
use cloudmqtt::packets::subscribe::MSubscribe;
use cloudmqtt::packets::subscribe::RetainHandling;
use cloudmqtt::packets::subscribe::Subscription;
use cloudmqtt::packets::subscribe::SubscriptionOptions;
use cloudmqtt::packets::subscribe::Subscriptions;
use cloudmqtt::packets::unsuback::MUnsuback;
use cloudmqtt::packets::unsubscribe::MUnsubscribe;
use cloudmqtt::packets::reencode;
use cloudmqtt::packets::MqttPacket;
use cloudmqtt::properties::Property;
use cloudmqtt::properties::PropertyValue;
use cloudmqtt::property_id::PropertyId;
use cloudmqtt::property_set::Properties;
use cloudmqtt::qos::QualityOfService;
use cloudmqtt::reason_code::AuthReasonCode;
use cloudmqtt::reason_code::ConnectReasonCode;
use cloudmqtt::reason_code::DisconnectReasonCode;
use cloudmqtt::reason_code::PubackReasonCode;
use cloudmqtt::reason_code::PubcompReasonCode;
use cloudmqtt::reason_code::PubrecReasonCode;
use cloudmqtt::reason_code::PubrelReasonCode;
use cloudmqtt::reason_code::SubackReasonCode;
use cloudmqtt::reason_code::UnsubackReasonCode;
use cloudmqtt::strings::MqttBytes;
use cloudmqtt::strings::MqttString;
use cloudmqtt::variable_header::PacketIdentifier;

fn text(s: &str) -> MqttString {
    MqttString::from_str(s).unwrap()
}

fn id(value: u16) -> PacketIdentifier {
    PacketIdentifier::new(value).unwrap()
}

fn reason_string(s: &str) -> Properties {
    let mut properties = Properties::new();
    properties.push(Property {
        id: PropertyId::ReasonString,
        value: PropertyValue::Utf8String(text(s)),
    });
    properties
}

fn round_trip(packet: MqttPacket) {
    assert!(packet.is_valid());
    let bytes = packet.encode().unwrap();
    assert_eq!(bytes.len(), packet.binary_size() as usize);
    assert_eq!(MqttPacket::parse_complete(&bytes), Ok(packet));
}

fn subscription(filter: &str, qos: QualityOfService) -> Subscription {
    Subscription {
        topic_filter: text(filter),
        options: SubscriptionOptions {
            quality_of_service: qos,
            no_local: true,
            retain_as_published: false,
            retain_handling: RetainHandling::DoNotSendRetainedMessages,
        },
    }
}

#[test]
fn every_kind_of_packet_survives_the_round_trip() {
    let mut publish_properties = Properties::new();
    publish_properties.push(Property {
        id: PropertyId::TopicAlias,
        value: PropertyValue::TwoByteInteger(3),
    });
    publish_properties.push(Property {
        id: PropertyId::CorrelationData,
        value: PropertyValue::BinaryData(MqttBytes::from_bytes(&[9, 8]).unwrap()),
    });
    let mut will_properties = Properties::new();
    will_properties.push(Property {
        id: PropertyId::WillDelayInterval,
        value: PropertyValue::FourByteInteger(30),
    });
    let mut connect_properties = Properties::new();
    connect_properties.push(Property {
        id: PropertyId::MaximumPacketSize,
        value: PropertyValue::FourByteInteger(70_000),
    });
    for packet in [
        MqttPacket::Connect(MConnect {
            client_identifier: text("test"),
            username: Some(text("user")),
            password: Some(MqttBytes::from_bytes(b"secret").unwrap()),
            clean_start: true,
            will: Some(Will {
                properties: will_properties,
                topic: text("hello/world"),
                payload: MqttBytes::from_bytes(b"I died!").unwrap(),
                will_qos: QualityOfService::AtLeastOnce,
                will_retain: true,
            }),
            properties: connect_properties,
            keep_alive: 100,
        }),
        MqttPacket::Connack(MConnack {
            session_present: true,
            reason_code: ConnectReasonCode::Success,
            properties: reason_string("welcome"),
        }),
        MqttPacket::Publish(MPublish {
            duplicate: true,
            quality_of_service: QualityOfService::ExactlyOnce,
            retain: true,
            topic_name: text("a/b"),
            packet_identifier: Some(id(300)),
            properties: publish_properties,
            payload: vec![1, 2, 3],
        }),
        MqttPacket::Publish(MPublish {
            duplicate: false,
            quality_of_service: QualityOfService::AtMostOnce,
            retain: false,
            topic_name: text("a"),
            packet_identifier: None,
            properties: Properties::new(),
            payload: vec![0; 200],
        }),
        MqttPacket::Puback(MPuback {
            packet_identifier: id(1),
            reason: PubackReasonCode::NoMatchingSubscribers,
            properties: Properties::new(),
        }),
        MqttPacket::Pubrec(MPubrec {
            packet_identifier: id(2),
            reason: PubrecReasonCode::QuotaExceeded,
            properties: reason_string("too much"),
        }),
        MqttPacket::Pubrel(MPubrel {
            packet_identifier: id(3),
            reason: PubrelReasonCode::PacketIdentifierNotFound,
            properties: Properties::new(),
        }),
        MqttPacket::Pubcomp(MPubcomp {
            packet_identifier: id(65_535),
            reason: PubcompReasonCode::Success,
            properties: Properties::new(),
        }),
        MqttPacket::Subscribe(MSubscribe {
            packet_identifier: id(4),
            properties: Properties::new(),
            subscriptions: Subscriptions {
                entries: vec![
                    subscription("a/+", QualityOfService::AtLeastOnce),
                    subscription("#", QualityOfService::ExactlyOnce),
                ],
            },
        }),
        MqttPacket::Suback(MSuback {
            packet_identifier: id(4),
            properties: Properties::new(),
            reasons: vec![
                SubackReasonCode::GrantedQoS1,
                SubackReasonCode::TopicFilterInvalid,
            ],
        }),
        MqttPacket::Unsubscribe(MUnsubscribe {
            packet_identifier: id(5),
            properties: Properties::new(),
            unsubscriptions: vec![text("a/+"), text("#")],
        }),
        MqttPacket::Unsuback(MUnsuback {
            packet_identifier: id(5),
            properties: Properties::new(),
            reasons: vec![
                UnsubackReasonCode::Success,
                UnsubackReasonCode::NoSubscriptionExisted,
            ],
        }),
        MqttPacket::Pingreq(MPingreq),
        MqttPacket::Pingresp(MPingresp),
        MqttPacket::Disconnect(MDisconnect {
            reason_code: DisconnectReasonCode::ServerShuttingDown,
            properties: reason_string("bye"),
        }),
        MqttPacket::Auth(MAuth {
            reason: AuthReasonCode::ContinueAuthentication,
            properties: Properties::new(),
        }),
    ] {
        round_trip(packet);
    }
}

#[test]
fn connect_bytes_are_exact() {
    let packet = MqttPacket::Connect(MConnect {
        client_identifier: text("test"),
        username: None,
        password: None,
        clean_start: false,
        will: None,
        properties: Properties::new(),
        keep_alive: 0,
    });
    assert_eq!(packet.mqtt_packet_type_name(), "Connect");
    assert_eq!(
        packet.encode().unwrap(),
        vec![
            0x10, 17, 0, 4, b'M', b'Q', b'T', b'T', 5, 0, 0, 0, 0, 0, 4, b't', b'e', b's', b't'
        ]
    );
}

#[test]
fn pingreq_bytes_are_exact() {
    assert_eq!(
        MqttPacket::Pingreq(MPingreq).encode().unwrap(),
        vec![0xC0, 0x00]
    );
    assert_eq!(
        MqttPacket::parse_complete(&[0xD0, 0x00]),
        Ok(MqttPacket::Pingresp(MPingresp))
    );
}

#[test]
fn publish_bytes_are_exact() {
    let packet = MqttPacket::Publish(MPublish {
        duplicate: false,
        quality_of_service: QualityOfService::AtLeastOnce,
        retain: true,
        topic_name: text("t"),
        packet_identifier: Some(id(1)),
        properties: Properties::new(),
        payload: vec![1, 2, 3],
    });
    assert_eq!(
        packet.encode().unwrap(),
        vec![0x33, 9, 0, 1, b't', 0, 1, 0, 1, 2, 3]
    );
}

#[test]
fn malformed_reject() {
    assert_eq!(
        MqttPacket::parse_complete(&[0x10, 0xFF, 0xFF, 0xFF, 0xFF, 0x7F]),
        Err(ParseError::Malformed)
    );
}

#[test]
fn length_not_minimal_is_malformed() {
    assert_eq!(
        MqttPacket::parse_complete(&[0xC0, 0x80, 0x00]),
        Err(ParseError::Malformed)
    );
}

#[test]
fn reserved_flags_are_enforced() {
    assert_eq!(
        MqttPacket::parse_complete(&[0xC1, 0x00]),
        Err(ParseError::Malformed)
    );
    assert_eq!(
        MqttPacket::parse_complete(&[0x60, 0x02, 0x00, 0x01]),
        Err(ParseError::Malformed)
    );
    assert!(MqttPacket::parse_complete(&[0x62, 0x02, 0x00, 0x01]).is_ok());
    assert_eq!(
        MqttPacket::parse_complete(&[0x80, 0x06, 0, 1, 0, 0, 1, b'a']),
        Err(ParseError::Malformed)
    );
    assert_eq!(
        MqttPacket::parse_complete(&[0x00, 0x00]),
        Err(ParseError::Malformed)
    );
}

#[test]
fn publish_of_quality_of_service_3_is_malformed() {
    assert_eq!(
        MqttPacket::parse_complete(&[0x36, 6, 0, 1, b't', 0, 1, 0]),
        Err(ParseError::Malformed)
    );
}

#[test]
fn invalid_utf8_in_a_topic_is_malformed() {
    assert_eq!(
        MqttPacket::parse_complete(&[0x30, 5, 0, 2, 0xC3, 0x28, 0]),
        Err(ParseError::Malformed)
    );
}

#[test]
fn duplicate_property_in_a_packet_is_malformed() {
    let bytes = [
        0x20, 9, 0, 0, 6, 0x21, 0, 4, 0x21, 0, 5,
    ];
    assert_eq!(MqttPacket::parse_complete(&bytes), Err(ParseError::Malformed));
}

#[test]
fn packet_cut_short_is_incomplete() {
    assert_eq!(
        MqttPacket::parse_complete(&[]),
        Err(ParseError::Incomplete(Some(1)))
    );
    assert_eq!(
        MqttPacket::parse_complete(&[0x20]),
        Err(ParseError::Incomplete(Some(1)))
    );
    assert_eq!(
        MqttPacket::parse_complete(&[0x20, 0x03, 0x00]),
        Err(ParseError::Incomplete(Some(2)))
    );
}

#[test]
fn bytes_after_a_packet_are_malformed() {
    assert_eq!(
        MqttPacket::parse_complete(&[0xC0, 0x00, 0x00]),
        Err(ParseError::Malformed)
    );
}

#[test]
fn acknowledgement_may_leave_out_reason_and_properties() {
    let full = MqttPacket::Puback(MPuback {
        packet_identifier: id(1),
        reason: PubackReasonCode::Success,
        properties: Properties::new(),
    });
    assert_eq!(MqttPacket::parse_complete(&[0x40, 2, 0, 1]), Ok(full.clone()));
    assert_eq!(MqttPacket::parse_complete(&[0x40, 3, 0, 1, 0]), Ok(full.clone()));
    assert_eq!(full.encode().unwrap(), vec![0x40, 4, 0, 1, 0, 0]);
    assert_eq!(
        MqttPacket::parse_complete(&[0xE0, 0]),
        Ok(MqttPacket::Disconnect(MDisconnect {
            reason_code: DisconnectReasonCode::NormalDisconnection,
            properties: Properties::new(),
        }))
    );
}

#[test]
fn packet_that_is_not_valid_is_not_encoded() {
    let publish = MqttPacket::Publish(MPublish {
        duplicate: false,
        quality_of_service: QualityOfService::AtLeastOnce,
        retain: false,
        topic_name: text("t"),
        packet_identifier: None,
        properties: Properties::new(),
        payload: vec![],
    });
    assert!(!publish.is_valid());
    assert_eq!(publish.encode(), Err(MqttWriteError::Invariant));
    let subscribe = MqttPacket::Subscribe(MSubscribe {
        packet_identifier: id(1),
        properties: Properties::new(),
        subscriptions: Subscriptions { entries: vec![] },
    });
    assert_eq!(subscribe.encode(), Err(MqttWriteError::Invariant));
    let connack = MqttPacket::Connack(MConnack {
        session_present: false,
        reason_code: ConnectReasonCode::Success,
        properties: {
            let mut p = Properties::new();
            p.push(Property {
                id: PropertyId::TopicAlias,
                value: PropertyValue::TwoByteInteger(1),
            });
            p
        },
    });
    assert_eq!(connack.encode(), Err(MqttWriteError::Invariant));
}

#[test]
fn subscription_options_byte() {
    let options = SubscriptionOptions {
        quality_of_service: QualityOfService::ExactlyOnce,
        no_local: true,
        retain_as_published: true,
        retain_handling: RetainHandling::SendRetainedMessagesOnNewSubscribe,
    };
    assert_eq!(options.to_byte(), 0b0001_1110);
    assert_eq!(SubscriptionOptions::parse(0b0001_1110), Ok(options));
    assert!(SubscriptionOptions::parse(0b0100_0000).is_err());
    assert!(SubscriptionOptions::parse(0b0011_0000).is_err());
    assert!(SubscriptionOptions::parse(0b0000_0011).is_err());
}

#[test]
fn subscribe_sizes_add_up() {
    let subscriptions = Subscriptions {
        entries: vec![
            subscription("a/+", QualityOfService::AtLeastOnce),
            subscription("#", QualityOfService::ExactlyOnce),
        ],
    };
    assert_eq!(subscriptions.binary_size(), 6 + 4);
    assert_eq!(subscriptions.iter().len(), 2);
    let packet = MSubscribe {
        packet_identifier: id(4),
        properties: Properties::new(),
        subscriptions,
    };
    assert_eq!(packet.binary_size(), 2 + 1 + 10);
    let mut buffer = Vec::new();
    packet.write(&mut buffer);
    assert_eq!(
        buffer,
        vec![0, 4, 0, 0, 3, b'a', b'/', b'+', 0x25, 0, 1, b'#', 0x26]
    );
    assert_eq!(MSubscribe::parse(&buffer), Ok(packet));
    assert!(MSubscribe::parse(&[0, 4, 0]).is_err());
}

#[test]
fn connect_with_a_wrong_protocol_is_malformed() {
    let mut bytes = vec![
        0x10, 17, 0, 4, b'M', b'Q', b'T', b'T', 4, 0, 0, 0, 0, 0, 4, b't', b'e', b's', b't',
    ];
    assert_eq!(MqttPacket::parse_complete(&bytes), Err(ParseError::Malformed));
    bytes[8] = 5;
    assert!(MqttPacket::parse_complete(&bytes).is_ok());
    bytes[9] = 1;
    assert_eq!(MqttPacket::parse_complete(&bytes), Err(ParseError::Malformed));
    bytes[9] = 0b0000_1000;
    assert_eq!(MqttPacket::parse_complete(&bytes), Err(ParseError::Malformed));
}

#[test]
fn reencode_gives_the_bytes_of_the_packet() {
    let bytes = [0x33u8, 9, 0, 1, b't', 0, 1, 0, 1, 2, 3];
    assert_eq!(reencode(&bytes), Ok(bytes.to_vec()));
    assert_eq!(reencode(&[0x40, 2, 0, 1]), Ok(vec![0x40, 4, 0, 1, 0, 0]));
    assert_eq!(reencode(&[0x40, 2, 0, 0]), Err(ParseError::Malformed));
    assert_eq!(reencode(&[0x40, 2, 0]), Err(ParseError::Incomplete(Some(1))));
}

#[test]
fn connect_flags_byte() {
    let flags = ConnectFlags {
        username: true,
        password: false,
        will_retain: true,
        will_qos: QualityOfService::ExactlyOnce,
        will: true,
        clean_start: true,
    };
    assert_eq!(flags.to_byte(), 0b1011_0110);
    assert_eq!(ConnectFlags::parse(0b1011_0110), Ok(flags));
    assert!(ConnectFlags::parse(0b0000_0001).is_err());
    assert!(ConnectFlags::parse(0b0001_1100).is_err());
    assert!(ConnectFlags::parse(0b0010_0000).is_err());
    assert!(ConnectFlags::parse(0b0000_1000).is_err());
}
