use cloudmqtt::fsm::action::DisconnectReason;
use cloudmqtt::fsm::action::ExpectedAction;
use cloudmqtt::fsm::action::MqttInstant;
use cloudmqtt::fsm::action::ProtocolViolation;
use cloudmqtt::fsm::engine::MqttClientFSM;
use cloudmqtt::fsm::state::ConnectionPhase;
use cloudmqtt::fsm::state::PublishError;
use cloudmqtt::fsm::state::RequestError;
use cloudmqtt::packets::MqttPacket;
use cloudmqtt::packets::auth::MAuth;
use cloudmqtt::packets::connack::MConnack;
use cloudmqtt::packets::connect::MConnect;
use cloudmqtt::packets::disconnect::MDisconnect;
use cloudmqtt::packets::ping::MPingreq;
use cloudmqtt::packets::ping::MPingresp;
use cloudmqtt::packets::puback::MPuback;
use cloudmqtt::packets::pubcomp::MPubcomp;
use cloudmqtt::packets::publish::MPublish;
use cloudmqtt::packets::pubrec::MPubrec;
use cloudmqtt::packets::pubrel::MPubrel;
use cloudmqtt::packets::suback::MSuback;
use cloudmqtt::packets::subscribe::MSubscribe;
use cloudmqtt::packets::subscribe::RetainHandling;
use cloudmqtt::packets::subscribe::Subscription;
use cloudmqtt::packets::subscribe::SubscriptionOptions;
use cloudmqtt::packets::subscribe::Subscriptions;
use cloudmqtt::packets::unsuback::MUnsuback;
use cloudmqtt::packets::unsubscribe::MUnsubscribe;
use cloudmqtt::properties::Property;
use cloudmqtt::properties::PropertyValue;
use cloudmqtt::property_id::PropertyId;
use cloudmqtt::property_set::Properties;
use cloudmqtt::qos::QualityOfService;
use cloudmqtt::reason_code::AuthReasonCode;
use cloudmqtt::reason_code::ConnectReasonCode;
use cloudmqtt::reason_code::DisconnectReasonCode;
use cloudmqtt::reason_code::PubackReasonCode;
use cloudmqtt::reason_code::PubcompReasonCode;
use cloudmqtt::reason_code::PubrecReasonCode;
use cloudmqtt::reason_code::PubrelReasonCode;
use cloudmqtt::reason_code::SubackReasonCode;
use cloudmqtt::reason_code::UnsubackReasonCode;
use cloudmqtt::strings::MqttBytes;
use cloudmqtt::strings::MqttString;
use cloudmqtt::variable_header::PacketIdentifier;

fn connect_packet(clean_start: bool, keep_alive: u16) -> MConnect {
    MConnect {
        client_identifier: MqttString::from_str("c").unwrap(),
        username: None,
        password: None,
        clean_start,
        will: None,
        properties: Properties::new(),
        keep_alive,
    }
}

fn connack(session_present: bool, reason_code: ConnectReasonCode) -> MqttPacket {
    MqttPacket::Connack(MConnack {
        session_present,
        reason_code,
        properties: Properties::new(),
    })
}

fn connected(clean_start: bool, keep_alive: u16) -> MqttClientFSM {
    let mut fsm = MqttClientFSM::new();
    fsm.handle_connect(MqttInstant::new(0), connect_packet(clean_start, keep_alive));
    let actions = fsm.handle_packet(
        MqttInstant::new(0),
        connack(false, ConnectReasonCode::Success),
    );
    assert!(actions.is_empty());
    assert_eq!(fsm.phase(), ConnectionPhase::Connected);
    fsm
}

fn message(qos: QualityOfService, payload: &[u8]) -> MPublish {
    MPublish {
        duplicate: false,
        quality_of_service: qos,
        retain: false,
        topic_name: MqttString::from_str("t").unwrap(),
        packet_identifier: None,
        properties: Properties::new(),
        payload: payload.to_vec(),
    }
}

fn id(value: u16) -> PacketIdentifier {
    PacketIdentifier::new(value).unwrap()
}

#[test]
fn connect_connack_disconnect() {
    let mut fsm = MqttClientFSM::new();
    assert_eq!(fsm.phase(), ConnectionPhase::Idle);
    let action = fsm.handle_connect(MqttInstant::new(0), connect_packet(true, 0));
    assert_eq!(
        action,
        ExpectedAction::SendPacket(MqttPacket::Connect(connect_packet(true, 0)))
    );
    assert_eq!(fsm.phase(), ConnectionPhase::Connecting);
    let actions = fsm.handle_packet(
        MqttInstant::new(0),
        connack(false, ConnectReasonCode::Success),
    );
    assert!(actions.is_empty());
    assert_eq!(fsm.phase(), ConnectionPhase::Connected);
    let actions = fsm.handle_packet(
        MqttInstant::new(1),
        MqttPacket::Disconnect(MDisconnect {
            reason_code: DisconnectReasonCode::NormalDisconnection,
            properties: Properties::new(),
        }),
    );
    assert_eq!(
        actions,
        vec![ExpectedAction::Disconnect(DisconnectReason::ServerDisconnected(
            DisconnectReasonCode::NormalDisconnection
        ))]
    );
    assert_eq!(fsm.phase(), ConnectionPhase::Disconnected);
}

#[test]
fn qos1_publish_round_trip() {
    let mut fsm = connected(true, 0);
    let mut publisher = fsm
        .publish(message(QualityOfService::AtLeastOnce, &[1, 2, 3]))
        .unwrap();
    let mut sent = message(QualityOfService::AtLeastOnce, &[1, 2, 3]);
    sent.packet_identifier = Some(id(1));
    assert_eq!(
        publisher.run(&mut fsm, MqttInstant::new(1)),
        Some(ExpectedAction::StorePacket {
            id: id(1),
            packet: MqttPacket::Publish(sent.clone())
        })
    );
    assert_eq!(
        publisher.run(&mut fsm, MqttInstant::new(1)),
        Some(ExpectedAction::SendPacket(MqttPacket::Publish(sent)))
    );
    assert_eq!(publisher.run(&mut fsm, MqttInstant::new(1)), None);
    assert!(fsm.outstanding_packets().exists_outstanding_packet(id(1)));
    let puback = MqttPacket::Puback(MPuback {
        packet_identifier: id(1),
        reason: PubackReasonCode::Success,
        properties: Properties::new(),
    });
    assert_eq!(
        fsm.handle_packet(MqttInstant::new(2), puback.clone()),
        vec![ExpectedAction::ReleasePacket { id: id(1) }]
    );
    assert!(!fsm.outstanding_packets().exists_outstanding_packet(id(1)));
    assert_eq!(fsm.handle_packet(MqttInstant::new(3), puback), vec![]);
}

#[test]
fn qos0_publish_is_sent_and_neither_stored_nor_released() {
    let mut fsm = connected(true, 0);
    let mut publisher = fsm
        .publish(message(QualityOfService::AtMostOnce, &[9]))
        .unwrap();
    assert_eq!(publisher.packet_identifier(), None);
    assert_eq!(
        publisher.run(&mut fsm, MqttInstant::new(1)),
        Some(ExpectedAction::SendPacket(MqttPacket::Publish(message(
            QualityOfService::AtMostOnce,
            &[9]
        ))))
    );
    assert_eq!(publisher.run(&mut fsm, MqttInstant::new(1)), None);
    assert_eq!(fsm.outstanding_packets().len(), 0);
}

#[test]
fn qos2_receive() {
    let mut fsm = connected(true, 0);
    let mut publish = message(QualityOfService::ExactlyOnce, b"x");
    publish.packet_identifier = Some(id(7));
    let pubrec = ExpectedAction::SendPacket(MqttPacket::Pubrec(MPubrec {
        packet_identifier: id(7),
        reason: PubrecReasonCode::Success,
        properties: Properties::new(),
    }));
    assert_eq!(
        fsm.handle_packet(MqttInstant::new(1), MqttPacket::Publish(publish.clone())),
        vec![pubrec.clone(), ExpectedAction::ReceivedPublish(publish.clone())]
    );
    assert_eq!(
        fsm.handle_packet(MqttInstant::new(2), MqttPacket::Publish(publish)),
        vec![pubrec]
    );
    let pubrel = MqttPacket::Pubrel(MPubrel {
        packet_identifier: id(7),
        reason: PubrelReasonCode::Success,
        properties: Properties::new(),
    });
    assert_eq!(
        fsm.handle_packet(MqttInstant::new(3), pubrel),
        vec![ExpectedAction::SendPacket(MqttPacket::Pubcomp(MPubcomp {
            packet_identifier: id(7),
            reason: PubcompReasonCode::Success,
            properties: Properties::new(),
        }))]
    );
}

#[test]
fn qos2_publish_goes_through_pubrec_and_pubcomp() {
    let mut fsm = connected(true, 0);
    let mut publisher = fsm
        .publish(message(QualityOfService::ExactlyOnce, &[4]))
        .unwrap();
    while publisher.run(&mut fsm, MqttInstant::new(1)).is_some() {}
    let pubrel = MqttPacket::Pubrel(MPubrel {
        packet_identifier: id(1),
        reason: PubrelReasonCode::Success,
        properties: Properties::new(),
    });
    assert_eq!(
        fsm.handle_packet(
            MqttInstant::new(2),
            MqttPacket::Pubrec(MPubrec {
                packet_identifier: id(1),
                reason: PubrecReasonCode::Success,
                properties: Properties::new(),
            })
        ),
        vec![ExpectedAction::SendPacket(pubrel.clone())]
    );
    assert_eq!(fsm.outstanding_packets().get(id(1)), Some(&pubrel));
    assert_eq!(
        fsm.handle_packet(
            MqttInstant::new(3),
            MqttPacket::Pubcomp(MPubcomp {
                packet_identifier: id(1),
                reason: PubcompReasonCode::Success,
                properties: Properties::new(),
            })
        ),
        vec![ExpectedAction::ReleasePacket { id: id(1) }]
    );
    assert_eq!(fsm.outstanding_packets().len(), 0);
}

#[test]
fn qos2_publish_refused_by_pubrec_is_released() {
    let mut fsm = connected(true, 0);
    let mut publisher = fsm
        .publish(message(QualityOfService::ExactlyOnce, &[4]))
        .unwrap();
    while publisher.run(&mut fsm, MqttInstant::new(1)).is_some() {}
    assert_eq!(
        fsm.handle_packet(
            MqttInstant::new(2),
            MqttPacket::Pubrec(MPubrec {
                packet_identifier: id(1),
                reason: PubrecReasonCode::QuotaExceeded,
                properties: Properties::new(),
            })
        ),
        vec![ExpectedAction::ReleasePacket { id: id(1) }]
    );
}

#[test]
fn keep_alive_ping() {
    let mut fsm = connected(true, 10);
    assert_eq!(
        fsm.poll(MqttInstant::new(7)),
        Some(ExpectedAction::ScheduleWakeup(MqttInstant::new(8)))
    );
    assert_eq!(
        fsm.poll(MqttInstant::new(8)),
        Some(ExpectedAction::SendPacket(MqttPacket::Pingreq(MPingreq)))
    );
    assert_eq!(
        fsm.poll(MqttInstant::new(12)),
        Some(ExpectedAction::ScheduleWakeup(MqttInstant::new(13)))
    );
    assert_eq!(
        fsm.poll(MqttInstant::new(13)),
        Some(ExpectedAction::Disconnect(DisconnectReason::KeepAliveTimeout))
    );
    assert_eq!(fsm.phase(), ConnectionPhase::Disconnected);
    assert_eq!(fsm.poll(MqttInstant::new(14)), None);
}

#[test]
fn keep_alive_of_zero_never_pings() {
    let mut fsm = connected(true, 0);
    assert_eq!(fsm.poll(MqttInstant::new(1_000_000)), None);
}

#[test]
fn connack_with_session_after_clean_start_is_a_protocol_error() {
    let mut fsm = MqttClientFSM::new();
    fsm.handle_connect(MqttInstant::new(0), connect_packet(true, 0));
    let actions = fsm.handle_packet(
        MqttInstant::new(0),
        connack(true, ConnectReasonCode::Success),
    );
    assert_eq!(actions.len(), 1);
    match &actions[0] {
        ExpectedAction::Disconnect(DisconnectReason::ProtocolError(v)) => {
            assert_eq!(v.clause(), "MQTT-3.2.2-2")
        }
        other => panic!("unexpected action {:?}", other),
    }
    assert_eq!(fsm.phase(), ConnectionPhase::Disconnected);
}

#[test]
fn refused_connack_ends_the_connection() {
    let mut fsm = MqttClientFSM::new();
    fsm.handle_connect(MqttInstant::new(0), connect_packet(true, 0));
    assert_eq!(
        fsm.handle_packet(
            MqttInstant::new(0),
            connack(false, ConnectReasonCode::NotAuthorized)
        ),
        vec![ExpectedAction::Disconnect(DisconnectReason::ConnectRejected(
            ConnectReasonCode::NotAuthorized
        ))]
    );
    assert_eq!(fsm.phase(), ConnectionPhase::Disconnected);
}

#[test]
fn other_packet_while_connecting_is_a_protocol_error() {
    let mut fsm = MqttClientFSM::new();
    fsm.handle_connect(MqttInstant::new(0), connect_packet(true, 0));
    let actions = fsm.handle_packet(MqttInstant::new(0), MqttPacket::Pingreq(MPingreq));
    assert_eq!(actions.len(), 1);
    match &actions[0] {
        ExpectedAction::Disconnect(DisconnectReason::ProtocolError(v)) => {
            assert_eq!(v.clause(), "MQTT-3.1.4-5")
        }
        other => panic!("unexpected action {:?}", other),
    }
}

#[test]
fn session_replay_sends_stored_packets_again_in_order() {
    let mut fsm = MqttClientFSM::new();
    fsm.handle_connect(MqttInstant::new(0), connect_packet(false, 0));
    fsm.handle_packet(MqttInstant::new(0), connack(false, ConnectReasonCode::Success));
    for payload in [[1u8], [2u8], [3u8]] {
        let mut publisher = fsm
            .publish(message(QualityOfService::AtLeastOnce, &payload))
            .unwrap();
        while publisher.run(&mut fsm, MqttInstant::new(1)).is_some() {}
    }
    let puback = MqttPacket::Puback(MPuback {
        packet_identifier: id(2),
        reason: PubackReasonCode::Success,
        properties: Properties::new(),
    });
    fsm.handle_packet(MqttInstant::new(2), puback);
    fsm.handle_packet(
        MqttInstant::new(3),
        MqttPacket::Disconnect(MDisconnect {
            reason_code: DisconnectReasonCode::ServerShuttingDown,
            properties: Properties::new(),
        }),
    );
    fsm.handle_connect(MqttInstant::new(4), connect_packet(false, 0));
    let actions = fsm.handle_packet(
        MqttInstant::new(5),
        connack(true, ConnectReasonCode::Success),
    );
    let mut first = message(QualityOfService::AtLeastOnce, &[1]);
    first.packet_identifier = Some(id(1));
    first.duplicate = true;
    let mut third = message(QualityOfService::AtLeastOnce, &[3]);
    third.packet_identifier = Some(id(3));
    third.duplicate = true;
    assert_eq!(
        actions,
        vec![
            ExpectedAction::SendPacket(MqttPacket::Publish(first)),
            ExpectedAction::SendPacket(MqttPacket::Publish(third)),
        ]
    );
}

#[test]
fn publishes_are_sent_in_the_order_of_submission() {
    let mut fsm = connected(true, 0);
    let mut sent = Vec::new();
    for (qos, payload) in [
        (QualityOfService::AtLeastOnce, [1u8]),
        (QualityOfService::AtMostOnce, [2u8]),
        (QualityOfService::ExactlyOnce, [3u8]),
    ] {
        let mut publisher = fsm.publish(message(qos, &payload)).unwrap();
        while let Some(action) = publisher.run(&mut fsm, MqttInstant::new(1)) {
            if let ExpectedAction::SendPacket(MqttPacket::Publish(p)) = action {
                sent.push(p.payload);
            }
        }
    }
    assert_eq!(sent, vec![vec![1u8], vec![2u8], vec![3u8]]);
}

#[test]
fn publish_without_connection_is_refused() {
    let mut fsm = MqttClientFSM::new();
    assert_eq!(
        fsm.publish(message(QualityOfService::AtMostOnce, &[])).err(),
        Some(PublishError::NotConnected)
    );
}

#[test]
fn malformed_bytes_end_the_connection() {
    let mut fsm = MqttClientFSM::new();
    fsm.handle_connect(MqttInstant::new(0), connect_packet(true, 0));
    assert_eq!(
        fsm.handle_incoming(MqttInstant::new(0), &[0x10, 0xFF, 0xFF, 0xFF, 0xFF, 0x7F]),
        vec![ExpectedAction::Disconnect(DisconnectReason::MalformedPacket)]
    );
    assert_eq!(fsm.phase(), ConnectionPhase::Disconnected);
}

#[test]
fn incoming_bytes_act_as_their_packet() {
    let mut fsm = MqttClientFSM::new();
    fsm.handle_connect(MqttInstant::new(0), connect_packet(true, 0));
    assert_eq!(
        fsm.handle_incoming(MqttInstant::new(0), &[0x20, 0x03, 0x00, 0x00, 0x00]),
        vec![]
    );
    assert_eq!(fsm.phase(), ConnectionPhase::Connected);
    assert_eq!(fsm.handle_incoming(MqttInstant::new(0), &[0xD0]), vec![]);
    assert_eq!(fsm.phase(), ConnectionPhase::Connected);
}

#[test]
fn connack_deadline_ends_a_connection_that_is_not_accepted() {
    let mut fsm = MqttClientFSM::new();
    fsm.handle_connect_with_deadline(
        MqttInstant::new(0),
        connect_packet(true, 0),
        MqttInstant::new(30),
    );
    assert_eq!(
        fsm.poll(MqttInstant::new(29)),
        Some(ExpectedAction::ScheduleWakeup(MqttInstant::new(30)))
    );
    assert_eq!(
        fsm.poll(MqttInstant::new(30)),
        Some(ExpectedAction::Disconnect(DisconnectReason::ConnackTimeout))
    );
    assert_eq!(fsm.phase(), ConnectionPhase::Disconnected);
    let mut fsm = MqttClientFSM::new();
    fsm.handle_connect(MqttInstant::new(0), connect_packet(true, 0));
    assert_eq!(fsm.poll(MqttInstant::new(1_000)), None);
}

#[test]
fn teardown_forgets_the_session() {
    let mut fsm = connected(false, 0);
    let mut publisher = fsm
        .publish(message(QualityOfService::AtLeastOnce, &[1]))
        .unwrap();
    while publisher.run(&mut fsm, MqttInstant::new(1)).is_some() {}
    assert_eq!(fsm.outstanding_packets().len(), 1);
    fsm.teardown();
    assert_eq!(fsm.phase(), ConnectionPhase::Idle);
    assert_eq!(fsm.outstanding_packets().len(), 0);
}

#[test]
fn publish_on_a_topic_with_a_wildcard_is_refused() {
    let mut fsm = connected(true, 0);
    let mut publish = message(QualityOfService::AtMostOnce, &[]);
    publish.topic_name = MqttString::from_str("a/#").unwrap();
    assert_eq!(fsm.publish(publish).err(), Some(PublishError::InvalidTopic));
}

#[test]
fn server_limits_are_held_to() {
    let mut properties = Properties::new();
    properties.push(Property {
        id: PropertyId::MaximumQoS,
        value: PropertyValue::Byte(0),
    });
    properties.push(Property {
        id: PropertyId::RetainAvailable,
        value: PropertyValue::Byte(0),
    });
    properties.push(Property {
        id: PropertyId::MaximumPacketSize,
        value: PropertyValue::FourByteInteger(20),
    });
    let mut fsm = MqttClientFSM::new();
    fsm.handle_connect(MqttInstant::new(0), connect_packet(true, 0));
    fsm.handle_packet(
        MqttInstant::new(0),
        MqttPacket::Connack(MConnack {
            session_present: false,
            reason_code: ConnectReasonCode::Success,
            properties,
        }),
    );
    assert_eq!(fsm.limits().maximum_packet_size, Some(20));
    assert_eq!(
        fsm.publish(message(QualityOfService::AtLeastOnce, &[])).err(),
        Some(PublishError::QosNotSupported)
    );
    let mut retained = message(QualityOfService::AtMostOnce, &[]);
    retained.retain = true;
    assert_eq!(
        fsm.publish(retained).err(),
        Some(PublishError::RetainNotAvailable)
    );
    assert_eq!(
        fsm.publish(message(QualityOfService::AtMostOnce, &[0; 15])).err(),
        Some(PublishError::PacketTooLarge)
    );
    assert!(fsm.publish(message(QualityOfService::AtMostOnce, &[0; 14])).is_ok());
}

#[test]
fn topic_alias_is_bound_and_resolved() {
    let mut connect = connect_packet(true, 0);
    connect.properties.push(Property {
        id: PropertyId::TopicAliasMaximum,
        value: PropertyValue::TwoByteInteger(2),
    });
    let mut fsm = MqttClientFSM::new();
    fsm.handle_connect(MqttInstant::new(0), connect);
    fsm.handle_packet(MqttInstant::new(0), connack(false, ConnectReasonCode::Success));
    let mut alias = Properties::new();
    alias.push(Property {
        id: PropertyId::TopicAlias,
        value: PropertyValue::TwoByteInteger(2),
    });
    let mut first = message(QualityOfService::AtMostOnce, &[1]);
    first.properties = alias.clone();
    assert_eq!(
        fsm.handle_packet(MqttInstant::new(1), MqttPacket::Publish(first.clone())),
        vec![ExpectedAction::ReceivedPublish(first)]
    );
    let mut second = message(QualityOfService::AtMostOnce, &[2]);
    second.properties = alias.clone();
    second.topic_name = MqttString::empty();
    let mut resolved = second.clone();
    resolved.topic_name = MqttString::from_str("t").unwrap();
    assert_eq!(
        fsm.handle_packet(MqttInstant::new(2), MqttPacket::Publish(second)),
        vec![ExpectedAction::ReceivedPublish(resolved)]
    );
    let mut beyond = Properties::new();
    beyond.push(Property {
        id: PropertyId::TopicAlias,
        value: PropertyValue::TwoByteInteger(3),
    });
    let mut third = message(QualityOfService::AtMostOnce, &[3]);
    third.properties = beyond;
    let actions = fsm.handle_packet(MqttInstant::new(3), MqttPacket::Publish(third));
    assert_eq!(
        actions,
        vec![
            ExpectedAction::SendPacket(MqttPacket::Disconnect(MDisconnect {
                reason_code: DisconnectReasonCode::TopicAliasInvalid,
                properties: Properties::new(),
            })),
            ExpectedAction::Disconnect(DisconnectReason::ProtocolError(
                ProtocolViolation::TopicAliasInvalid
            )),
        ]
    );
    assert_eq!(fsm.phase(), ConnectionPhase::Disconnected);
}

#[test]
fn subscribe_and_unsubscribe_round_trips() {
    let subscription = |filter: &str| Subscription {
        topic_filter: MqttString::from_str(filter).unwrap(),
        options: SubscriptionOptions {
            quality_of_service: QualityOfService::AtLeastOnce,
            no_local: false,
            retain_as_published: false,
            retain_handling: RetainHandling::SendRetainedMessagesAlways,
        },
    };
    let mut fsm = connected(true, 0);
    assert_eq!(
        fsm.subscribe(MqttInstant::new(1), vec![subscription("a/+/b")]),
        Ok(ExpectedAction::SendPacket(MqttPacket::Subscribe(MSubscribe {
            packet_identifier: id(1),
            properties: Properties::new(),
            subscriptions: Subscriptions {
                entries: vec![subscription("a/+/b")]
            },
        })))
    );
    assert_eq!(
        fsm.subscribe(MqttInstant::new(1), vec![subscription("a/#/b")]),
        Err(RequestError::InvalidTopicFilter)
    );
    assert_eq!(
        fsm.subscribe(MqttInstant::new(1), vec![]),
        Err(RequestError::InvalidPacket)
    );
    assert_eq!(
        fsm.unsubscribe(MqttInstant::new(2), vec![MqttString::from_str("a/+/b").unwrap()]),
        Ok(ExpectedAction::SendPacket(MqttPacket::Unsubscribe(
            MUnsubscribe {
                packet_identifier: id(2),
                properties: Properties::new(),
                unsubscriptions: vec![MqttString::from_str("a/+/b").unwrap()],
            }
        )))
    );
    assert_eq!(
        fsm.handle_packet(
            MqttInstant::new(3),
            MqttPacket::Suback(MSuback {
                packet_identifier: id(1),
                properties: Properties::new(),
                reasons: vec![SubackReasonCode::GrantedQoS1],
            })
        ),
        vec![ExpectedAction::ReleasePacket { id: id(1) }]
    );
    assert_eq!(
        fsm.handle_packet(
            MqttInstant::new(3),
            MqttPacket::Unsuback(MUnsuback {
                packet_identifier: id(1),
                properties: Properties::new(),
                reasons: vec![UnsubackReasonCode::Success],
            })
        ),
        vec![]
    );
    assert_eq!(
        fsm.handle_packet(
            MqttInstant::new(3),
            MqttPacket::Unsuback(MUnsuback {
                packet_identifier: id(2),
                properties: Properties::new(),
                reasons: vec![UnsubackReasonCode::Success],
            })
        ),
        vec![ExpectedAction::ReleasePacket { id: id(2) }]
    );
    let mut idle = MqttClientFSM::new();
    assert_eq!(
        idle.subscribe(MqttInstant::new(0), vec![subscription("a")]),
        Err(RequestError::NotConnected)
    );
}

#[test]
fn disconnect_of_the_application_sends_a_disconnect_packet() {
    let mut fsm = connected(true, 0);
    assert_eq!(
        fsm.disconnect(MqttInstant::new(1)),
        Some(ExpectedAction::SendPacket(MqttPacket::Disconnect(
            MDisconnect {
                reason_code: DisconnectReasonCode::NormalDisconnection,
                properties: Properties::new(),
            }
        )))
    );
    assert_eq!(fsm.phase(), ConnectionPhase::Disconnected);
    assert_eq!(fsm.disconnect(MqttInstant::new(2)), None);
}

#[test]
fn extended_authentication_waits_for_the_application() {
    let challenge = MAuth {
        reason: AuthReasonCode::ContinueAuthentication,
        properties: Properties::new(),
    };
    let mut fsm = MqttClientFSM::new();
    fsm.handle_connect(MqttInstant::new(0), connect_packet(true, 0));
    let actions = fsm.handle_packet(MqttInstant::new(0), MqttPacket::Auth(challenge.clone()));
    assert_eq!(actions.len(), 1);
    match &actions[0] {
        ExpectedAction::Disconnect(DisconnectReason::ProtocolError(v)) => {
            assert_eq!(v.clause(), "MQTT-4.12.0-6")
        }
        other => panic!("unexpected action {:?}", other),
    }

    let mut connect = connect_packet(true, 0);
    connect.properties.push(Property {
        id: PropertyId::AuthenticationData,
        value: PropertyValue::BinaryData(MqttBytes::from_bytes(&[1]).unwrap()),
    });
    let mut fsm = MqttClientFSM::new();
    fsm.handle_connect(MqttInstant::new(0), connect);
    assert_eq!(
        fsm.handle_packet(MqttInstant::new(0), MqttPacket::Auth(challenge.clone())),
        vec![]
    );
    assert_eq!(fsm.phase(), ConnectionPhase::Authenticating);
    assert_eq!(fsm.pending_auth(), Some(&challenge));
    assert_eq!(
        fsm.authenticate(MqttInstant::new(1), challenge.clone()),
        Some(ExpectedAction::SendPacket(MqttPacket::Auth(challenge.clone())))
    );
    assert_eq!(fsm.pending_auth(), None);
    assert_eq!(fsm.authenticate(MqttInstant::new(1), challenge), None);
    fsm.handle_packet(MqttInstant::new(2), connack(false, ConnectReasonCode::Success));
    assert_eq!(fsm.phase(), ConnectionPhase::Connected);
}

#[test]
fn server_assigned_client_identifier() {
    let assigned = || {
        let mut properties = Properties::new();
        properties.push(Property {
            id: PropertyId::AssignedClientIdentifier,
            value: PropertyValue::Utf8String(MqttString::from_str("given").unwrap()),
        });
        MqttPacket::Connack(MConnack {
            session_present: false,
            reason_code: ConnectReasonCode::Success,
            properties,
        })
    };
    let mut fsm = MqttClientFSM::new();
    fsm.handle_connect(MqttInstant::new(0), connect_packet(true, 0));
    let actions = fsm.handle_packet(MqttInstant::new(0), assigned());
    match &actions[..] {
        [ExpectedAction::Disconnect(DisconnectReason::ProtocolError(v))] => {
            assert_eq!(v.clause(), "MQTT-3.2.2.3.7")
        }
        other => panic!("unexpected actions {:?}", other),
    }
    let mut anonymous = connect_packet(true, 0);
    anonymous.client_identifier = MqttString::empty();
    let mut fsm = MqttClientFSM::new();
    fsm.handle_connect(MqttInstant::new(0), anonymous.clone());
    assert_eq!(fsm.handle_packet(MqttInstant::new(0), assigned()), vec![]);
    assert_eq!(fsm.phase(), ConnectionPhase::Connected);
    let mut fsm = MqttClientFSM::new();
    fsm.handle_connect(MqttInstant::new(0), anonymous);
    let actions = fsm.handle_packet(
        MqttInstant::new(0),
        connack(false, ConnectReasonCode::Success),
    );
    assert_eq!(actions.len(), 1);
    assert_eq!(fsm.phase(), ConnectionPhase::Disconnected);
}

#[test]
fn unexpected_packet_on_an_open_connection_ends_it() {
    let mut fsm = connected(true, 0);
    assert_eq!(
        fsm.handle_packet(MqttInstant::new(1), MqttPacket::Pingreq(MPingreq)),
        vec![
            ExpectedAction::SendPacket(MqttPacket::Disconnect(MDisconnect {
                reason_code: DisconnectReasonCode::ProtocolError,
                properties: Properties::new(),
            })),
            ExpectedAction::Disconnect(DisconnectReason::ProtocolError(
                ProtocolViolation::UnexpectedPacket
            )),
        ]
    );
    assert_eq!(fsm.phase(), ConnectionPhase::Disconnected);
    assert_eq!(
        fsm.handle_packet(MqttInstant::new(2), MqttPacket::Pingreq(MPingreq)),
        vec![]
    );
}

#[test]
fn pingresp_stops_the_watchdog() {
    let mut fsm = connected(true, 10);
    assert_eq!(
        fsm.poll(MqttInstant::new(8)),
        Some(ExpectedAction::SendPacket(MqttPacket::Pingreq(MPingreq)))
    );
    assert_eq!(
        fsm.handle_packet(MqttInstant::new(9), MqttPacket::Pingresp(MPingresp)),
        vec![]
    );
    assert_eq!(
        fsm.poll(MqttInstant::new(13)),
        Some(ExpectedAction::ScheduleWakeup(MqttInstant::new(16)))
    );
    assert_eq!(
        fsm.poll(MqttInstant::new(16)),
        Some(ExpectedAction::SendPacket(MqttPacket::Pingreq(MPingreq)))
    );
}

#[test]
fn instants_measure_whole_seconds() {
    let start = MqttInstant::new(5);
    assert_eq!(start.as_secs(), 5);
    assert_eq!(start.elapsed_seconds(MqttInstant::new(12)), 7);
    assert_eq!(start.elapsed_seconds(MqttInstant::new(3)), 0);
    assert_eq!(start.after(4), MqttInstant::new(9));
    assert_eq!(MqttInstant::new(u64::MAX).after(4), MqttInstant::new(u64::MAX));
}

#[test]
fn abandoned_packet_frees_its_identifier() {
    let mut fsm = connected(true, 0);
    let publisher = fsm
        .publish(message(QualityOfService::AtLeastOnce, &[1]))
        .unwrap();
    assert_eq!(publisher.packet_identifier(), Some(id(1)));
    assert_eq!(
        fsm.abandon(id(1)),
        vec![ExpectedAction::ReleasePacket { id: id(1) }]
    );
    assert_eq!(fsm.abandon(id(1)), vec![]);
    let publisher = fsm
        .publish(message(QualityOfService::AtLeastOnce, &[1]))
        .unwrap();
    assert_eq!(publisher.packet_identifier(), Some(id(1)));
}

#[test]
fn message_that_cannot_go_on_the_wire_is_refused() {
    let mut fsm = connected(true, 0);
    let mut publish = message(QualityOfService::AtMostOnce, &[]);
    publish.properties.push(Property {
        id: PropertyId::ReceiveMaximum,
        value: PropertyValue::TwoByteInteger(1),
    });
    assert_eq!(fsm.publish(publish).err(), Some(PublishError::InvalidPacket));
}

#[test]
fn requests_fail_once_every_identifier_is_in_use() {
    let mut fsm = connected(true, 0);
    for expected in 1..=65_535u16 {
        let publisher = fsm
            .publish(message(QualityOfService::AtLeastOnce, &[]))
            .unwrap();
        assert_eq!(publisher.packet_identifier(), Some(id(expected)));
    }
    assert_eq!(
        fsm.publish(message(QualityOfService::ExactlyOnce, &[])).err(),
        Some(PublishError::PacketIdentifierExhausted)
    );
    assert_eq!(
        fsm.unsubscribe(MqttInstant::new(1), vec![MqttString::from_str("a").unwrap()]),
        Err(RequestError::PacketIdentifierExhausted)
    );
    assert!(fsm.publish(message(QualityOfService::AtMostOnce, &[])).is_ok());
    fsm.abandon(id(42));
    let publisher = fsm
        .publish(message(QualityOfService::ExactlyOnce, &[]))
        .unwrap();
    assert_eq!(publisher.packet_identifier(), Some(id(42)));
}
