use cloudmqtt::client::CleanStart;
use cloudmqtt::client::KeepAlive;
use cloudmqtt::client::MqttClientConnector;
use cloudmqtt::client::MqttWill;
use cloudmqtt::client::ProposedClientIdentifier;
use cloudmqtt::embedded::connect_packet;
use cloudmqtt::embedded::qos0_publish;
use cloudmqtt::embedded::BuffersFull;
use cloudmqtt::embedded::MqttStackResourceWriteSlot;
use cloudmqtt::embedded::MqttStackResourceWriteSlotError;
use cloudmqtt::embedded::MqttStackResources;
use cloudmqtt::embedded::StageError;
use cloudmqtt::embedded::Subscription;
use cloudmqtt::packets::connect::MConnect;
use cloudmqtt::packets::connect::Will;
use cloudmqtt::packets::ping::MPingreq;
use cloudmqtt::packets::MqttPacket;
use cloudmqtt::properties::PropertyValue;
use cloudmqtt::property_id::PropertyId;
use cloudmqtt::property_set::Properties;
use cloudmqtt::qos::MaximumQualityOfService;
use cloudmqtt::qos::QualityOfService;
use cloudmqtt::strings::MqttBytes;
use cloudmqtt::strings::MqttString;
use cloudmqtt::strings::MqttStringError;

fn text(s: &str) -> MqttString {
    MqttString::from_str(s).unwrap()
}

#[test]
fn clean_start_as_bool() {
    assert!(CleanStart::Yes.as_bool());
    assert!(!CleanStart::No.as_bool());
}

#[test]
fn keep_alive_as_seconds() {
    assert_eq!(KeepAlive::Disabled.as_u16(), 0);
    assert_eq!(KeepAlive::Seconds(100).as_u16(), 100);
}

#[test]
fn connector_builds_the_connect_packet() {
    let mut connector = MqttClientConnector::new(
        ProposedClientIdentifier::PotentiallyAccepted(text("client")),
        CleanStart::Yes,
        KeepAlive::Seconds(30),
    );
    let mut will = MqttWill::new(
        text("hello/world"),
        MqttBytes::from_bytes(b"I died!").unwrap(),
        QualityOfService::AtMostOnce,
        false,
    );
    will.get_properties_mut()
        .set(PropertyId::WillDelayInterval, PropertyValue::FourByteInteger(5));
    connector
        .with_username(text("user"))
        .with_password(MqttBytes::from_bytes(b"pw").unwrap())
        .with_will(will);
    connector
        .properties_mut()
        .set(PropertyId::ReceiveMaximum, PropertyValue::TwoByteInteger(8));
    let mut will_properties = Properties::new();
    will_properties.set(PropertyId::WillDelayInterval, PropertyValue::FourByteInteger(5));
    let mut properties = Properties::new();
    properties.set(PropertyId::ReceiveMaximum, PropertyValue::TwoByteInteger(8));
    assert_eq!(
        connector.to_connect(),
        MConnect {
            client_identifier: text("client"),
            username: Some(text("user")),
            password: Some(MqttBytes::from_bytes(b"pw").unwrap()),
            clean_start: true,
            will: Some(Will {
                properties: will_properties,
                topic: text("hello/world"),
                payload: MqttBytes::from_bytes(b"I died!").unwrap(),
                will_qos: QualityOfService::AtMostOnce,
                will_retain: false,
            }),
            properties,
            keep_alive: 30,
        }
    );
}

#[test]
fn connector_without_an_identifier_leaves_it_empty() {
    let connector = MqttClientConnector::new(
        ProposedClientIdentifier::PotentiallyServerProvided,
        CleanStart::No,
        KeepAlive::Disabled,
    );
    let connect = connector.to_connect();
    assert_eq!(connect.client_identifier, MqttString::empty());
    assert!(!connect.clean_start);
    assert_eq!(connect.keep_alive, 0);
    assert_eq!(connect.will, None);
}

#[test]
fn maximum_quality_of_service_permits() {
    assert!(MaximumQualityOfService::AtLeastOnce.permits(QualityOfService::AtLeastOnce));
    assert!(!MaximumQualityOfService::AtLeastOnce.permits(QualityOfService::ExactlyOnce));
    assert!(!MaximumQualityOfService::AtMostOnce.permits(QualityOfService::AtLeastOnce));
    assert!(MaximumQualityOfService::AtMostOnce.permits(QualityOfService::AtMostOnce));
}

#[test]
fn write_slot_takes_bytes_until_it_is_full() {
    let mut slot = MqttStackResourceWriteSlot::new();
    assert!(slot.is_empty());
    assert_eq!(slot.len(), 1024);
    assert_eq!(slot.write_byte(7), Ok(()));
    assert_eq!(slot.write_slice(&[8, 9]), Ok(()));
    assert_eq!(slot.as_slice(), &[7, 8, 9]);
    assert_eq!(
        slot.write_slice(&[0; 1022]),
        Err(MqttStackResourceWriteSlotError::Invariant)
    );
    assert_eq!(slot.as_slice(), &[7, 8, 9]);
    assert_eq!(slot.write_slice(&[0; 1021]), Ok(()));
    assert_eq!(
        slot.write_byte(1),
        Err(MqttStackResourceWriteSlotError::Invariant)
    );
    slot.clear();
    assert!(slot.is_empty());
    assert_eq!(slot.as_slice(), &[] as &[u8]);
}

#[test]
fn stack_resources_hand_out_the_first_empty_slot() {
    let mut resources: MqttStackResources<0, 2> = MqttStackResources::new();
    let ping = MqttPacket::Pingreq(MPingreq);
    assert_eq!(resources.stage(&ping), Ok(0));
    assert_eq!(resources.staged(0), Some(&[0xC0u8, 0x00][..]));
    assert_eq!(resources.first_empty(), Some(1));
    resources
        .get_next_send_buf_mut()
        .unwrap()
        .write_byte(1)
        .unwrap();
    assert_eq!(resources.stage(&ping), Err(StageError::BuffersFull));
    assert_eq!(resources.get_next_send_buf_mut().err(), Some(BuffersFull));
    assert!(resources.release(0));
    assert!(!resources.release(2));
    assert_eq!(resources.staged(2), None);
    assert_eq!(resources.stage(&ping), Ok(0));
}

#[test]
fn packet_that_does_not_fit_a_slot_is_not_staged() {
    let mut resources: MqttStackResources<0, 1> = MqttStackResources::new();
    let large = MqttPacket::Publish(qos0_publish("t", &[0; 1024], false).unwrap());
    assert_eq!(
        resources.stage(&large),
        Err(StageError::WriteBuf(
            MqttStackResourceWriteSlotError::Invariant
        ))
    );
    assert_eq!(resources.first_empty(), Some(0));
}

#[test]
fn embedded_client_packets() {
    let connect = connect_packet();
    assert_eq!(connect.client_identifier.as_str(), "cloudmqtt-0");
    assert!(connect.clean_start);
    assert_eq!(connect.keep_alive, 0);
    let publish = qos0_publish("a/b", &[1, 2], true).unwrap();
    assert_eq!(publish.quality_of_service, QualityOfService::AtMostOnce);
    assert_eq!(publish.packet_identifier, None);
    assert!(publish.retain);
    assert_eq!(publish.payload, vec![1, 2]);
    assert_eq!(
        qos0_publish("a\u{0}", &[], false).err(),
        Some(MqttStringError::NullCharacter)
    );
    let subscription = Subscription::new("a/#", QualityOfService::AtLeastOnce, false);
    assert_eq!(subscription.topic, "a/#");
    assert_eq!(subscription.qos, QualityOfService::AtLeastOnce);
    assert!(!subscription.retain);
}
