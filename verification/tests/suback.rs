use cloudmqtt::packets::suback::MSuback;
use cloudmqtt::properties::Property;
use cloudmqtt::properties::PropertyValue;
use cloudmqtt::property_id::PropertyId;
use cloudmqtt::property_set::Properties;
use cloudmqtt::reason_code::SubackReasonCode;
use cloudmqtt::strings::MqttString;
use cloudmqtt::variable_header::PacketIdentifier;

fn roundtrip(instance: MSuback) {
    assert!(instance.is_valid());
    let mut buffer = Vec::new();
    instance.write(&mut buffer);
    assert_eq!(buffer.len(), instance.binary_size() as usize);
    let parsed = MSuback::parse(&buffer).unwrap();
    assert_eq!(instance, parsed);
}

#[test]
fn test_roundtrip_suback_no_props() {
    roundtrip(MSuback {
        packet_identifier: PacketIdentifier::new(17).unwrap(),
        reasons: vec![SubackReasonCode::GrantedQoS0],
        properties: Properties::new(),
    });
}

#[test]
fn test_roundtrip_suback_props() {
    let mut properties = Properties::new();
    properties.push(Property {
        id: PropertyId::ReasonString,
        value: PropertyValue::Utf8String(MqttString::from_str("sgjdhsbgjsghb").unwrap()),
    });
    properties.push(Property {
        id: PropertyId::UserProperty,
        value: PropertyValue::Utf8StringPair(
            MqttString::from_bytes(&[b'f']).unwrap(),
            MqttString::from_bytes(&[b'h', b'j']).unwrap(),
        ),
    });
    roundtrip(MSuback {
        packet_identifier: PacketIdentifier::new(17).unwrap(),
        reasons: vec![SubackReasonCode::GrantedQoS0],
        properties,
    });
}

#[test]
fn suback_bytes_are_exact() {
    let packet = MSuback {
        packet_identifier: PacketIdentifier::new(17).unwrap(),
        reasons: vec![SubackReasonCode::GrantedQoS1, SubackReasonCode::NotAuthorized],
        properties: Properties::new(),
    };
    let mut buffer = Vec::new();
    packet.write(&mut buffer);
    assert_eq!(buffer, vec![0x00, 0x11, 0x00, 0x01, 0x87]);
}

#[test]
fn suback_rejects_unknown_reason_and_zero_identifier() {
    assert!(MSuback::parse(&[0x00, 0x11, 0x00, 0x03]).is_err());
    assert!(MSuback::parse(&[0x00, 0x00, 0x00, 0x00]).is_err());
}

#[test]
fn granted_tells_grants_from_refusals() {
    assert_eq!(
        SubackReasonCode::GrantedQoS2.granted(),
        Some(SubackReasonCode::GrantedQoS2)
    );
    assert_eq!(SubackReasonCode::QuotaExceeded.granted(), None);
}
