use cloudmqtt::codecs::decode;
use cloudmqtt::codecs::encode;
use cloudmqtt::codecs::Decoded;
use cloudmqtt::codecs::MqttPacketCodecError;
use cloudmqtt::error::MqttWriteError;
use cloudmqtt::error::ParseError;
use cloudmqtt::packets::connect::MConnect;
use cloudmqtt::packets::ping::MPingreq;
use cloudmqtt::packets::publish::MPublish;
use cloudmqtt::packets::MqttPacket;
use cloudmqtt::property_set::Properties;
use cloudmqtt::qos::QualityOfService;
use cloudmqtt::strings::MqttString;
use tokio_util::bytes::BytesMut;

fn connect() -> MqttPacket {
    MqttPacket::Connect(MConnect {
        client_identifier: MqttString::from_str("test").unwrap(),
        username: None,
        password: None,
        clean_start: false,
        will: None,
        properties: Properties::new(),
        keep_alive: 0,
    })
}

#[test]
fn pingreq_goes_through_the_codec() {
    let packet = MqttPacket::Pingreq(MPingreq);
    let mut wire = Vec::new();
    encode(&packet, &mut wire).unwrap();
    let mut buffer = BytesMut::from(&wire[..]);
    assert_eq!(decode(&mut buffer), Ok(Decoded::Packet(packet)));
    assert!(buffer.is_empty());
}

#[test]
fn two_connects_in_a_row_are_cut_apart() {
    let packet = connect();
    let mut wire = Vec::new();
    encode(&packet, &mut wire).unwrap();
    encode(&packet, &mut wire).unwrap();
    let mut buffer = BytesMut::from(&wire[..]);
    assert_eq!(decode(&mut buffer), Ok(Decoded::Packet(packet.clone())));
    assert_eq!(buffer.len(), wire.len() / 2);
    assert_eq!(decode(&mut buffer), Ok(Decoded::Packet(packet)));
    assert_eq!(decode(&mut buffer), Ok(Decoded::Incomplete { missing: 2 }));
}

#[test]
fn decoder_waits_for_the_rest_of_a_packet() {
    let mut wire = Vec::new();
    encode(&connect(), &mut wire).unwrap();
    let mut buffer = BytesMut::from(&wire[..1]);
    assert_eq!(decode(&mut buffer), Ok(Decoded::Incomplete { missing: 1 }));
    let mut buffer = BytesMut::from(&wire[..5]);
    assert_eq!(
        decode(&mut buffer),
        Ok(Decoded::Incomplete {
            missing: wire.len() - 5
        })
    );
    assert_eq!(buffer.len(), 5);
    let mut buffer = BytesMut::from(&[0x30u8, 0x80][..]);
    assert_eq!(decode(&mut buffer), Ok(Decoded::Incomplete { missing: 1 }));
}

#[test]
fn malformed_length_is_a_protocol_error() {
    let mut buffer = BytesMut::from(&[0x10u8, 0xFF, 0xFF, 0xFF, 0xFF, 0x7F][..]);
    assert_eq!(decode(&mut buffer), Err(MqttPacketCodecError::Protocol));
    assert_eq!(buffer.len(), 6);
}

#[test]
fn malformed_packet_is_cut_off_and_reported() {
    let mut buffer = BytesMut::from(&[0xC1u8, 0x00, 0xC0, 0x00][..]);
    assert_eq!(
        decode(&mut buffer),
        Err(MqttPacketCodecError::Parsing(ParseError::Malformed))
    );
    assert_eq!(
        decode(&mut buffer),
        Ok(Decoded::Packet(MqttPacket::Pingreq(MPingreq)))
    );
}

#[test]
fn encoder_refuses_a_packet_that_is_not_valid() {
    let packet = MqttPacket::Publish(MPublish {
        duplicate: false,
        quality_of_service: QualityOfService::ExactlyOnce,
        retain: false,
        topic_name: MqttString::from_str("t").unwrap(),
        packet_identifier: None,
        properties: Properties::new(),
        payload: vec![],
    });
    let mut wire = vec![7u8];
    assert_eq!(
        encode(&packet, &mut wire),
        Err(MqttPacketCodecError::Writer(MqttWriteError::Invariant))
    );
    assert_eq!(wire, vec![7u8]);
}
