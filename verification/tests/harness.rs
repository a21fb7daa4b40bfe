use cloudmqtt::packets::connect::MConnect;
use cloudmqtt::packets::ping::MPingreq;
use cloudmqtt::packets::publish::MPublish;
use cloudmqtt::packets::MqttPacket;
use cloudmqtt::property_set::Properties;
use cloudmqtt::qos::QualityOfService;
use cloudmqtt::strings::MqttString;
use cloudmqtt::test_harness::check_for_connect;
use cloudmqtt::test_harness::check_for_publish;
use cloudmqtt::test_harness::TestHarnessError;
use cloudmqtt::topic::is_valid_topic_filter;
use cloudmqtt::topic::is_valid_topic_name;

fn text(s: &str) -> MqttString {
    MqttString::from_str(s).unwrap()
}

fn publish(topic: &str, payload: &[u8]) -> MqttPacket {
    MqttPacket::Publish(MPublish {
        duplicate: false,
        quality_of_service: QualityOfService::AtMostOnce,
        retain: false,
        topic_name: text(topic),
        packet_identifier: None,
        properties: Properties::new(),
        payload: payload.to_vec(),
    })
}

#[test]
fn harness_tells_the_expected_publish() {
    assert_eq!(check_for_publish(&publish("a/b", b"hi"), "a/b"), Ok(true));
    assert_eq!(
        check_for_publish(&publish("a/c", b"hi"), "a/b"),
        Err(TestHarnessError::UnexpectedTopic {
            expected: "a/b".to_string(),
            found: "a/c".to_string()
        })
    );
    assert_eq!(
        check_for_publish(&publish("a/b", &[0xFF]), "a/b"),
        Err(TestHarnessError::PayloadNotUtf8)
    );
    assert_eq!(
        check_for_publish(&MqttPacket::Pingreq(MPingreq), "a/b"),
        Ok(false)
    );
}

#[test]
fn harness_tells_the_expected_connect() {
    let connect = MqttPacket::Connect(MConnect {
        client_identifier: text("me"),
        username: None,
        password: None,
        clean_start: true,
        will: None,
        properties: Properties::new(),
        keep_alive: 0,
    });
    assert_eq!(check_for_connect(&connect, "me"), Ok(true));
    assert_eq!(
        check_for_connect(&connect, "you"),
        Err(TestHarnessError::UnexpectedClientIdentifier {
            got: "me".to_string(),
            expected: "you".to_string()
        })
    );
    assert_eq!(check_for_connect(&publish("a", b""), "me"), Ok(false));
}

#[test]
fn packet_type_names() {
    assert_eq!(MqttPacket::Pingreq(MPingreq).mqtt_packet_type_name(), "Pingreq");
    assert_eq!(publish("a", b"").mqtt_packet_type_name(), "Publish");
}

#[test]
fn topic_names_hold_no_wildcards() {
    assert!(is_valid_topic_name(&text("a/b")));
    assert!(is_valid_topic_name(&text("/")));
    assert!(!is_valid_topic_name(&text("")));
    assert!(!is_valid_topic_name(&text("a/+")));
    assert!(!is_valid_topic_name(&text("#")));
}

#[test]
fn topic_filters_place_their_wildcards() {
    for valid in ["a", "a/b", "+", "#", "a/+/b", "+/+", "a/#", "/#", "+/#", "/"] {
        assert!(is_valid_topic_filter(&text(valid)), "{}", valid);
    }
    for invalid in ["", "a+", "+a", "a/+b", "a#", "#/a", "a/#/b", "a/b#", "##"] {
        assert!(!is_valid_topic_filter(&text(invalid)), "{}", invalid);
    }
}
