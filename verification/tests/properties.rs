use cloudmqtt::properties::Property;
use cloudmqtt::properties::PropertyValue;
use cloudmqtt::property_id::PropertyId;
use cloudmqtt::property_id::PropertyKind;
use cloudmqtt::property_id::PropertyScope;
use cloudmqtt::property_set::Properties;
use cloudmqtt::strings::MqttBytes;
use cloudmqtt::strings::MqttString;
use cloudmqtt::user_properties::UserProperty;

fn text(s: &str) -> MqttString {
    MqttString::from_str(s).unwrap()
}

fn foo_bar() -> UserProperty {
    UserProperty {
        key: text("foo"),
        value: text("bar"),
    }
}

#[test]
fn check_properties() {
    let mut props = Properties::new();

    props.set(
        PropertyId::SessionExpiryInterval,
        PropertyValue::FourByteInteger(16u32),
    );
    props.with_user_properties(foo_bar());
    for _ in 0..5 {
        props.with_user_properties(foo_bar());
    }
    props.set(PropertyId::ReceiveMaximum, PropertyValue::TwoByteInteger(4));

    assert_eq!(props.user_properties().iter().iter().count(), 6);

    assert!(props.is_valid(PropertyScope::Connect));
    let mut buffer = vec![];
    props.write(PropertyScope::Connect, &mut buffer);
    assert_eq!(buffer.len(), props.binary_size(PropertyScope::Connect) as usize);

    let (new_props, consumed) = Properties::parse(PropertyScope::Connect, &buffer).unwrap();

    assert_eq!(consumed, buffer.len());
    assert_eq!(props, new_props);
}

#[test]
fn properties_bytes_are_exact() {
    let mut props = Properties::new();
    props.set(
        PropertyId::SessionExpiryInterval,
        PropertyValue::FourByteInteger(16),
    );
    props.with_user_properties(UserProperty {
        key: text("k"),
        value: text("v"),
    });
    let mut buffer = vec![];
    props.write(PropertyScope::Connect, &mut buffer);
    assert_eq!(
        buffer,
        vec![12, 0x11, 0, 0, 0, 16, 0x26, 0, 1, b'k', 0, 1, b'v']
    );
}

#[test]
fn set_replaces_a_property_that_may_not_repeat() {
    let mut props = Properties::new();
    props.set(PropertyId::ReceiveMaximum, PropertyValue::TwoByteInteger(4));
    props.set(PropertyId::TopicAliasMaximum, PropertyValue::TwoByteInteger(9));
    props.set(PropertyId::ReceiveMaximum, PropertyValue::TwoByteInteger(7));
    assert_eq!(props.entries.len(), 2);
    assert_eq!(
        props.get(PropertyId::ReceiveMaximum),
        Some(&PropertyValue::TwoByteInteger(7))
    );
    assert_eq!(props.entries[0].id, PropertyId::ReceiveMaximum);
    props.set(
        PropertyId::SubscriptionIdentifier,
        PropertyValue::VariableByteInteger(1),
    );
    props.set(
        PropertyId::SubscriptionIdentifier,
        PropertyValue::VariableByteInteger(2),
    );
    assert_eq!(props.entries.len(), 4);
    assert_eq!(props.get(PropertyId::MaximumQoS), None);
}

#[test]
fn duplicate_property_is_malformed() {
    let twice = [6u8, 0x21, 0, 4, 0x21, 0, 4];
    assert!(Properties::parse(PropertyScope::Connect, &twice).is_err());
    let once = [3u8, 0x21, 0, 4];
    assert!(Properties::parse(PropertyScope::Connect, &once).is_ok());
    let user_twice = [14u8, 0x26, 0, 1, b'a', 0, 1, b'b', 0x26, 0, 1, b'a', 0, 1, b'b'];
    let (props, n) = Properties::parse(PropertyScope::Connect, &user_twice).unwrap();
    assert_eq!(n, 15);
    assert_eq!(props.entries.len(), 2);
}

#[test]
fn property_of_another_packet_is_malformed() {
    let receive_maximum = [3u8, 0x21, 0, 4];
    assert!(Properties::parse(PropertyScope::Publish, &receive_maximum).is_err());
    assert!(!PropertyId::ReceiveMaximum.allowed_in(PropertyScope::Publish));
    assert!(PropertyId::ReceiveMaximum.allowed_in(PropertyScope::Connack));
    assert!(PropertyId::UserProperty.allowed_in(PropertyScope::Will));
}

#[test]
fn property_values_out_of_range_are_malformed() {
    assert!(Properties::parse(PropertyScope::Connack, &[3u8, 0x21, 0, 0]).is_err());
    assert!(Properties::parse(PropertyScope::Connack, &[2u8, 0x24, 2]).is_err());
    assert!(Properties::parse(PropertyScope::Connack, &[2u8, 0x24, 1]).is_ok());
    assert!(Properties::parse(PropertyScope::Connack, &[2u8, 0x7F, 1]).is_err());
    assert!(Properties::parse(PropertyScope::Connack, &[5u8, 0x24, 1]).is_err());
}

#[test]
fn property_with_the_wrong_type_of_value_is_not_valid() {
    let property = Property {
        id: PropertyId::ReceiveMaximum,
        value: PropertyValue::Byte(1),
    };
    assert!(!property.is_valid());
    assert_eq!(PropertyId::ReceiveMaximum.kind(), PropertyKind::TwoByteInteger);
    assert_eq!(PropertyId::from_code(0x21), Some(PropertyId::ReceiveMaximum));
    assert_eq!(PropertyId::ReceiveMaximum.code(), 0x21);
    assert_eq!(PropertyId::from_code(0x04), None);
    let data = Property {
        id: PropertyId::CorrelationData,
        value: PropertyValue::BinaryData(MqttBytes::from_bytes(&[1, 2]).unwrap()),
    };
    assert!(data.is_valid());
    assert_eq!(data.binary_size(), 5);
}

#[test]
fn user_properties_view_keeps_order_and_duplicates() {
    let mut props = Properties::new();
    props.with_user_properties(UserProperty {
        key: text("a"),
        value: text("1"),
    });
    props.set(PropertyId::ReceiveMaximum, PropertyValue::TwoByteInteger(4));
    props.with_user_properties(UserProperty {
        key: text("b"),
        value: text("2"),
    });
    props.with_user_properties(UserProperty {
        key: text("a"),
        value: text("3"),
    });
    let view = props.user_properties();
    assert_eq!(view.iter(), vec![("a", "1"), ("b", "2"), ("a", "3")]);
    assert_eq!(view.keys(), vec!["a", "b", "a"]);
    assert_eq!(view.values(), vec!["1", "2", "3"]);
    let map = view.to_hashmap();
    assert_eq!(map.len(), 2);
    assert_eq!(map.get("a"), Some(&"3".to_string()));
    assert_eq!(map.get("b"), Some(&"2".to_string()));
    assert_eq!(map.get("c"), None);
}
