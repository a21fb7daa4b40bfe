use cloudmqtt::strings::parse_binary;
use cloudmqtt::strings::parse_string;
use cloudmqtt::strings::write_binary;
use cloudmqtt::strings::write_string;
use cloudmqtt::strings::MqttBytes;
use cloudmqtt::strings::MqttString;
use cloudmqtt::strings::MqttStringError;

#[test]
fn string_round_trip() {
    let text = MqttString::from_str("sgjdhsbgjsghb").unwrap();
    let mut buffer = Vec::new();
    write_string(&mut buffer, &text);
    assert_eq!(buffer[..2], [0, 13]);
    assert_eq!(&buffer[2..], b"sgjdhsbgjsghb");
    let (parsed, n) = parse_string(&buffer).unwrap();
    assert_eq!(n, 15);
    assert_eq!(parsed, text);
    assert_eq!(parsed.as_str(), "sgjdhsbgjsghb");
    assert_eq!(parsed.len(), 13);
}

#[test]
fn string_of_more_bytes_than_announced_leaves_the_rest() {
    let (parsed, n) = parse_string(&[0, 1, b'a', b'b']).unwrap();
    assert_eq!(n, 3);
    assert_eq!(parsed.as_bytes(), b"a");
}

#[test]
fn string_cut_short_is_malformed() {
    assert!(parse_string(&[0]).is_err());
    assert!(parse_string(&[0, 2, b'a']).is_err());
}

#[test]
fn invalid_utf8_is_rejected() {
    assert_eq!(
        MqttString::from_bytes(&[0xC3, 0x28]).err(),
        Some(MqttStringError::InvalidUtf8)
    );
    assert!(parse_string(&[0, 2, 0xC3, 0x28]).is_err());
}

#[test]
fn encoded_surrogate_is_rejected() {
    assert_eq!(
        MqttString::from_bytes(&[0xED, 0xA0, 0x80]).err(),
        Some(MqttStringError::InvalidUtf8)
    );
}

#[test]
fn null_character_is_rejected() {
    assert_eq!(
        MqttString::from_str("a\u{0}b").err(),
        Some(MqttStringError::NullCharacter)
    );
    assert!(parse_string(&[0, 1, 0]).is_err());
}

#[test]
fn leading_byte_order_mark_is_rejected() {
    assert_eq!(
        MqttString::from_str("\u{FEFF}a").err(),
        Some(MqttStringError::LeadingByteOrderMark)
    );
    assert!(MqttString::from_str("a\u{FEFF}").is_ok());
}

#[test]
fn string_of_more_than_65535_bytes_is_rejected() {
    let long = "a".repeat(65_536);
    assert_eq!(
        MqttString::from_str(&long).err(),
        Some(MqttStringError::TooLong)
    );
    assert!(MqttString::from_str(&long[1..]).is_ok());
    assert!(MqttBytes::from_bytes(long.as_bytes()).is_none());
}

#[test]
fn empty_string_has_no_bytes() {
    assert_eq!(MqttString::empty().len(), 0);
    assert!(MqttString::empty().same(&MqttString::from_str("").unwrap()));
    assert!(!MqttString::empty().same(&MqttString::from_str("a").unwrap()));
}

#[test]
fn binary_round_trip() {
    let data = MqttBytes::from_bytes(&[0, 255, 7]).unwrap();
    let mut buffer = Vec::new();
    write_binary(&mut buffer, &data);
    assert_eq!(buffer, vec![0, 3, 0, 255, 7]);
    let (parsed, n) = parse_binary(&buffer).unwrap();
    assert_eq!(n, 5);
    assert_eq!(parsed, data);
    assert!(parse_binary(&[0, 3, 1]).is_err());
}
