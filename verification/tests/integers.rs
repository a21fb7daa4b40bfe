use cloudmqtt::error::ParseError;
use cloudmqtt::integers::parse_variable_u32;
use cloudmqtt::integers::variable_u32_binary_size;
use cloudmqtt::integers::write_variable_u32;

#[test]
fn variable_integer_boundaries() {
    for (value, bytes) in [
        (0u32, vec![0x00u8]),
        (127, vec![0x7F]),
        (128, vec![0x80, 0x01]),
        (16_383, vec![0xFF, 0x7F]),
        (16_384, vec![0x80, 0x80, 0x01]),
        (2_097_151, vec![0xFF, 0xFF, 0x7F]),
        (2_097_152, vec![0x80, 0x80, 0x80, 0x01]),
        (268_435_455, vec![0xFF, 0xFF, 0xFF, 0x7F]),
    ] {
        let mut buffer = Vec::new();
        write_variable_u32(&mut buffer, value);
        assert_eq!(buffer, bytes);
        assert_eq!(variable_u32_binary_size(value) as usize, bytes.len());
        assert_eq!(parse_variable_u32(&bytes), Ok((value, bytes.len())));
    }
}

#[test]
fn variable_integer_of_five_bytes_is_malformed() {
    assert_eq!(
        parse_variable_u32(&[0xFF, 0xFF, 0xFF, 0xFF, 0x7F]),
        Err(ParseError::Malformed)
    );
}

#[test]
fn variable_integer_not_minimal_is_malformed() {
    assert_eq!(parse_variable_u32(&[0x80, 0x00]), Err(ParseError::Malformed));
    assert_eq!(parse_variable_u32(&[0xFF, 0x80, 0x00]), Err(ParseError::Malformed));
}

#[test]
fn variable_integer_cut_short_is_incomplete() {
    assert_eq!(parse_variable_u32(&[]), Err(ParseError::Incomplete(Some(1))));
    assert_eq!(parse_variable_u32(&[0x80]), Err(ParseError::Incomplete(Some(1))));
    assert_eq!(
        parse_variable_u32(&[0xFF, 0xFF, 0xFF]),
        Err(ParseError::Incomplete(Some(1)))
    );
}
