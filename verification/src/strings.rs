//! Strings and binary data on the wire: a big-endian length of two bytes,
//! then that many bytes. A string is UTF-8 that MQTT accepts.

use vstd::prelude::*;
use vstd::slice::slice_subrange;
use vstd::slice::slice_to_vec;
use vstd::utf8::encode_utf8;
use vstd::utf8::valid_utf8;

use crate::error::ParseError;
use crate::integers::lemma_u16_write_then_parse;
use crate::integers::parse_u16;
use crate::integers::spec_parse_u16;
use crate::integers::spec_u16;
use crate::integers::write_u16;

verus! {

/// The most bytes that a string or a piece of binary data can hold.
pub const MAX_STRING_LENGTH: usize = 65_535;

/// Why bytes are no MQTT string.
#[derive(Debug, Clone, Copy, PartialEq, Eq)]
pub enum MqttStringError {
    /// More than 65535 bytes.
    TooLong,
    /// Not well-formed UTF-8. An encoded surrogate, U+D800 to U+DFFF, is
    /// not well-formed either.
    InvalidUtf8,
    /// The null character, U+0000, occurs.
    NullCharacter,
    /// The text starts with U+FEFF.
    LeadingByteOrderMark,
}

/// `bytes` starts with the UTF-8 encoding of U+FEFF.
pub open spec fn spec_starts_with_bom(bytes: Seq<u8>) -> bool {
    bytes.len() >= 3 && bytes[0] == 0xEF && bytes[1] == 0xBB && bytes[2] == 0xBF
}

/// What is wrong with `bytes` as the content of an MQTT string, the first
/// fault in the order of the variants; `None` where nothing is.
///
/// In well-formed UTF-8 a zero byte is the null character and nothing else.
pub open spec fn spec_check_mqtt_utf8(bytes: Seq<u8>) -> Option<MqttStringError> {
    if bytes.len() > MAX_STRING_LENGTH {
        Some(MqttStringError::TooLong)
    } else if !valid_utf8(bytes) {
        Some(MqttStringError::InvalidUtf8)
    } else if exists|i: int| 0 <= i < bytes.len() && bytes[i] == 0 {
        Some(MqttStringError::NullCharacter)
    } else if spec_starts_with_bom(bytes) {
        Some(MqttStringError::LeadingByteOrderMark)
    } else {
        None
    }
}

/// `bytes` is the content of an MQTT string.
pub open spec fn spec_valid_mqtt_utf8(bytes: Seq<u8>) -> bool {
    spec_check_mqtt_utf8(bytes) is None
}

/// `std::str::from_utf8`: the string slice over `bytes` where they are
/// well-formed UTF-8, and nothing where they are not. The slice holds the
/// bytes it was made from.
#[verifier::external_body]
pub(crate) fn str_from_utf8(bytes: &[u8]) -> (r: Option<&str>)
    ensures
        match r {
            Some(s) => valid_utf8(bytes@) && encode_utf8(s@) == bytes@,
            None => !valid_utf8(bytes@),
        },
{
    std::str::from_utf8(bytes).ok()
}

/// Tells whether a zero byte occurs in `bytes`.
fn has_zero_byte(bytes: &[u8]) -> (r: bool)
    ensures
        r == exists|i: int| 0 <= i < bytes@.len() && bytes@[i] == 0,
{
    let mut i: usize = 0;
    while i < bytes.len()
        invariant
            0 <= i <= bytes@.len(),
            forall|j: int| 0 <= j < i ==> bytes@[j] != 0,
        decreases bytes@.len() - i,
    {
        if bytes[i] == 0 {
            return true;
        }
        i = i + 1;
    }
    false
}

/// Checks `bytes` as the content of an MQTT string.
pub fn check_mqtt_utf8(bytes: &[u8]) -> (r: Option<MqttStringError>)
    ensures
        r == spec_check_mqtt_utf8(bytes@),
{
    if bytes.len() > MAX_STRING_LENGTH {
        return Some(MqttStringError::TooLong);
    }
    if str_from_utf8(bytes).is_none() {
        return Some(MqttStringError::InvalidUtf8);
    }
    if has_zero_byte(bytes) {
        return Some(MqttStringError::NullCharacter);
    }
    if bytes.len() >= 3 && bytes[0] == 0xEF && bytes[1] == 0xBB && bytes[2] == 0xBF {
        return Some(MqttStringError::LeadingByteOrderMark);
    }
    None
}

/// Text that MQTT accepts as a string: well-formed UTF-8 of at most 65535
/// bytes, free of the null character, that does not start with U+FEFF.
/// Its view is its bytes.
#[derive(Debug, PartialEq, Eq, Hash)]
pub struct MqttString {
    bytes: Vec<u8>,
}

impl View for MqttString {
    type V = Seq<u8>;

    closed spec fn view(&self) -> Seq<u8> {
        self.bytes@
    }
}

impl MqttString {
    #[verifier::type_invariant]
    closed spec fn inv(self) -> bool {
        spec_valid_mqtt_utf8(self.bytes@)
    }

    /// The string without a byte.
    pub fn empty() -> (r: MqttString)
        ensures
            r@ == Seq::<u8>::empty(),
    {
        let bytes: Vec<u8> = Vec::new();
        proof {
            vstd::utf8::encode_utf8_valid_utf8(Seq::<char>::empty());
            assert(encode_utf8(Seq::<char>::empty()) =~= Seq::<u8>::empty()) by {
                reveal_with_fuel(vstd::utf8::encode_utf8, 1);
            }
        }
        MqttString { bytes }
    }

    /// The string that holds `bytes`, where they are the content of one.
    pub fn from_bytes(bytes: &[u8]) -> (r: Result<MqttString, MqttStringError>)
        ensures
            match r {
                Ok(s) => s@ == bytes@ && spec_valid_mqtt_utf8(bytes@),
                Err(e) => spec_check_mqtt_utf8(bytes@) == Some(e),
            },
    {
        match check_mqtt_utf8(bytes) {
            Some(e) => Err(e),
            None => Ok(MqttString { bytes: slice_to_vec(bytes) }),
        }
    }

    /// The string that holds the text `s`, where MQTT accepts it.
    pub fn from_str(s: &str) -> (r: Result<MqttString, MqttStringError>)
        ensures
            match r {
                Ok(m) => m@ == encode_utf8(s@) && spec_valid_mqtt_utf8(encode_utf8(s@)),
                Err(e) => spec_check_mqtt_utf8(encode_utf8(s@)) == Some(e),
            },
    {
        MqttString::from_bytes(s.as_bytes())
    }

    /// The bytes of the string.
    pub fn as_bytes(&self) -> (r: &[u8])
        ensures
            r@ == self@,
            spec_valid_mqtt_utf8(self@),
    {
        proof {
            use_type_invariant(self);
        }
        self.bytes.as_slice()
    }

    /// The text of the string.
    pub fn as_str(&self) -> (r: &str)
        ensures
            encode_utf8(r@) == self@,
    {
        proof {
            use_type_invariant(self);
        }
        match str_from_utf8(self.bytes.as_slice()) {
            Some(s) => s,
            None => "",
        }
    }

    /// The number of bytes of the string.
    pub fn len(&self) -> (n: usize)
        ensures
            n == self@.len(),
            n <= MAX_STRING_LENGTH,
            spec_valid_mqtt_utf8(self@),
    {
        proof {
            use_type_invariant(self);
        }
        self.bytes.len()
    }

    /// A copy of the string.
    pub fn duplicate(&self) -> (r: MqttString)
        ensures
            r@ == self@,
    {
        proof {
            use_type_invariant(self);
        }
        MqttString { bytes: slice_to_vec(self.bytes.as_slice()) }
    }

    /// Tells whether the two strings hold the same bytes.
    pub fn same(&self, other: &MqttString) -> (r: bool)
        ensures
            r == (self@ == other@),
    {
        bytes_equal(self.bytes.as_slice(), other.bytes.as_slice())
    }
}

impl Clone for MqttString {
    fn clone(&self) -> (r: MqttString)
        ensures
            r@ == self@,
    {
        self.duplicate()
    }
}

/// Tells whether two byte slices hold the same bytes.
pub fn bytes_equal(a: &[u8], b: &[u8]) -> (r: bool)
    ensures
        r == (a@ == b@),
{
    if a.len() != b.len() {
        return false;
    }
    let mut i: usize = 0;
    while i < a.len()
        invariant
            a@.len() == b@.len(),
            0 <= i <= a@.len(),
            forall|j: int| 0 <= j < i ==> a@[j] == b@[j],
        decreases a@.len() - i,
    {
        if a[i] != b[i] {
            return false;
        }
        i = i + 1;
    }
    assert(a@ =~= b@);
    true
}

/// Binary data of at most 65535 bytes. Its view is its bytes.
#[derive(Debug, PartialEq, Eq, Hash)]
pub struct MqttBytes {
    bytes: Vec<u8>,
}

impl View for MqttBytes {
    type V = Seq<u8>;

    closed spec fn view(&self) -> Seq<u8> {
        self.bytes@
    }
}

impl MqttBytes {
    #[verifier::type_invariant]
    closed spec fn inv(self) -> bool {
        self.bytes@.len() <= MAX_STRING_LENGTH
    }

    /// The binary data that holds `bytes`; nothing where they are more than 65535.
    pub fn from_bytes(bytes: &[u8]) -> (r: Option<MqttBytes>)
        ensures
            match r {
                Some(b) => b@ == bytes@ && bytes@.len() <= MAX_STRING_LENGTH,
                None => bytes@.len() > MAX_STRING_LENGTH,
            },
    {
        if bytes.len() > MAX_STRING_LENGTH {
            None
        } else {
            Some(MqttBytes { bytes: slice_to_vec(bytes) })
        }
    }

    /// The bytes.
    pub fn as_bytes(&self) -> (r: &[u8])
        ensures
            r@ == self@,
            self@.len() <= MAX_STRING_LENGTH,
    {
        proof {
            use_type_invariant(self);
        }
        self.bytes.as_slice()
    }

    /// The number of bytes.
    pub fn len(&self) -> (n: usize)
        ensures
            n == self@.len(),
            n <= MAX_STRING_LENGTH,
    {
        proof {
            use_type_invariant(self);
        }
        self.bytes.len()
    }

    /// A copy of the data.
    pub fn duplicate(&self) -> (r: MqttBytes)
        ensures
            r@ == self@,
    {
        proof {
            use_type_invariant(self);
        }
        MqttBytes { bytes: slice_to_vec(self.bytes.as_slice()) }
    }
}

impl Clone for MqttBytes {
    fn clone(&self) -> (r: MqttBytes)
        ensures
            r@ == self@,
    {
        self.duplicate()
    }
}

/// The wire form of binary data: its length in two bytes, then the bytes.
pub open spec fn spec_binary(data: Seq<u8>) -> Seq<u8>
    recommends
        data.len() <= MAX_STRING_LENGTH,
{
    spec_u16(data.len() as u16) + data
}

/// Decoding of binary data at the start of `s`: the bytes and how many
/// bytes of `s` they took with their length. `None` where `s` is too short.
#[verifier::opaque]
pub open spec fn spec_parse_binary(s: Seq<u8>) -> Option<(Seq<u8>, int)> {
    match spec_parse_u16(s) {
        Some((len, _)) => if s.len() < 2 + len {
            None
        } else {
            Some((s.subrange(2, 2 + len), 2 + len))
        },
        None => None,
    }
}

/// The wire form of a string: its length in two bytes, then its bytes.
pub open spec fn spec_string(text: Seq<u8>) -> Seq<u8>
    recommends
        spec_valid_mqtt_utf8(text),
{
    spec_binary(text)
}

/// Decoding of a string at the start of `s`. `None` where `s` is too short
/// or the bytes are not the content of an MQTT string.
#[verifier::opaque]
pub open spec fn spec_parse_string(s: Seq<u8>) -> Option<(Seq<u8>, int)> {
    match spec_parse_binary(s) {
        Some((text, n)) => if spec_valid_mqtt_utf8(text) {
            Some((text, n))
        } else {
            None
        },
        None => None,
    }
}

/// Appends the wire form of `data` to `buffer`.
pub fn write_binary(buffer: &mut Vec<u8>, data: &MqttBytes)
    ensures
        final(buffer)@ == old(buffer)@ + spec_binary(data@),
{
    let bytes = data.as_bytes();
    write_u16(buffer, bytes.len() as u16);
    buffer.extend_from_slice(bytes);
    assert(buffer@ =~= old(buffer)@ + spec_binary(data@));
}

/// Appends the wire form of `text` to `buffer`.
pub fn write_string(buffer: &mut Vec<u8>, text: &MqttString)
    ensures
        final(buffer)@ == old(buffer)@ + spec_string(text@),
{
    let bytes = text.as_bytes();
    write_u16(buffer, bytes.len() as u16);
    buffer.extend_from_slice(bytes);
    assert(buffer@ =~= old(buffer)@ + spec_string(text@));
}

/// Reads binary data from the start of `input`.
pub fn parse_binary(input: &[u8]) -> (r: Result<(MqttBytes, usize), ParseError>)
    ensures
        match r {
            Ok((data, n)) => {
                &&& spec_parse_binary(input@) == Some((data@, n as int))
                &&& n <= input@.len()
                &&& n == 2 + data@.len()
                &&& n == spec_binary(data@).len()
                &&& data@.len() <= MAX_STRING_LENGTH
            },
            Err(e) => spec_parse_binary(input@) is None && e == ParseError::Malformed,
        },
{
    proof {
        reveal(spec_parse_binary);
    }
    let (len, _) = parse_u16(input)?;
    let end: usize = 2 + len as usize;
    if input.len() < end {
        return Err(ParseError::Malformed);
    }
    match MqttBytes::from_bytes(slice_subrange(input, 2, end)) {
        Some(data) => Ok((data, end)),
        None => Err(ParseError::Malformed),
    }
}

/// Reads a string from the start of `input`.
pub fn parse_string(input: &[u8]) -> (r: Result<(MqttString, usize), ParseError>)
    ensures
        match r {
            Ok((text, n)) => {
                &&& spec_parse_string(input@) == Some((text@, n as int))
                &&& n <= input@.len()
                &&& n == 2 + text@.len()
                &&& n == spec_string(text@).len()
                &&& spec_valid_mqtt_utf8(text@)
            },
            Err(e) => spec_parse_string(input@) is None && e == ParseError::Malformed,
        },
{
    proof {
        reveal(spec_parse_string);
    }
    proof {
        reveal(spec_parse_binary);
    }
    let (len, _) = parse_u16(input)?;
    let end: usize = 2 + len as usize;
    if input.len() < end {
        return Err(ParseError::Malformed);
    }
    match MqttString::from_bytes(slice_subrange(input, 2, end)) {
        Ok(text) => Ok((text, end)),
        Err(_) => Err(ParseError::Malformed),
    }
}

/// The wire form of binary data, followed by anything, decodes to the data.
pub proof fn lemma_binary_write_then_parse(data: Seq<u8>, rest: Seq<u8>)
    requires
        data.len() <= MAX_STRING_LENGTH,
    ensures
        spec_parse_binary(spec_binary(data) + rest) == Some((data, 2 + data.len() as int)),
        spec_binary(data).len() == 2 + data.len(),
{
    reveal(spec_parse_binary);
    let s = spec_binary(data) + rest;
    lemma_u16_write_then_parse(data.len() as u16, data + rest);
    assert(s =~= spec_u16(data.len() as u16) + (data + rest));
    assert(s.subrange(2, 2 + data.len() as int) =~= data);
}

/// The wire form of a string, followed by anything, decodes to the string.
pub proof fn lemma_string_write_then_parse(text: Seq<u8>, rest: Seq<u8>)
    requires
        spec_valid_mqtt_utf8(text),
    ensures
        spec_parse_string(spec_string(text) + rest) == Some((text, 2 + text.len() as int)),
        spec_string(text).len() == 2 + text.len(),
{
    reveal(spec_parse_string);
    reveal(spec_parse_binary);
    lemma_binary_write_then_parse(text, rest);
}

} // verus!
