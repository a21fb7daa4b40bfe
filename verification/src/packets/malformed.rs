//! What the codec rejects: the malformed forms of MQTT v5, each stated of
//! every input that has the form.

use vstd::prelude::*;

use crate::error::ParseError;
use crate::integers::spec_parse_variable_u32;
use crate::integers::spec_variable_u32_end;
use crate::integers::spec_variable_u32_incomplete;
use crate::packets::Frame;
use crate::packets::MqttPacketView;
use crate::packets::spec_frame;
use crate::packets::spec_parse_body;
use crate::packets::spec_parse_complete;
use crate::property_id::PropertyScope;
use crate::property_set::spec_parse_properties;
use crate::property_set::spec_parse_property_list;
use crate::property_set::spec_properties_allowed;
use crate::property_set::spec_properties_unique;
use crate::strings::spec_parse_binary;
use crate::strings::spec_parse_string;
use crate::strings::spec_valid_mqtt_utf8;

verus! {

/// A variable-length integer of more than one byte whose last byte is 0
/// is not in its shortest form, and is rejected.
pub proof fn lemma_variable_u32_not_minimal_is_rejected(s: Seq<u8>)
    requires
        spec_variable_u32_end(s) matches Some(n) && n > 1 && s[n - 1] == 0,
    ensures
        spec_parse_variable_u32(s) is None,
        !spec_variable_u32_incomplete(s),
{
    let n = spec_variable_u32_end(s).unwrap();
    assert(s[n - 1] < 128);
}

/// A variable-length integer that goes on after its fourth byte is rejected.
pub proof fn lemma_variable_u32_of_five_bytes_is_rejected(s: Seq<u8>)
    requires
        s.len() >= 4,
        s[0] >= 128 && s[1] >= 128 && s[2] >= 128 && s[3] >= 128,
    ensures
        spec_parse_variable_u32(s) is None,
        !spec_variable_u32_incomplete(s),
{
}

/// A packet whose length is a malformed variable-length integer is rejected.
pub proof fn lemma_malformed_length_is_rejected(s: Seq<u8>)
    requires
        s.len() >= 1,
        spec_parse_variable_u32(s.skip(1)) is None,
        !spec_variable_u32_incomplete(s.skip(1)),
    ensures
        spec_frame(s) == Frame::Malformed,
        spec_parse_complete(s) == Err::<MqttPacketView, ParseError>(ParseError::Malformed),
{
}

/// A string whose bytes are not well-formed UTF-8, or hold what MQTT
/// forbids in a string, is rejected.
pub proof fn lemma_invalid_text_is_rejected(s: Seq<u8>)
    requires
        spec_parse_binary(s) matches Some((text, _)) && !spec_valid_mqtt_utf8(text),
    ensures
        spec_parse_string(s) is None,
{
    reveal(spec_parse_string);
}

/// The flags that the first byte of a packet of the type with the number
/// `kind` must hold, but for a Publish packet, which has flags of its own:
/// 2 for Pubrel, Subscribe and Unsubscribe, and 0 for the rest.
pub open spec fn spec_reserved_flags(kind: u8) -> u8 {
    if kind == 6 || kind == 8 || kind == 10 {
        2
    } else {
        0
    }
}

/// A packet, other than a Publish packet, whose first byte holds other
/// flags than its type demands is rejected.
pub proof fn lemma_reserved_flags_are_rejected(header: u8, body: Seq<u8>)
    requires
        header / 16 != 3,
        header % 16 != spec_reserved_flags(header / 16),
    ensures
        spec_parse_body(header, body) is None,
{
}

/// Properties among which an identifier that may not repeat occurs twice
/// are rejected, and so are properties that their packet may not carry.
pub proof fn lemma_forbidden_properties_are_rejected(scope: PropertyScope, s: Seq<u8>)
    requires
        spec_parse_variable_u32(s) matches Some((len, n)) && s.len() >= n + len && (
        spec_parse_property_list(s.subrange(n, n + len)) matches Some(ps) && (
        !spec_properties_unique(ps) || !spec_properties_allowed(scope, ps))),
    ensures
        spec_parse_properties(scope, s) is None,
{
    reveal(spec_parse_properties);
}

/// A whole packet whose body is malformed for its first byte is rejected.
pub proof fn lemma_malformed_body_is_rejected(s: Seq<u8>)
    requires
        spec_frame(s) matches Frame::Packet { start, end } && s.len() == end && spec_parse_body(
            s[0],
            s.subrange(start, end),
        ) is None,
    ensures
        spec_parse_complete(s) == Err::<MqttPacketView, ParseError>(ParseError::Malformed),
{
}

/// Bytes after the end of a packet are rejected.
pub proof fn lemma_trailing_bytes_are_rejected(s: Seq<u8>)
    requires
        spec_frame(s) matches Frame::Packet { start, end } && s.len() > end,
    ensures
        spec_parse_complete(s) == Err::<MqttPacketView, ParseError>(ParseError::Malformed),
{
}

} // verus!
