//! Properties: the typed values that most packets carry after their fixed
//! fields, each under an identifier, in a region that states its own length.

use vstd::prelude::*;
use vstd::slice::slice_subrange;

use crate::error::ParseError;
use crate::integers::VARIABLE_INTEGER_MAX;
use crate::integers::lemma_u16_write_then_parse;
use crate::integers::lemma_u32_write_then_parse;
use crate::integers::lemma_variable_u32_parse_then_write;
use crate::integers::lemma_variable_u32_write_then_parse;
use crate::integers::parse_u16;
use crate::integers::parse_u32;
use crate::integers::parse_variable_u32;
use crate::integers::spec_parse_u16;
use crate::integers::spec_parse_u32;
use crate::integers::spec_parse_variable_u32;
use crate::integers::spec_u16;
use crate::integers::spec_u32;
use crate::integers::spec_variable_u32;
use crate::integers::variable_u32_binary_size;
use crate::integers::write_u16;
use crate::integers::write_u32;
use crate::integers::write_variable_u32;
use crate::property_id::PropertyId;
use crate::property_id::PropertyKind;
use crate::strings::MAX_STRING_LENGTH;
use crate::strings::MqttBytes;
use crate::strings::MqttString;
use crate::strings::lemma_binary_write_then_parse;
use crate::strings::lemma_string_write_then_parse;
use crate::strings::parse_binary;
use crate::strings::parse_string;
use crate::strings::spec_binary;
use crate::strings::spec_parse_binary;
use crate::strings::spec_parse_string;
use crate::strings::spec_string;
use crate::strings::spec_valid_mqtt_utf8;
use crate::strings::write_binary;
use crate::strings::write_string;

verus! {

/// The value of a property.
#[derive(Debug, Clone, PartialEq, Eq)]
pub enum PropertyValue {
    Byte(u8),
    TwoByteInteger(u16),
    FourByteInteger(u32),
    VariableByteInteger(u32),
    Utf8String(MqttString),
    BinaryData(MqttBytes),
    Utf8StringPair(MqttString, MqttString),
}

/// The value of a property as contracts see it: strings and binary data
/// are their bytes.
pub enum PropertyValueView {
    Byte(u8),
    TwoByteInteger(u16),
    FourByteInteger(u32),
    VariableByteInteger(u32),
    Utf8String(Seq<u8>),
    BinaryData(Seq<u8>),
    Utf8StringPair(Seq<u8>, Seq<u8>),
}

impl View for PropertyValue {
    type V = PropertyValueView;

    open spec fn view(&self) -> PropertyValueView {
        match self {
            PropertyValue::Byte(v) => PropertyValueView::Byte(*v),
            PropertyValue::TwoByteInteger(v) => PropertyValueView::TwoByteInteger(*v),
            PropertyValue::FourByteInteger(v) => PropertyValueView::FourByteInteger(*v),
            PropertyValue::VariableByteInteger(v) => PropertyValueView::VariableByteInteger(*v),
            PropertyValue::Utf8String(s) => PropertyValueView::Utf8String(s@),
            PropertyValue::BinaryData(b) => PropertyValueView::BinaryData(b@),
            PropertyValue::Utf8StringPair(k, v) => PropertyValueView::Utf8StringPair(k@, v@),
        }
    }
}

impl PropertyValueView {
    /// The type of the value.
    pub open spec fn kind(self) -> PropertyKind {
        match self {
            PropertyValueView::Byte(_) => PropertyKind::Byte,
            PropertyValueView::TwoByteInteger(_) => PropertyKind::TwoByteInteger,
            PropertyValueView::FourByteInteger(_) => PropertyKind::FourByteInteger,
            PropertyValueView::VariableByteInteger(_) => PropertyKind::VariableByteInteger,
            PropertyValueView::Utf8String(_) => PropertyKind::Utf8String,
            PropertyValueView::BinaryData(_) => PropertyKind::BinaryData,
            PropertyValueView::Utf8StringPair(_, _) => PropertyKind::Utf8StringPair,
        }
    }

    /// The value can be encoded: a variable-length integer is in range,
    /// strings are MQTT strings, binary data is at most 65535 bytes.
    pub open spec fn wf(self) -> bool {
        match self {
            PropertyValueView::VariableByteInteger(v) => v <= VARIABLE_INTEGER_MAX,
            PropertyValueView::Utf8String(s) => spec_valid_mqtt_utf8(s),
            PropertyValueView::BinaryData(b) => b.len() <= MAX_STRING_LENGTH,
            PropertyValueView::Utf8StringPair(k, v) => spec_valid_mqtt_utf8(k)
                && spec_valid_mqtt_utf8(v),
            _ => true,
        }
    }

    /// The wire form of the value.
    pub open spec fn wire(self) -> Seq<u8> {
        match self {
            PropertyValueView::Byte(v) => seq![v],
            PropertyValueView::TwoByteInteger(v) => spec_u16(v),
            PropertyValueView::FourByteInteger(v) => spec_u32(v),
            PropertyValueView::VariableByteInteger(v) => spec_variable_u32(v),
            PropertyValueView::Utf8String(s) => spec_string(s),
            PropertyValueView::BinaryData(b) => spec_binary(b),
            PropertyValueView::Utf8StringPair(k, v) => spec_string(k) + spec_string(v),
        }
    }
}

/// Decoding of a value of type `kind` at the start of `s`.
pub open spec fn spec_parse_property_value(kind: PropertyKind, s: Seq<u8>) -> Option<
    (PropertyValueView, int),
> {
    match kind {
        PropertyKind::Byte => if s.len() < 1 {
            None
        } else {
            Some((PropertyValueView::Byte(s[0]), 1))
        },
        PropertyKind::TwoByteInteger => match spec_parse_u16(s) {
            Some((v, n)) => Some((PropertyValueView::TwoByteInteger(v), n)),
            None => None,
        },
        PropertyKind::FourByteInteger => match spec_parse_u32(s) {
            Some((v, n)) => Some((PropertyValueView::FourByteInteger(v), n)),
            None => None,
        },
        PropertyKind::VariableByteInteger => match spec_parse_variable_u32(s) {
            Some((v, n)) => Some((PropertyValueView::VariableByteInteger(v), n)),
            None => None,
        },
        PropertyKind::Utf8String => match spec_parse_string(s) {
            Some((v, n)) => Some((PropertyValueView::Utf8String(v), n)),
            None => None,
        },
        PropertyKind::BinaryData => match spec_parse_binary(s) {
            Some((v, n)) => Some((PropertyValueView::BinaryData(v), n)),
            None => None,
        },
        PropertyKind::Utf8StringPair => match spec_parse_string(s) {
            Some((k, n)) => match spec_parse_string(s.skip(n)) {
                Some((v, m)) => Some((PropertyValueView::Utf8StringPair(k, v), n + m)),
                None => None,
            },
            None => None,
        },
    }
}

impl PropertyValue {
    /// Reads a value of type `kind` from the start of `input`.
    pub fn parse(kind: PropertyKind, input: &[u8]) -> (r: Result<(PropertyValue, usize), ParseError>)
        ensures
            match r {
                Ok((v, n)) => {
                    &&& spec_parse_property_value(kind, input@) == Some((v@, n as int))
                    &&& v@.wf()
                    &&& v@.kind() == kind
                    &&& n == v@.wire().len()
                    &&& 1 <= n <= input@.len()
                },
                Err(e) => spec_parse_property_value(kind, input@) is None && e
                    == ParseError::Malformed,
            },
    {
        match kind {
            PropertyKind::Byte => {
                if input.len() < 1 {
                    return Err(ParseError::Malformed);
                }
                Ok((PropertyValue::Byte(input[0]), 1))
            },
            PropertyKind::TwoByteInteger => {
                let (v, n) = parse_u16(input)?;
                Ok((PropertyValue::TwoByteInteger(v), n))
            },
            PropertyKind::FourByteInteger => {
                let (v, n) = parse_u32(input)?;
                Ok((PropertyValue::FourByteInteger(v), n))
            },
            PropertyKind::VariableByteInteger => {
                match parse_variable_u32(input) {
                    Ok((v, n)) => {
                        proof {
                            lemma_variable_u32_parse_then_write(input@);
                        }
                        Ok((PropertyValue::VariableByteInteger(v), n))
                    },
                    Err(_) => Err(ParseError::Malformed),
                }
            },
            PropertyKind::Utf8String => {
                let (v, n) = parse_string(input)?;
                Ok((PropertyValue::Utf8String(v), n))
            },
            PropertyKind::BinaryData => {
                let (v, n) = parse_binary(input)?;
                Ok((PropertyValue::BinaryData(v), n))
            },
            PropertyKind::Utf8StringPair => {
                let (k, n) = parse_string(input)?;
                let (v, m) = parse_string(slice_subrange(input, n, input.len()))?;
                Ok((PropertyValue::Utf8StringPair(k, v), n + m))
            },
        }
    }

    /// Tells whether the value can be encoded. Only a variable-length
    /// integer can be out of range: strings and binary data are held to
    /// their limits when they are made.
    pub fn is_valid(&self) -> (r: bool)
        ensures
            r == self@.wf(),
    {
        match self {
            PropertyValue::VariableByteInteger(v) => *v <= VARIABLE_INTEGER_MAX,
            PropertyValue::Utf8String(s) => {
                let _ = s.len();
                true
            },
            PropertyValue::BinaryData(b) => {
                let _ = b.len();
                true
            },
            PropertyValue::Utf8StringPair(k, v) => {
                let _ = k.len();
                let _ = v.len();
                true
            },
            _ => true,
        }
    }

    /// The number of bytes of the value's wire form.
    pub fn binary_size(&self) -> (n: u32)
        requires
            self@.wf(),
        ensures
            n == self@.wire().len(),
            n <= 2 * (MAX_STRING_LENGTH + 2),
    {
        match self {
            PropertyValue::Byte(_) => 1,
            PropertyValue::TwoByteInteger(_) => 2,
            PropertyValue::FourByteInteger(_) => 4,
            PropertyValue::VariableByteInteger(v) => variable_u32_binary_size(*v),
            PropertyValue::Utf8String(s) => 2 + s.len() as u32,
            PropertyValue::BinaryData(b) => 2 + b.len() as u32,
            PropertyValue::Utf8StringPair(k, v) => 2 + k.len() as u32 + 2 + v.len() as u32,
        }
    }

    /// Appends the wire form of the value to `buffer`.
    pub fn write(&self, buffer: &mut Vec<u8>)
        requires
            self@.wf(),
        ensures
            final(buffer)@ == old(buffer)@ + self@.wire(),
    {
        match self {
            PropertyValue::Byte(v) => {
                buffer.push(*v);
                assert(buffer@ =~= old(buffer)@ + self@.wire());
            },
            PropertyValue::TwoByteInteger(v) => write_u16(buffer, *v),
            PropertyValue::FourByteInteger(v) => write_u32(buffer, *v),
            PropertyValue::VariableByteInteger(v) => write_variable_u32(buffer, *v),
            PropertyValue::Utf8String(s) => write_string(buffer, s),
            PropertyValue::BinaryData(b) => write_binary(buffer, b),
            PropertyValue::Utf8StringPair(k, v) => {
                write_string(buffer, k);
                write_string(buffer, v);
                assert(buffer@ =~= old(buffer)@ + self@.wire());
            },
        }
    }

    /// A copy of the value.
    pub fn duplicate(&self) -> (r: PropertyValue)
        ensures
            r@ == self@,
    {
        match self {
            PropertyValue::Byte(v) => PropertyValue::Byte(*v),
            PropertyValue::TwoByteInteger(v) => PropertyValue::TwoByteInteger(*v),
            PropertyValue::FourByteInteger(v) => PropertyValue::FourByteInteger(*v),
            PropertyValue::VariableByteInteger(v) => PropertyValue::VariableByteInteger(*v),
            PropertyValue::Utf8String(s) => PropertyValue::Utf8String(s.duplicate()),
            PropertyValue::BinaryData(b) => PropertyValue::BinaryData(b.duplicate()),
            PropertyValue::Utf8StringPair(k, v) => PropertyValue::Utf8StringPair(
                k.duplicate(),
                v.duplicate(),
            ),
        }
    }
}

/// The wire form of a value, followed by anything, decodes to the value.
pub proof fn lemma_property_value_write_then_parse(v: PropertyValueView, rest: Seq<u8>)
    requires
        v.wf(),
    ensures
        spec_parse_property_value(v.kind(), v.wire() + rest) == Some((v, v.wire().len() as int)),
        v.wire().len() >= 1,
{
    match v {
        PropertyValueView::Byte(b) => {
            assert((v.wire() + rest)[0] == b);
        },
        PropertyValueView::TwoByteInteger(x) => lemma_u16_write_then_parse(x, rest),
        PropertyValueView::FourByteInteger(x) => lemma_u32_write_then_parse(x, rest),
        PropertyValueView::VariableByteInteger(x) => lemma_variable_u32_write_then_parse(x, rest),
        PropertyValueView::Utf8String(s) => lemma_string_write_then_parse(s, rest),
        PropertyValueView::BinaryData(b) => lemma_binary_write_then_parse(b, rest),
        PropertyValueView::Utf8StringPair(k, x) => {
            let s = v.wire() + rest;
            assert(s =~= spec_string(k) + (spec_string(x) + rest));
            lemma_string_write_then_parse(k, spec_string(x) + rest);
            assert(s.skip(spec_string(k).len() as int) =~= spec_string(x) + rest);
            lemma_string_write_then_parse(x, rest);
        },
    }
}

/// A property: an identifier and its value.
#[derive(Debug, Clone, PartialEq, Eq)]
pub struct Property {
    pub id: PropertyId,
    pub value: PropertyValue,
}

/// A property as contracts see it.
pub struct PropertyView {
    pub id: PropertyId,
    pub value: PropertyValueView,
}

impl View for Property {
    type V = PropertyView;

    open spec fn view(&self) -> PropertyView {
        PropertyView { id: self.id, value: self.value@ }
    }
}

/// `value` is one that the property `id` can have: a flag is 0 or 1, and
/// the receive maximum, a topic alias, the maximum packet size and a
/// subscription identifier are not 0.
pub open spec fn spec_value_in_range(id: PropertyId, value: PropertyValueView) -> bool {
    match value {
        PropertyValueView::Byte(v) => v <= 1,
        PropertyValueView::TwoByteInteger(v) => (id == PropertyId::ReceiveMaximum || id
            == PropertyId::TopicAlias) ==> v != 0,
        PropertyValueView::FourByteInteger(v) => id == PropertyId::MaximumPacketSize ==> v != 0,
        PropertyValueView::VariableByteInteger(v) => v != 0,
        _ => true,
    }
}

impl PropertyView {
    /// The property can be encoded and decoded again: the value has the
    /// type that goes with the identifier and is one that the property can have.
    pub open spec fn wf(self) -> bool {
        &&& self.value.wf()
        &&& self.value.kind() == self.id.spec_kind()
        &&& spec_value_in_range(self.id, self.value)
    }

    /// The wire form of the property: the byte of the identifier, then the value.
    pub open spec fn wire(self) -> Seq<u8> {
        seq![self.id.spec_code()] + self.value.wire()
    }
}

/// Decoding of a property at the start of `s`. An identifier is a
/// variable-length integer, and each one that exists is below 128: one byte.
pub open spec fn spec_parse_property(s: Seq<u8>) -> Option<(PropertyView, int)> {
    if s.len() < 1 {
        None
    } else {
        match PropertyId::spec_from_code(s[0]) {
            Some(id) => match spec_parse_property_value(id.spec_kind(), s.skip(1)) {
                Some((value, n)) => if spec_value_in_range(id, value) {
                    Some((PropertyView { id, value }, 1 + n))
                } else {
                    None
                },
                None => None,
            },
            None => None,
        }
    }
}

/// Tells whether `value` is one that the property `id` can have.
fn value_in_range(id: PropertyId, value: &PropertyValue) -> (r: bool)
    ensures
        r == spec_value_in_range(id, value@),
{
    match value {
        PropertyValue::Byte(v) => *v <= 1,
        PropertyValue::TwoByteInteger(v) => match id {
            PropertyId::ReceiveMaximum | PropertyId::TopicAlias => *v != 0,
            _ => true,
        },
        PropertyValue::FourByteInteger(v) => match id {
            PropertyId::MaximumPacketSize => *v != 0,
            _ => true,
        },
        PropertyValue::VariableByteInteger(v) => *v != 0,
        _ => true,
    }
}

/// Tells whether the type of `value` is `kind`.
fn value_has_kind(value: &PropertyValue, kind: PropertyKind) -> (r: bool)
    ensures
        r == (value@.kind() == kind),
{
    match (value, kind) {
        (PropertyValue::Byte(_), PropertyKind::Byte) => true,
        (PropertyValue::TwoByteInteger(_), PropertyKind::TwoByteInteger) => true,
        (PropertyValue::FourByteInteger(_), PropertyKind::FourByteInteger) => true,
        (PropertyValue::VariableByteInteger(_), PropertyKind::VariableByteInteger) => true,
        (PropertyValue::Utf8String(_), PropertyKind::Utf8String) => true,
        (PropertyValue::BinaryData(_), PropertyKind::BinaryData) => true,
        (PropertyValue::Utf8StringPair(_, _), PropertyKind::Utf8StringPair) => true,
        _ => false,
    }
}

impl Property {
    /// Reads a property from the start of `input`.
    pub fn parse(input: &[u8]) -> (r: Result<(Property, usize), ParseError>)
        ensures
            match r {
                Ok((p, n)) => {
                    &&& spec_parse_property(input@) == Some((p@, n as int))
                    &&& p@.wf()
                    &&& n == p@.wire().len()
                    &&& 2 <= n <= input@.len()
                },
                Err(e) => spec_parse_property(input@) is None && e == ParseError::Malformed,
            },
    {
        if input.len() < 1 {
            return Err(ParseError::Malformed);
        }
        let id = match PropertyId::from_code(input[0]) {
            Some(id) => id,
            None => {
                return Err(ParseError::Malformed);
            },
        };
        let (value, n) = PropertyValue::parse(id.kind(), slice_subrange(input, 1, input.len()))?;
        if !value_in_range(id, &value) {
            return Err(ParseError::Malformed);
        }
        Ok((Property { id, value }, 1 + n))
    }

    /// Tells whether the property can be encoded and decoded again.
    pub fn is_valid(&self) -> (r: bool)
        ensures
            r == self@.wf(),
    {
        self.value.is_valid() && value_has_kind(&self.value, self.id.kind()) && value_in_range(
            self.id,
            &self.value,
        )
    }

    /// The number of bytes of the property's wire form.
    pub fn binary_size(&self) -> (n: u32)
        requires
            self@.wf(),
        ensures
            n == self@.wire().len(),
            2 <= n <= 1 + 2 * (MAX_STRING_LENGTH + 2),
    {
        1 + self.value.binary_size()
    }

    /// Appends the wire form of the property to `buffer`.
    pub fn write(&self, buffer: &mut Vec<u8>)
        requires
            self@.wf(),
        ensures
            final(buffer)@ == old(buffer)@ + self@.wire(),
    {
        buffer.push(self.id.code());
        self.value.write(buffer);
        assert(buffer@ =~= old(buffer)@ + self@.wire());
    }

    /// A copy of the property.
    pub fn duplicate(&self) -> (r: Property)
        ensures
            r@ == self@,
    {
        Property { id: self.id, value: self.value.duplicate() }
    }
}

/// The wire form of a property, followed by anything, decodes to the property.
pub proof fn lemma_property_write_then_parse(p: PropertyView, rest: Seq<u8>)
    requires
        p.wf(),
    ensures
        spec_parse_property(p.wire() + rest) == Some((p, p.wire().len() as int)),
        p.wire().len() >= 2,
{
    let s = p.wire() + rest;
    assert(s[0] == p.id.spec_code());
    assert(s.skip(1) =~= p.value.wire() + rest);
    lemma_property_value_write_then_parse(p.value, rest);
}

} // verus!
