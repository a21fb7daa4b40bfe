//! The Puback packet, which acknowledges a publish of quality of service 1.

use vstd::prelude::*;
use vstd::slice::slice_subrange;

use crate::error::ParseError;
use crate::integers::VARIABLE_INTEGER_MAX;
use crate::integers::spec_u16;
use crate::properties::PropertyView;
use crate::property_id::PropertyScope;
use crate::property_set::Properties;
use crate::property_set::spec_properties_wf;
use crate::reason_code::PubackReasonCode;
use crate::variable_header::PacketIdentifier;
use crate::variable_header::lemma_packet_identifier_write_then_parse;
use crate::variable_header::lemma_reason_tail_write_then_parse;
use crate::variable_header::parse_reason_tail;
use crate::variable_header::spec_parse_packet_identifier;
use crate::variable_header::spec_parse_reason_tail;
use crate::variable_header::spec_reason_tail;
use crate::variable_header::write_reason_tail;

verus! {

/// The acknowledgement of a publish of quality of service 1.
#[derive(Debug, Clone, PartialEq, Eq)]
pub struct MPuback {
    pub packet_identifier: PacketIdentifier,
    pub reason: PubackReasonCode,
    pub properties: Properties,
}

/// A Puback packet as contracts see it.
pub struct MPubackView {
    pub packet_identifier: u16,
    pub reason: PubackReasonCode,
    pub properties: Seq<PropertyView>,
}

impl View for MPuback {
    type V = MPubackView;

    open spec fn view(&self) -> MPubackView {
        MPubackView {
            packet_identifier: self.packet_identifier@,
            reason: self.reason,
            properties: self.properties@,
        }
    }
}

impl MPubackView {
    /// The body of the packet on the wire, after the fixed header: the
    /// packet identifier, the reason code, the properties.
    pub open spec fn body(self) -> Seq<u8> {
        spec_u16(self.packet_identifier) + spec_reason_tail(
            self.reason.spec_code(),
            self.properties,
        )
    }

    /// The packet can go on the wire: the identifier is not 0, the
    /// properties are a set that the packet can carry, and the body is not
    /// longer than a fixed header can state.
    pub open spec fn wf(self) -> bool {
        &&& self.packet_identifier != 0
        &&& spec_properties_wf(PropertyScope::Puback, self.properties)
        &&& self.body().len() <= VARIABLE_INTEGER_MAX
    }
}

/// Decoding of the whole of `s` as the body of a Puback packet.
/// A body of more bytes than a fixed header can state is rejected.
#[verifier::opaque]
pub open spec fn spec_parse_puback(s: Seq<u8>) -> Option<MPubackView> {
    if s.len() > VARIABLE_INTEGER_MAX {
        None
    } else {
        match spec_parse_packet_identifier(s) {
            Some((packet_identifier, n)) => match spec_parse_reason_tail(
                PropertyScope::Puback,
                s.skip(n),
            ) {
                Some((code, properties)) => match PubackReasonCode::spec_from_code(code) {
                    Some(reason) => Some(MPubackView { packet_identifier, reason, properties }),
                    None => None,
                },
                None => None,
            },
            None => None,
        }
    }
}

impl MPuback {
    /// Reads the whole of `input` as the body of a Puback packet.
    pub fn parse(input: &[u8]) -> (r: Result<MPuback, ParseError>)
        ensures
            match r {
                Ok(p) => spec_parse_puback(input@) == Some(p@) && p@.wf(),
                Err(e) => spec_parse_puback(input@) is None && e == ParseError::Malformed,
            },
    {
        proof {
            reveal(spec_parse_puback);
        }
        if input.len() > VARIABLE_INTEGER_MAX as usize {
            return Err(ParseError::Malformed);
        }
        let (packet_identifier, n) = PacketIdentifier::parse(input)?;
        let (code, properties) = parse_reason_tail(
            PropertyScope::Puback,
            slice_subrange(input, n, input.len()),
        )?;
        let reason = match PubackReasonCode::from_code(code) {
            Some(reason) => reason,
            None => {
                return Err(ParseError::Malformed);
            },
        };
        let p = MPuback { packet_identifier, reason, properties };
        proof {
            crate::variable_header::lemma_no_properties_len();
        }
        Ok(p)
    }

    /// Tells whether the packet can go on the wire.
    pub fn is_valid(&self) -> (r: bool)
        ensures
            r == self@.wf(),
    {
        let _ = self.packet_identifier.get();
        self.properties.is_valid(PropertyScope::Puback) && self.properties.binary_size(
            PropertyScope::Puback,
        ) <= VARIABLE_INTEGER_MAX - 3
    }

    /// The number of bytes of the body of the packet.
    pub fn binary_size(&self) -> (n: u32)
        requires
            self@.wf(),
        ensures
            n == self@.body().len(),
    {
        self.packet_identifier.binary_size() + 1 + self.properties.binary_size(
            PropertyScope::Puback,
        )
    }

    /// Appends the body of the packet to `buffer`.
    pub fn write(&self, buffer: &mut Vec<u8>)
        requires
            self@.wf(),
        ensures
            final(buffer)@ == old(buffer)@ + self@.body(),
    {
        self.packet_identifier.write(buffer);
        write_reason_tail(self.reason.code(), &self.properties, PropertyScope::Puback, buffer);
        assert(buffer@ =~= old(buffer)@ + self@.body());
    }

    /// A copy of the packet.
    pub fn duplicate(&self) -> (r: MPuback)
        ensures
            r@ == self@,
    {
        MPuback {
            packet_identifier: self.packet_identifier,
            reason: self.reason,
            properties: self.properties.duplicate(),
        }
    }
}

/// The body of a Puback packet decodes to the packet.
pub proof fn lemma_puback_write_then_parse(p: MPubackView)
    requires
        p.wf(),
    ensures
        spec_parse_puback(p.body()) == Some(p),
{
    reveal(spec_parse_puback);
    let tail = spec_reason_tail(p.reason.spec_code(), p.properties);
    lemma_packet_identifier_write_then_parse(p.packet_identifier, tail);
    assert(p.body().skip(2) =~= tail);
    lemma_reason_tail_write_then_parse(PropertyScope::Puback, p.reason.spec_code(), p.properties);
}

} // verus!
