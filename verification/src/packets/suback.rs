//! The Suback packet, the answer to a Subscribe packet.

use vstd::prelude::*;
use vstd::slice::slice_subrange;

use crate::error::ParseError;
use crate::integers::VARIABLE_INTEGER_MAX;
use crate::integers::spec_u16;
use crate::properties::PropertyView;
use crate::property_id::PropertyScope;
use crate::property_set::Properties;
use crate::property_set::lemma_properties_write_then_parse;
use crate::property_set::spec_parse_properties;
use crate::property_set::spec_properties;
use crate::property_set::spec_properties_wf;
use crate::reason_code::SubackReasonCode;
use crate::variable_header::PacketIdentifier;
use crate::variable_header::lemma_packet_identifier_write_then_parse;
use crate::variable_header::spec_parse_packet_identifier;

verus! {

/// The answer to a Subscribe packet: a reason code for each subscription of
/// the request, in the order of the request.
#[derive(Debug, Clone, PartialEq, Eq)]
pub struct MSuback {
    pub packet_identifier: PacketIdentifier,
    pub properties: Properties,
    pub reasons: Vec<SubackReasonCode>,
}

/// A Suback packet as contracts see it.
pub struct MSubackView {
    pub packet_identifier: u16,
    pub properties: Seq<PropertyView>,
    pub reasons: Seq<SubackReasonCode>,
}

impl View for MSuback {
    type V = MSubackView;

    open spec fn view(&self) -> MSubackView {
        MSubackView {
            packet_identifier: self.packet_identifier@,
            properties: self.properties@,
            reasons: self.reasons@,
        }
    }
}

/// The bytes of the reason codes `reasons`.
pub open spec fn spec_suback_reasons(reasons: Seq<SubackReasonCode>) -> Seq<u8> {
    reasons.map_values(|r: SubackReasonCode| r.spec_code())
}

/// Decoding of the whole of `s` as reason codes, a byte each.
pub open spec fn spec_parse_suback_reasons(s: Seq<u8>) -> Option<Seq<SubackReasonCode>> {
    if forall|i: int| 0 <= i < s.len() ==> SubackReasonCode::spec_from_code(#[trigger] s[i]) is Some {
        Some(s.map_values(|b: u8| SubackReasonCode::spec_from_code(b).unwrap()))
    } else {
        None
    }
}

impl MSubackView {
    /// The body of the packet on the wire, after the fixed header: the
    /// packet identifier, the properties, the reason codes.
    pub open spec fn body(self) -> Seq<u8> {
        spec_u16(self.packet_identifier) + spec_properties(self.properties) + spec_suback_reasons(
            self.reasons,
        )
    }

    /// The packet can go on the wire: the identifier is not 0, the
    /// properties are a set that the packet can carry, and the body is not
    /// longer than a fixed header can state.
    pub open spec fn wf(self) -> bool {
        &&& self.packet_identifier != 0
        &&& spec_properties_wf(PropertyScope::Suback, self.properties)
        &&& self.body().len() <= VARIABLE_INTEGER_MAX
    }
}

/// Decoding of the whole of `s` as the body of a Suback packet.
/// A body of more bytes than a fixed header can state is rejected.
#[verifier::opaque]
pub open spec fn spec_parse_suback(s: Seq<u8>) -> Option<MSubackView> {
    if s.len() > VARIABLE_INTEGER_MAX {
        None
    } else {
        match spec_parse_packet_identifier(s) {
            Some((packet_identifier, n)) => match spec_parse_properties(
                PropertyScope::Suback,
                s.skip(n),
            ) {
                Some((properties, m)) => match spec_parse_suback_reasons(s.skip(n + m)) {
                    Some(reasons) => Some(MSubackView { packet_identifier, properties, reasons }),
                    None => None,
                },
                None => None,
            },
            None => None,
        }
    }
}

impl MSuback {
    /// Reads the whole of `input` as reason codes.
    fn parse_reasons(input: &[u8]) -> (r: Result<Vec<SubackReasonCode>, ParseError>)
        ensures
            match r {
                Ok(reasons) => spec_parse_suback_reasons(input@) == Some(reasons@) && reasons@.len()
                    == input@.len(),
                Err(e) => spec_parse_suback_reasons(input@) is None && e == ParseError::Malformed,
            },
    {
        let mut reasons: Vec<SubackReasonCode> = Vec::new();
        let mut i: usize = 0;
        while i < input.len()
            invariant
                0 <= i <= input@.len(),
                reasons@.len() == i,
                forall|j: int|
                    0 <= j < i ==> SubackReasonCode::spec_from_code(#[trigger] input@[j]) == Some(
                        reasons@[j],
                    ),
            decreases input@.len() - i,
        {
            match SubackReasonCode::from_code(input[i]) {
                Some(reason) => reasons.push(reason),
                None => {
                    return Err(ParseError::Malformed);
                },
            }
            i = i + 1;
        }
        assert(reasons@ =~= input@.map_values(
            |b: u8| SubackReasonCode::spec_from_code(b).unwrap(),
        ));
        Ok(reasons)
    }

    /// Reads the whole of `input` as the body of a Suback packet.
    ///
    /// Fails where the packet identifier is 0, where the properties are
    /// malformed, and where a byte of the payload is no reason code of
    /// this packet.
    pub fn parse(input: &[u8]) -> (r: Result<MSuback, ParseError>)
        ensures
            match r {
                Ok(p) => spec_parse_suback(input@) == Some(p@) && p@.wf() && p@.body().len()
                    == input@.len(),
                Err(e) => spec_parse_suback(input@) is None && e == ParseError::Malformed,
            },
    {
        proof {
            reveal(spec_parse_suback);
        }
        if input.len() > VARIABLE_INTEGER_MAX as usize {
            return Err(ParseError::Malformed);
        }
        let (packet_identifier, n) = PacketIdentifier::parse(input)?;
        let (properties, m) = Properties::parse(
            PropertyScope::Suback,
            slice_subrange(input, n, input.len()),
        )?;
        let reasons = MSuback::parse_reasons(slice_subrange(input, n + m, input.len()))?;
        assert(input@.skip(n as int).skip(m as int) =~= input@.skip(n + m));
        Ok(MSuback { packet_identifier, properties, reasons })
    }

    /// Tells whether the packet can go on the wire.
    pub fn is_valid(&self) -> (r: bool)
        ensures
            r == self@.wf(),
    {
        let _ = self.packet_identifier.get();
        if !self.properties.is_valid(PropertyScope::Suback) {
            return false;
        }
        let fixed: u32 = 2 + self.properties.binary_size(PropertyScope::Suback);
        fixed <= VARIABLE_INTEGER_MAX && self.reasons.len() <= (VARIABLE_INTEGER_MAX
            - fixed) as usize
    }

    /// The number of bytes of the body of the packet.
    pub fn binary_size(&self) -> (n: u32)
        requires
            self@.wf(),
        ensures
            n == self@.body().len(),
    {
        self.packet_identifier.binary_size() + self.reasons.len() as u32
            + self.properties.binary_size(PropertyScope::Suback)
    }

    /// Appends the body of the packet to `buffer`.
    pub fn write(&self, buffer: &mut Vec<u8>)
        requires
            self@.wf(),
        ensures
            final(buffer)@ == old(buffer)@ + self@.body(),
    {
        self.packet_identifier.write(buffer);
        self.properties.write(PropertyScope::Suback, buffer);
        let ghost start = buffer@;
        let mut i: usize = 0;
        while i < self.reasons.len()
            invariant
                0 <= i <= self.reasons@.len(),
                buffer@ == start + spec_suback_reasons(self.reasons@.take(i as int)),
            decreases self.reasons@.len() - i,
        {
            buffer.push(self.reasons[i].code());
            assert(buffer@ =~= start + spec_suback_reasons(self.reasons@.take(i + 1)));
            i = i + 1;
        }
        assert(self.reasons@.take(i as int) =~= self.reasons@);
        assert(buffer@ =~= old(buffer)@ + self@.body());
    }
}

/// The body of a Suback packet decodes to the packet.
pub proof fn lemma_suback_write_then_parse(p: MSubackView)
    requires
        p.wf(),
    ensures
        spec_parse_suback(p.body()) == Some(p),
{
    reveal(spec_parse_suback);
    let codes = spec_suback_reasons(p.reasons);
    let props = spec_properties(p.properties);
    let s = p.body();
    assert(s =~= spec_u16(p.packet_identifier) + (props + codes));
    lemma_packet_identifier_write_then_parse(p.packet_identifier, props + codes);
    assert(s.skip(2) =~= props + codes);
    lemma_properties_write_then_parse(PropertyScope::Suback, p.properties, codes);
    assert(s.skip(2 + props.len() as int) =~= codes);
    assert forall|i: int| 0 <= i < codes.len() implies SubackReasonCode::spec_from_code(
        #[trigger] codes[i],
    ) == Some(p.reasons[i]) by {
        crate::reason_code::lemma_suback_reason_code_round_trip(p.reasons[i], 0);
    }
    assert(codes.map_values(|b: u8| SubackReasonCode::spec_from_code(b).unwrap()) =~= p.reasons);
}

} // verus!
