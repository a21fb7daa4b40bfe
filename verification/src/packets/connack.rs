//! The Connack packet, the server's answer to a Connect packet.

use vstd::prelude::*;
use vstd::slice::slice_subrange;

use crate::error::ParseError;
use crate::integers::VARIABLE_INTEGER_MAX;
use crate::properties::PropertyView;
use crate::property_id::PropertyScope;
use crate::property_set::Properties;
use crate::property_set::lemma_properties_write_then_parse;
use crate::property_set::spec_parse_properties;
use crate::property_set::spec_properties;
use crate::property_set::spec_properties_wf;
use crate::reason_code::ConnectReasonCode;

verus! {

/// The server's answer to a Connect packet.
#[derive(Debug, Clone, PartialEq, Eq)]
pub struct MConnack {
    pub session_present: bool,
    pub reason_code: ConnectReasonCode,
    pub properties: Properties,
}

/// A Connack packet as contracts see it.
pub struct MConnackView {
    pub session_present: bool,
    pub reason_code: ConnectReasonCode,
    pub properties: Seq<PropertyView>,
}

impl View for MConnack {
    type V = MConnackView;

    open spec fn view(&self) -> MConnackView {
        MConnackView {
            session_present: self.session_present,
            reason_code: self.reason_code,
            properties: self.properties@,
        }
    }
}

impl MConnackView {
    /// The body of the packet on the wire, after the fixed header: a byte
    /// of flags whose lowest bit says whether the server holds a session,
    /// the reason code, the properties.
    pub open spec fn body(self) -> Seq<u8> {
        seq![if self.session_present { 1u8 } else { 0u8 }, self.reason_code.spec_code()]
            + spec_properties(self.properties)
    }

    /// The packet can go on the wire: the properties are a set that the
    /// packet can carry, and the body is not longer than a fixed header
    /// can state.
    pub open spec fn wf(self) -> bool {
        &&& spec_properties_wf(PropertyScope::Connack, self.properties)
        &&& self.body().len() <= VARIABLE_INTEGER_MAX
    }
}

/// Decoding of the whole of `s` as the body of a Connack packet. The seven
/// high bits of the flags are reserved and must be 0.
/// A body of more bytes than a fixed header can state is rejected.
#[verifier::opaque]
pub open spec fn spec_parse_connack(s: Seq<u8>) -> Option<MConnackView> {
    if s.len() > VARIABLE_INTEGER_MAX {
        None
    } else {
        if s.len() < 2 || s[0] > 1 {
            None
        } else {
            match ConnectReasonCode::spec_from_code(s[1]) {
                Some(reason_code) => match spec_parse_properties(PropertyScope::Connack, s.skip(2)) {
                    Some((properties, n)) => if n == s.len() - 2 {
                        Some(MConnackView { session_present: s[0] == 1, reason_code, properties })
                    } else {
                        None
                    },
                    None => None,
                },
                None => None,
            }
        }
    }
}

impl MConnack {
    /// Reads the whole of `input` as the body of a Connack packet.
    ///
    /// Fails where a reserved flag is set, where the reason code is none
    /// of a Connack packet, where the properties are malformed, and where
    /// bytes follow the properties.
    pub fn parse(input: &[u8]) -> (r: Result<MConnack, ParseError>)
        ensures
            match r {
                Ok(p) => spec_parse_connack(input@) == Some(p@) && p@.wf() && p@.body().len()
                    == input@.len(),
                Err(e) => spec_parse_connack(input@) is None && e == ParseError::Malformed,
            },
    {
        proof {
            reveal(spec_parse_connack);
        }
        if input.len() > VARIABLE_INTEGER_MAX as usize {
            return Err(ParseError::Malformed);
        }
        if input.len() < 2 || input[0] > 1 {
            return Err(ParseError::Malformed);
        }
        let session_present = input[0] == 1;
        let reason_code = match ConnectReasonCode::from_code(input[1]) {
            Some(reason_code) => reason_code,
            None => {
                return Err(ParseError::Malformed);
            },
        };
        let (properties, n) = Properties::parse(
            PropertyScope::Connack,
            slice_subrange(input, 2, input.len()),
        )?;
        if n != input.len() - 2 {
            return Err(ParseError::Malformed);
        }
        Ok(MConnack { session_present, reason_code, properties })
    }

    /// Tells whether the packet can go on the wire.
    pub fn is_valid(&self) -> (r: bool)
        ensures
            r == self@.wf(),
    {
        self.properties.is_valid(PropertyScope::Connack) && self.properties.binary_size(
            PropertyScope::Connack,
        ) <= VARIABLE_INTEGER_MAX - 2
    }

    /// The number of bytes of the body of the packet.
    pub fn binary_size(&self) -> (n: u32)
        requires
            self@.wf(),
        ensures
            n == self@.body().len(),
    {
        2 + self.properties.binary_size(PropertyScope::Connack)
    }

    /// Appends the body of the packet to `buffer`.
    pub fn write(&self, buffer: &mut Vec<u8>)
        requires
            self@.wf(),
        ensures
            final(buffer)@ == old(buffer)@ + self@.body(),
    {
        buffer.push(if self.session_present { 1 } else { 0 });
        buffer.push(self.reason_code.code());
        self.properties.write(PropertyScope::Connack, buffer);
        assert(buffer@ =~= old(buffer)@ + self@.body());
    }
}

/// The body of a Connack packet decodes to the packet.
pub proof fn lemma_connack_write_then_parse(p: MConnackView)
    requires
        p.wf(),
    ensures
        spec_parse_connack(p.body()) == Some(p),
{
    reveal(spec_parse_connack);
    let s = p.body();
    assert(s[0] == if p.session_present { 1u8 } else { 0u8 });
    assert(s[1] == p.reason_code.spec_code());
    crate::reason_code::lemma_connect_reason_code_round_trip(p.reason_code, 0);
    assert(s.skip(2) =~= spec_properties(p.properties) + Seq::<u8>::empty());
    lemma_properties_write_then_parse(PropertyScope::Connack, p.properties, Seq::empty());
}

} // verus!
