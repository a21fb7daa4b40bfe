//! The Auth packet, a step of extended authentication.

use vstd::prelude::*;

use crate::error::ParseError;
use crate::integers::VARIABLE_INTEGER_MAX;
use crate::properties::PropertyView;
use crate::property_id::PropertyScope;
use crate::property_set::Properties;
use crate::property_set::spec_properties_wf;
use crate::reason_code::AuthReasonCode;
use crate::variable_header::lemma_reason_tail_write_then_parse;
use crate::variable_header::parse_reason_tail;
use crate::variable_header::spec_parse_reason_tail;
use crate::variable_header::spec_reason_tail;
use crate::variable_header::write_reason_tail;

verus! {

/// A step of extended authentication.
#[derive(Debug, Clone, PartialEq, Eq)]
pub struct MAuth {
    pub reason: AuthReasonCode,
    pub properties: Properties,
}

/// An Auth packet as contracts see it.
pub struct MAuthView {
    pub reason: AuthReasonCode,
    pub properties: Seq<PropertyView>,
}

impl View for MAuth {
    type V = MAuthView;

    open spec fn view(&self) -> MAuthView {
        MAuthView { reason: self.reason, properties: self.properties@ }
    }
}

impl MAuthView {
    /// The body of the packet on the wire, after the fixed header: the
    /// reason code, then the properties.
    pub open spec fn body(self) -> Seq<u8> {
        spec_reason_tail(self.reason.spec_code(), self.properties)
    }

    /// The packet can go on the wire: the properties are a set that the
    /// packet can carry, and the body is not longer than a fixed header
    /// can state.
    pub open spec fn wf(self) -> bool {
        &&& spec_properties_wf(PropertyScope::Auth, self.properties)
        &&& self.body().len() <= VARIABLE_INTEGER_MAX
    }
}

/// Decoding of the whole of `s` as the body of an Auth packet. An
/// empty body stands for the reason code 0 and no properties.
/// A body of more bytes than a fixed header can state is rejected.
#[verifier::opaque]
pub open spec fn spec_parse_auth(s: Seq<u8>) -> Option<MAuthView> {
    if s.len() > VARIABLE_INTEGER_MAX {
        None
    } else {
        match spec_parse_reason_tail(PropertyScope::Auth, s) {
            Some((code, properties)) => match AuthReasonCode::spec_from_code(code) {
                Some(reason) => Some(MAuthView { reason, properties }),
                None => None,
            },
            None => None,
        }
    }
}

impl MAuth {
    /// Reads the whole of `input` as the body of an Auth packet.
    pub fn parse(input: &[u8]) -> (r: Result<MAuth, ParseError>)
        ensures
            match r {
                Ok(p) => spec_parse_auth(input@) == Some(p@) && p@.wf(),
                Err(e) => spec_parse_auth(input@) is None && e == ParseError::Malformed,
            },
    {
        proof {
            reveal(spec_parse_auth);
        }
        if input.len() > VARIABLE_INTEGER_MAX as usize {
            return Err(ParseError::Malformed);
        }
        let (code, properties) = parse_reason_tail(PropertyScope::Auth, input)?;
        let reason = match AuthReasonCode::from_code(code) {
            Some(reason) => reason,
            None => {
                return Err(ParseError::Malformed);
            },
        };
        proof {
            crate::variable_header::lemma_no_properties_len();
        }
        Ok(MAuth { reason, properties })
    }

    /// Tells whether the packet can go on the wire.
    pub fn is_valid(&self) -> (r: bool)
        ensures
            r == self@.wf(),
    {
        self.properties.is_valid(PropertyScope::Auth) && self.properties.binary_size(
            PropertyScope::Auth,
        ) <= VARIABLE_INTEGER_MAX - 1
    }

    /// The number of bytes of the body of the packet.
    pub fn binary_size(&self) -> (n: u32)
        requires
            self@.wf(),
        ensures
            n == self@.body().len(),
    {
        1 + self.properties.binary_size(PropertyScope::Auth)
    }

    /// Appends the body of the packet to `buffer`.
    pub fn write(&self, buffer: &mut Vec<u8>)
        requires
            self@.wf(),
        ensures
            final(buffer)@ == old(buffer)@ + self@.body(),
    {
        write_reason_tail(self.reason.code(), &self.properties, PropertyScope::Auth, buffer);
    }
}

/// The body of an Auth packet decodes to the packet.
pub proof fn lemma_auth_write_then_parse(p: MAuthView)
    requires
        p.wf(),
    ensures
        spec_parse_auth(p.body()) == Some(p),
{
    reveal(spec_parse_auth);
    lemma_reason_tail_write_then_parse(PropertyScope::Auth, p.reason.spec_code(), p.properties);
}

} // verus!
