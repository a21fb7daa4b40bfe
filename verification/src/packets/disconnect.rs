//! The Disconnect packet, which ends a connection.

use vstd::prelude::*;

use crate::error::ParseError;
use crate::integers::VARIABLE_INTEGER_MAX;
use crate::properties::PropertyView;
use crate::property_id::PropertyScope;
use crate::property_set::Properties;
use crate::property_set::spec_properties_wf;
use crate::reason_code::DisconnectReasonCode;
use crate::variable_header::lemma_reason_tail_write_then_parse;
use crate::variable_header::parse_reason_tail;
use crate::variable_header::spec_parse_reason_tail;
use crate::variable_header::spec_reason_tail;
use crate::variable_header::write_reason_tail;

verus! {

/// The last packet of a connection, which says why it ends.
#[derive(Debug, Clone, PartialEq, Eq)]
pub struct MDisconnect {
    pub reason_code: DisconnectReasonCode,
    pub properties: Properties,
}

/// A Disconnect packet as contracts see it.
pub struct MDisconnectView {
    pub reason_code: DisconnectReasonCode,
    pub properties: Seq<PropertyView>,
}

impl View for MDisconnect {
    type V = MDisconnectView;

    open spec fn view(&self) -> MDisconnectView {
        MDisconnectView { reason_code: self.reason_code, properties: self.properties@ }
    }
}

impl MDisconnectView {
    /// The body of the packet on the wire, after the fixed header: the
    /// reason code, then the properties.
    pub open spec fn body(self) -> Seq<u8> {
        spec_reason_tail(self.reason_code.spec_code(), self.properties)
    }

    /// The packet can go on the wire: the properties are a set that the
    /// packet can carry, and the body is not longer than a fixed header
    /// can state.
    pub open spec fn wf(self) -> bool {
        &&& spec_properties_wf(PropertyScope::Disconnect, self.properties)
        &&& self.body().len() <= VARIABLE_INTEGER_MAX
    }
}

/// Decoding of the whole of `s` as the body of a Disconnect packet. An
/// empty body stands for the reason code 0 and no properties.
/// A body of more bytes than a fixed header can state is rejected.
#[verifier::opaque]
pub open spec fn spec_parse_disconnect(s: Seq<u8>) -> Option<MDisconnectView> {
    if s.len() > VARIABLE_INTEGER_MAX {
        None
    } else {
        match spec_parse_reason_tail(PropertyScope::Disconnect, s) {
            Some((code, properties)) => match DisconnectReasonCode::spec_from_code(code) {
                Some(reason_code) => Some(MDisconnectView { reason_code, properties }),
                None => None,
            },
            None => None,
        }
    }
}

impl MDisconnect {
    /// Reads the whole of `input` as the body of a Disconnect packet.
    pub fn parse(input: &[u8]) -> (r: Result<MDisconnect, ParseError>)
        ensures
            match r {
                Ok(p) => spec_parse_disconnect(input@) == Some(p@) && p@.wf(),
                Err(e) => spec_parse_disconnect(input@) is None && e == ParseError::Malformed,
            },
    {
        proof {
            reveal(spec_parse_disconnect);
        }
        if input.len() > VARIABLE_INTEGER_MAX as usize {
            return Err(ParseError::Malformed);
        }
        let (code, properties) = parse_reason_tail(PropertyScope::Disconnect, input)?;
        let reason_code = match DisconnectReasonCode::from_code(code) {
            Some(reason_code) => reason_code,
            None => {
                return Err(ParseError::Malformed);
            },
        };
        proof {
            crate::variable_header::lemma_no_properties_len();
        }
        Ok(MDisconnect { reason_code, properties })
    }

    /// Tells whether the packet can go on the wire.
    pub fn is_valid(&self) -> (r: bool)
        ensures
            r == self@.wf(),
    {
        self.properties.is_valid(PropertyScope::Disconnect) && self.properties.binary_size(
            PropertyScope::Disconnect,
        ) <= VARIABLE_INTEGER_MAX - 1
    }

    /// The number of bytes of the body of the packet.
    pub fn binary_size(&self) -> (n: u32)
        requires
            self@.wf(),
        ensures
            n == self@.body().len(),
    {
        1 + self.properties.binary_size(PropertyScope::Disconnect)
    }

    /// Appends the body of the packet to `buffer`.
    pub fn write(&self, buffer: &mut Vec<u8>)
        requires
            self@.wf(),
        ensures
            final(buffer)@ == old(buffer)@ + self@.body(),
    {
        write_reason_tail(self.reason_code.code(), &self.properties, PropertyScope::Disconnect, buffer);
    }
}

/// The body of a Disconnect packet decodes to the packet.
pub proof fn lemma_disconnect_write_then_parse(p: MDisconnectView)
    requires
        p.wf(),
    ensures
        spec_parse_disconnect(p.body()) == Some(p),
{
    reveal(spec_parse_disconnect);
    lemma_reason_tail_write_then_parse(PropertyScope::Disconnect, p.reason_code.spec_code(), p.properties);
}

} // verus!
