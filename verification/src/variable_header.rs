//! Parts that the variable headers of several packets share: the packet
//! identifier, and the reason code with properties that ends an
//! acknowledgement.

use vstd::prelude::*;
use vstd::slice::slice_subrange;

use crate::error::ParseError;
use crate::integers::lemma_u16_write_then_parse;
use crate::integers::parse_u16;
use crate::integers::spec_parse_u16;
use crate::integers::spec_u16;
use crate::integers::write_u16;
use crate::properties::PropertyView;
use crate::property_id::PropertyScope;
use crate::property_set::Properties;
use crate::property_set::lemma_properties_write_then_parse;
use crate::property_set::spec_parse_properties;
use crate::property_set::spec_properties;
use crate::property_set::spec_properties_wf;

verus! {

/// The identifier of a packet that awaits an acknowledgement: a 16-bit
/// value that is not 0. The view is that value.
#[derive(Debug, Clone, Copy, PartialEq, Eq, Hash, PartialOrd, Ord)]
pub struct PacketIdentifier {
    value: u16,
}

impl View for PacketIdentifier {
    type V = u16;

    closed spec fn view(&self) -> u16 {
        self.value
    }
}

impl PacketIdentifier {
    #[verifier::type_invariant]
    closed spec fn inv(self) -> bool {
        self.value != 0
    }

    /// The identifier with the value `value`; nothing where `value` is 0.
    pub fn new(value: u16) -> (r: Option<PacketIdentifier>)
        ensures
            match r {
                Some(id) => id@ == value && value != 0,
                None => value == 0,
            },
    {
        if value == 0 {
            None
        } else {
            Some(PacketIdentifier { value })
        }
    }

    /// The lowest identifier, 1.
    pub fn first() -> (r: PacketIdentifier)
        ensures
            r@ == 1,
    {
        PacketIdentifier { value: 1 }
    }

    /// The identifier after this one: the next higher one, and 1 after 65535.
    pub fn successor(&self) -> (r: PacketIdentifier)
        ensures
            r@ == spec_successor(self@),
    {
        if self.value == 65_535 {
            PacketIdentifier { value: 1 }
        } else {
            PacketIdentifier { value: self.value + 1 }
        }
    }

    /// The value of the identifier.
    pub fn get(&self) -> (r: u16)
        ensures
            r == self@,
            r != 0,
    {
        proof {
            use_type_invariant(self);
        }
        self.value
    }

    /// The number of bytes of the identifier on the wire.
    pub fn binary_size(&self) -> (n: u32)
        ensures
            n == 2,
    {
        2
    }

    /// Appends the two bytes of the identifier to `buffer`.
    pub fn write(&self, buffer: &mut Vec<u8>)
        ensures
            final(buffer)@ == old(buffer)@ + spec_u16(self@),
            self@ != 0,
    {
        write_u16(buffer, self.get());
    }

    /// Reads an identifier from the start of `input`. An identifier of 0
    /// is malformed.
    pub fn parse(input: &[u8]) -> (r: Result<(PacketIdentifier, usize), ParseError>)
        ensures
            match r {
                Ok((id, n)) => spec_parse_packet_identifier(input@) == Some((id@, n as int)) && n
                    == 2 && id@ != 0,
                Err(e) => spec_parse_packet_identifier(input@) is None && e
                    == ParseError::Malformed,
            },
    {
        let (value, n) = parse_u16(input)?;
        match PacketIdentifier::new(value) {
            Some(id) => Ok((id, n)),
            None => Err(ParseError::Malformed),
        }
    }
}

/// The value after `id` in the round of the identifiers: the next higher
/// one, and 1 after 65535.
pub open spec fn spec_successor(id: u16) -> u16 {
    if id == 65_535 {
        1
    } else {
        (id + 1) as u16
    }
}

/// Decoding of a packet identifier at the start of `s`.
pub open spec fn spec_parse_packet_identifier(s: Seq<u8>) -> Option<(u16, int)> {
    match spec_parse_u16(s) {
        Some((v, n)) => if v == 0 {
            None
        } else {
            Some((v, n))
        },
        None => None,
    }
}

/// The two bytes of an identifier, followed by anything, decode to it.
pub proof fn lemma_packet_identifier_write_then_parse(id: u16, rest: Seq<u8>)
    requires
        id != 0,
    ensures
        spec_parse_packet_identifier(spec_u16(id) + rest) == Some((id, 2int)),
        spec_u16(id).len() == 2,
{
    lemma_u16_write_then_parse(id, rest);
}

/// The end of an acknowledgement on the wire: the byte of the reason code,
/// then the properties.
pub open spec fn spec_reason_tail(reason: u8, ps: Seq<PropertyView>) -> Seq<u8> {
    seq![reason] + spec_properties(ps)
}

/// Decoding of the whole of `s` as the end of an acknowledgement. A sender
/// may leave out the properties where there are none, and the reason code
/// too where it is 0.
pub open spec fn spec_parse_reason_tail(scope: PropertyScope, s: Seq<u8>) -> Option<
    (u8, Seq<PropertyView>),
> {
    if s.len() == 0 {
        Some((0u8, Seq::empty()))
    } else if s.len() == 1 {
        Some((s[0], Seq::empty()))
    } else {
        match spec_parse_properties(scope, s.skip(1)) {
            Some((ps, n)) => if n == s.len() - 1 {
                Some((s[0], ps))
            } else {
                None
            },
            None => None,
        }
    }
}

/// Reads the whole of `input` as the end of an acknowledgement.
pub fn parse_reason_tail(scope: PropertyScope, input: &[u8]) -> (r: Result<
    (u8, Properties),
    ParseError,
>)
    ensures
        match r {
            Ok((reason, ps)) => {
                &&& spec_parse_reason_tail(scope, input@) == Some((reason, ps@))
                &&& spec_properties_wf(scope, ps@)
                &&& input@.len() >= 2 ==> spec_reason_tail(reason, ps@).len() == input@.len()
                &&& input@.len() < 2 ==> ps@ == Seq::<PropertyView>::empty()
            },
            Err(e) => spec_parse_reason_tail(scope, input@) is None && e == ParseError::Malformed,
        },
{
    if input.len() == 0 {
        return Ok((0, Properties::new()));
    }
    let reason = input[0];
    if input.len() == 1 {
        return Ok((reason, Properties::new()));
    }
    let (ps, n) = Properties::parse(scope, slice_subrange(input, 1, input.len()))?;
    if n != input.len() - 1 {
        return Err(ParseError::Malformed);
    }
    Ok((reason, ps))
}

/// Appends the end of an acknowledgement to `buffer`, in full.
pub fn write_reason_tail(
    reason: u8,
    properties: &Properties,
    scope: PropertyScope,
    buffer: &mut Vec<u8>,
)
    requires
        spec_properties_wf(scope, properties@),
    ensures
        final(buffer)@ == old(buffer)@ + spec_reason_tail(reason, properties@),
{
    buffer.push(reason);
    properties.write(scope, buffer);
    assert(buffer@ =~= old(buffer)@ + spec_reason_tail(reason, properties@));
}

/// The end of an acknowledgement, written in full, decodes to what was written.
pub proof fn lemma_reason_tail_write_then_parse(
    scope: PropertyScope,
    reason: u8,
    ps: Seq<PropertyView>,
)
    requires
        spec_properties_wf(scope, ps),
    ensures
        spec_parse_reason_tail(scope, spec_reason_tail(reason, ps)) == Some((reason, ps)),
        spec_reason_tail(reason, ps).len() == 1 + spec_properties(ps).len(),
        spec_properties(ps).len() >= 1,
{
    let s = spec_reason_tail(reason, ps);
    assert(s.skip(1) =~= spec_properties(ps) + Seq::<u8>::empty());
    lemma_properties_write_then_parse(scope, ps, Seq::empty());
    crate::integers::lemma_variable_u32_write_then_parse(
        crate::property_set::spec_properties_body(ps).len() as u32,
        Seq::empty(),
    );
}

/// No properties take one byte on the wire, and any packet can carry them.
pub proof fn lemma_no_properties_len()
    ensures
        spec_properties(Seq::<PropertyView>::empty()).len() == 1,
        forall|scope: PropertyScope| spec_properties_wf(scope, Seq::<PropertyView>::empty()),
{
    assert(crate::property_set::spec_properties_body(Seq::<PropertyView>::empty()).len() == 0);
}

} // verus!
