//! The Publish packet, which carries a message.

use vstd::prelude::*;
use vstd::slice::slice_subrange;
use vstd::slice::slice_to_vec;

use crate::error::ParseError;
use crate::integers::VARIABLE_INTEGER_MAX;
use crate::integers::spec_u16;
use crate::properties::PropertyView;
use crate::property_id::PropertyScope;
use crate::property_set::Properties;
use crate::property_set::lemma_properties_write_then_parse;
use crate::property_set::spec_parse_properties;
use crate::property_set::spec_properties;
use crate::property_set::spec_properties_wf;
use crate::qos::QualityOfService;
use crate::strings::MqttString;
use crate::strings::lemma_string_write_then_parse;
use crate::strings::parse_string;
use crate::strings::spec_parse_string;
use crate::strings::spec_string;
use crate::strings::spec_valid_mqtt_utf8;
use crate::strings::write_string;
use crate::variable_header::PacketIdentifier;
use crate::variable_header::lemma_packet_identifier_write_then_parse;
use crate::variable_header::spec_parse_packet_identifier;

verus! {

/// A message on its way: to the server from the client that publishes it,
/// or from the server to a client that subscribed.
#[derive(Debug, Clone, PartialEq, Eq)]
pub struct MPublish {
    pub duplicate: bool,
    pub quality_of_service: QualityOfService,
    pub retain: bool,
    pub topic_name: MqttString,
    pub packet_identifier: Option<PacketIdentifier>,
    pub properties: Properties,
    pub payload: Vec<u8>,
}

/// A Publish packet as contracts see it.
pub struct MPublishView {
    pub duplicate: bool,
    pub quality_of_service: QualityOfService,
    pub retain: bool,
    pub topic_name: Seq<u8>,
    pub packet_identifier: Option<u16>,
    pub properties: Seq<PropertyView>,
    pub payload: Seq<u8>,
}

/// The value of an optional packet identifier.
pub open spec fn spec_identifier_value(id: Option<PacketIdentifier>) -> Option<u16> {
    match id {
        Some(id) => Some(id@),
        None => None,
    }
}

/// The bytes of an optional packet identifier: two, or none.
pub open spec fn spec_optional_identifier(id: Option<u16>) -> Seq<u8> {
    match id {
        Some(id) => spec_u16(id),
        None => Seq::empty(),
    }
}

impl View for MPublish {
    type V = MPublishView;

    open spec fn view(&self) -> MPublishView {
        MPublishView {
            duplicate: self.duplicate,
            quality_of_service: self.quality_of_service,
            retain: self.retain,
            topic_name: self.topic_name@,
            packet_identifier: spec_identifier_value(self.packet_identifier),
            properties: self.properties@,
            payload: self.payload@,
        }
    }
}

impl MPublishView {
    /// The four flags of the fixed header: bit 3 says that the packet is
    /// sent again, bits 2 and 1 hold the quality of service, bit 0 asks
    /// the server to retain the message.
    pub open spec fn flags(self) -> u8 {
        ((if self.duplicate {
            8int
        } else {
            0int
        }) + self.quality_of_service.spec_level() * 2 + (if self.retain {
            1int
        } else {
            0int
        })) as u8
    }

    /// The body of the packet on the wire, after the fixed header: the
    /// topic name, the packet identifier where the quality of service is
    /// above 0, the properties, the payload.
    pub open spec fn body(self) -> Seq<u8> {
        spec_string(self.topic_name) + spec_optional_identifier(self.packet_identifier)
            + spec_properties(self.properties) + self.payload
    }

    /// The packet can go on the wire: the topic name is an MQTT string,
    /// there is a packet identifier, which is not 0, exactly where the
    /// quality of service is above 0, the properties are a set that the
    /// packet can carry, and the body is not longer than a fixed header
    /// can state.
    pub open spec fn wf(self) -> bool {
        &&& spec_valid_mqtt_utf8(self.topic_name)
        &&& (self.packet_identifier is Some) == (self.quality_of_service
            != QualityOfService::AtMostOnce)
        &&& self.packet_identifier != Some(0u16)
        &&& spec_properties_wf(PropertyScope::Publish, self.properties)
        &&& self.body().len() <= VARIABLE_INTEGER_MAX
    }
}

/// Decoding of the packet identifier of a Publish packet at the start of
/// `s`: there is one where `qos` is above 0.
pub open spec fn spec_parse_optional_identifier(qos: QualityOfService, s: Seq<u8>) -> Option<
    (Option<u16>, int),
> {
    if qos == QualityOfService::AtMostOnce {
        Some((None, 0))
    } else {
        match spec_parse_packet_identifier(s) {
            Some((id, n)) => Some((Some(id), n)),
            None => None,
        }
    }
}

/// Decoding of the whole of `s` as the body of a Publish packet whose
/// fixed header holds `flags`. A quality of service of 3 is malformed.
/// A body of more bytes than a fixed header can state is rejected.
#[verifier::opaque]
pub open spec fn spec_parse_publish(flags: u8, s: Seq<u8>) -> Option<MPublishView> {
    if s.len() > VARIABLE_INTEGER_MAX {
        None
    } else {
        if flags >= 16 {
            None
        } else {
            match QualityOfService::spec_from_level(flags / 2 % 4) {
                Some(quality_of_service) => match spec_parse_string(s) {
                    Some((topic_name, n)) => match spec_parse_optional_identifier(
                        quality_of_service,
                        s.skip(n),
                    ) {
                        Some((packet_identifier, m)) => match spec_parse_properties(
                            PropertyScope::Publish,
                            s.skip(n + m),
                        ) {
                            Some((properties, k)) => Some(
                                MPublishView {
                                    duplicate: flags / 8 == 1,
                                    quality_of_service,
                                    retain: flags % 2 == 1,
                                    topic_name,
                                    packet_identifier,
                                    properties,
                                    payload: s.skip(n + m + k),
                                },
                            ),
                            None => None,
                        },
                        None => None,
                    },
                    None => None,
                },
                None => None,
            }
        }
    }
}

impl MPublish {
    /// Reads the whole of `input` as the body of a Publish packet whose
    /// fixed header holds `flags`.
    ///
    /// Fails where the quality of service is 3, where the topic name or
    /// the properties are malformed, and where the quality of service is
    /// above 0 and the packet identifier is missing or 0.
    pub fn parse(flags: u8, input: &[u8]) -> (r: Result<MPublish, ParseError>)
        ensures
            match r {
                Ok(p) => spec_parse_publish(flags, input@) == Some(p@) && p@.wf() && p@.flags()
                    == flags && p@.body().len() == input@.len(),
                Err(e) => spec_parse_publish(flags, input@) is None && e == ParseError::Malformed,
            },
    {
        proof {
            reveal(spec_parse_publish);
        }
        if input.len() > VARIABLE_INTEGER_MAX as usize {
            return Err(ParseError::Malformed);
        }
        if flags >= 16 {
            return Err(ParseError::Malformed);
        }
        let quality_of_service = match QualityOfService::from_level(flags / 2 % 4) {
            Some(q) => q,
            None => {
                return Err(ParseError::Malformed);
            },
        };
        let (topic_name, n) = parse_string(input)?;
        let mut packet_identifier: Option<PacketIdentifier> = None;
        let mut m: usize = 0;
        if quality_of_service != QualityOfService::AtMostOnce {
            let (id, len) = PacketIdentifier::parse(slice_subrange(input, n, input.len()))?;
            packet_identifier = Some(id);
            m = len;
        }
        let (properties, k) = Properties::parse(
            PropertyScope::Publish,
            slice_subrange(input, n + m, input.len()),
        )?;
        let payload = slice_to_vec(slice_subrange(input, n + m + k, input.len()));
        assert(input@.skip(n as int).skip(m as int) =~= input@.skip(n + m));
        Ok(
            MPublish {
                duplicate: flags / 8 == 1,
                quality_of_service,
                retain: flags % 2 == 1,
                topic_name,
                packet_identifier,
                properties,
                payload,
            },
        )
    }

    /// The four flags of the packet's fixed header.
    pub fn flags(&self) -> (r: u8)
        ensures
            r == self@.flags(),
            r < 16,
    {
        let duplicate: u8 = if self.duplicate { 8 } else { 0 };
        let retain: u8 = if self.retain { 1 } else { 0 };
        duplicate + self.quality_of_service.level() * 2 + retain
    }

    /// The number of bytes of the body before the payload, where the
    /// packet is in order but for its length; nothing where it is not.
    fn header_size(&self) -> (r: Option<u32>)
        ensures
            match r {
                Some(n) => {
                    &&& spec_valid_mqtt_utf8(self@.topic_name)
                    &&& (self@.packet_identifier is Some) == (self@.quality_of_service
                        != QualityOfService::AtMostOnce)
                    &&& self@.packet_identifier != Some(0u16)
                    &&& spec_properties_wf(PropertyScope::Publish, self@.properties)
                    &&& n + self@.payload.len() == self@.body().len()
                },
                None => !self@.wf(),
            },
    {
        let has_identifier = match &self.packet_identifier {
            Some(id) => {
                let _ = id.get();
                true
            },
            None => false,
        };
        if has_identifier != (self.quality_of_service != QualityOfService::AtMostOnce) {
            return None;
        }
        if !self.properties.is_valid(PropertyScope::Publish) {
            return None;
        }
        let identifier: u32 = if has_identifier { 2 } else { 0 };
        Some(
            2 + self.topic_name.len() as u32 + identifier + self.properties.binary_size(
                PropertyScope::Publish,
            ),
        )
    }

    /// Tells whether the packet can go on the wire.
    pub fn is_valid(&self) -> (r: bool)
        ensures
            r == self@.wf(),
    {
        match self.header_size() {
            Some(n) => n <= VARIABLE_INTEGER_MAX && self.payload.len() <= (VARIABLE_INTEGER_MAX
                - n) as usize,
            None => false,
        }
    }

    /// The number of bytes of the body of the packet.
    pub fn binary_size(&self) -> (n: u32)
        requires
            self@.wf(),
        ensures
            n == self@.body().len(),
    {
        match self.header_size() {
            Some(n) => n + self.payload.len() as u32,
            None => 0,
        }
    }

    /// Appends the body of the packet to `buffer`.
    pub fn write(&self, buffer: &mut Vec<u8>)
        requires
            self@.wf(),
        ensures
            final(buffer)@ == old(buffer)@ + self@.body(),
    {
        write_string(buffer, &self.topic_name);
        match &self.packet_identifier {
            Some(id) => id.write(buffer),
            None => {},
        }
        self.properties.write(PropertyScope::Publish, buffer);
        buffer.extend_from_slice(self.payload.as_slice());
        assert(buffer@ =~= old(buffer)@ + self@.body());
    }

    /// A copy of the packet.
    pub fn duplicate(&self) -> (r: MPublish)
        ensures
            r@ == self@,
    {
        MPublish {
            duplicate: self.duplicate,
            quality_of_service: self.quality_of_service,
            retain: self.retain,
            topic_name: self.topic_name.duplicate(),
            packet_identifier: self.packet_identifier,
            properties: self.properties.duplicate(),
            payload: slice_to_vec(self.payload.as_slice()),
        }
    }
}

/// The flags of a Publish packet give back what they were made from.
pub proof fn lemma_publish_flags(p: MPublishView)
    ensures
        p.flags() < 16,
        QualityOfService::spec_from_level(p.flags() / 2 % 4) == Some(p.quality_of_service),
        (p.flags() / 8 == 1) == p.duplicate,
        (p.flags() % 2 == 1) == p.retain,
{
}

/// The body of a Publish packet, under the flags of the packet, decodes to
/// the packet.
pub proof fn lemma_publish_write_then_parse(p: MPublishView)
    requires
        p.wf(),
    ensures
        spec_parse_publish(p.flags(), p.body()) == Some(p),
        p.flags() < 16,
{
    reveal(spec_parse_publish);
    lemma_publish_flags(p);
    let topic = spec_string(p.topic_name);
    let id = spec_optional_identifier(p.packet_identifier);
    let props = spec_properties(p.properties);
    let s = p.body();
    let n = topic.len() as int;
    let m = id.len() as int;
    let k = props.len() as int;
    assert(spec_parse_string(s) == Some((p.topic_name, n))) by {
        assert(s =~= topic + (id + props + p.payload));
        lemma_string_write_then_parse(p.topic_name, id + props + p.payload);
    }
    assert(spec_parse_optional_identifier(p.quality_of_service, s.skip(n)) == Some(
        (p.packet_identifier, m),
    )) by {
        assert(s.skip(n) =~= id + (props + p.payload));
        match p.packet_identifier {
            Some(v) => lemma_packet_identifier_write_then_parse(v, props + p.payload),
            None => {},
        }
    }
    assert(spec_parse_properties(PropertyScope::Publish, s.skip(n + m)) == Some(
        (p.properties, k),
    )) by {
        assert(s.skip(n + m) =~= props + p.payload);
        lemma_properties_write_then_parse(PropertyScope::Publish, p.properties, p.payload);
    }
    assert(s.skip(n + m + k) =~= p.payload);
}

} // verus!
