//! The Unsubscribe packet, by which a client ends subscriptions.

use vstd::prelude::*;
use vstd::slice::slice_subrange;

use crate::error::ParseError;
use crate::integers::VARIABLE_INTEGER_MAX;
use crate::integers::spec_u16;
use crate::properties::PropertyView;
use crate::property_id::PropertyScope;
use crate::property_set::Properties;
use crate::property_set::lemma_properties_write_then_parse;
use crate::property_set::spec_parse_properties;
use crate::property_set::spec_properties;
use crate::property_set::spec_properties_wf;
use crate::strings::MqttString;
use crate::strings::lemma_string_write_then_parse;
use crate::strings::parse_string;
use crate::strings::spec_parse_string;
use crate::strings::spec_string;
use crate::strings::spec_valid_mqtt_utf8;
use crate::strings::write_string;
use crate::variable_header::PacketIdentifier;
use crate::variable_header::lemma_packet_identifier_write_then_parse;
use crate::variable_header::spec_parse_packet_identifier;

verus! {

/// The wire forms of the topic filters `filters`, one after the other.
pub open spec fn spec_topic_filters_body(filters: Seq<Seq<u8>>) -> Seq<u8>
    decreases filters.len(),
{
    if filters.len() == 0 {
        Seq::empty()
    } else {
        spec_string(filters[0]) + spec_topic_filters_body(filters.drop_first())
    }
}

/// Decoding of the whole of `s` as topic filters, one after the other.
pub open spec fn spec_parse_topic_filter_list(s: Seq<u8>) -> Option<Seq<Seq<u8>>>
    decreases s.len(),
{
    if s.len() == 0 {
        Some(Seq::empty())
    } else {
        match spec_parse_string(s) {
            Some((filter, n)) => if 0 < n <= s.len() {
                match spec_parse_topic_filter_list(s.skip(n)) {
                    Some(rest) => Some(seq![filter] + rest),
                    None => None,
                }
            } else {
                None
            },
            None => None,
        }
    }
}

/// Each of `filters` is an MQTT string.
pub open spec fn spec_topic_filters_each_wf(filters: Seq<Seq<u8>>) -> bool {
    forall|i: int| 0 <= i < filters.len() ==> spec_valid_mqtt_utf8(#[trigger] filters[i])
}

/// The views of the strings `filters`.
pub open spec fn spec_topic_filters(filters: Seq<MqttString>) -> Seq<Seq<u8>> {
    filters.map_values(|f: MqttString| f@)
}

/// The topic filters of one list after those of another encode to the one
/// encoding after the other.
pub proof fn lemma_topic_filters_body_concat(a: Seq<Seq<u8>>, b: Seq<Seq<u8>>)
    ensures
        spec_topic_filters_body(a + b) == spec_topic_filters_body(a) + spec_topic_filters_body(b),
    decreases a.len(),
{
    if a.len() == 0 {
        assert(a + b =~= b);
        assert(spec_topic_filters_body(a) + spec_topic_filters_body(b) =~= spec_topic_filters_body(
            b,
        ));
    } else {
        assert((a + b).drop_first() =~= a.drop_first() + b);
        lemma_topic_filters_body_concat(a.drop_first(), b);
        assert(spec_topic_filters_body(a + b) =~= spec_topic_filters_body(a)
            + spec_topic_filters_body(b));
    }
}

/// One more topic filter at the end adds its wire form at the end.
pub proof fn lemma_topic_filters_body_push(filters: Seq<Seq<u8>>, filter: Seq<u8>)
    ensures
        spec_topic_filters_body(filters.push(filter)) == spec_topic_filters_body(filters)
            + spec_string(filter),
{
    let one = seq![filter];
    assert(filters.push(filter) =~= filters + one);
    lemma_topic_filters_body_concat(filters, one);
    assert(one.drop_first() =~= Seq::<Seq<u8>>::empty());
    assert(spec_topic_filters_body(one) =~= spec_string(filter)) by {
        reveal_with_fuel(spec_topic_filters_body, 2);
    }
}

/// The encoding of a list of topic filters decodes to that list.
pub proof fn lemma_topic_filter_list_write_then_parse(filters: Seq<Seq<u8>>)
    requires
        spec_topic_filters_each_wf(filters),
    ensures
        spec_parse_topic_filter_list(spec_topic_filters_body(filters)) == Some(filters),
    decreases filters.len(),
{
    let s = spec_topic_filters_body(filters);
    if filters.len() == 0 {
        assert(filters =~= Seq::<Seq<u8>>::empty());
    } else {
        let rest = filters.drop_first();
        assert(spec_valid_mqtt_utf8(filters[0]));
        assert(spec_topic_filters_each_wf(rest)) by {
            assert forall|i: int| 0 <= i < rest.len() implies spec_valid_mqtt_utf8(
                #[trigger] rest[i],
            ) by {
                assert(rest[i] == filters[i + 1]);
            }
        }
        lemma_string_write_then_parse(filters[0], spec_topic_filters_body(rest));
        lemma_topic_filter_list_write_then_parse(rest);
        assert(s.skip(spec_string(filters[0]).len() as int) =~= spec_topic_filters_body(rest));
        assert(seq![filters[0]] + rest =~= filters);
    }
}

/// What decoding the rest gives, put after the topic filters decoded so far.
pub open spec fn spec_topic_filters_after(done: Seq<Seq<u8>>, rest: Option<Seq<Seq<u8>>>) -> Option<
    Seq<Seq<u8>>,
> {
    match rest {
        Some(t) => Some(done + t),
        None => None,
    }
}

/// An Unsubscribe packet: one or more topic filters under one packet identifier.
#[derive(Debug, Clone, PartialEq, Eq)]
pub struct MUnsubscribe {
    pub packet_identifier: PacketIdentifier,
    pub properties: Properties,
    pub unsubscriptions: Vec<MqttString>,
}

/// An Unsubscribe packet as contracts see it.
pub struct MUnsubscribeView {
    pub packet_identifier: u16,
    pub properties: Seq<PropertyView>,
    pub unsubscriptions: Seq<Seq<u8>>,
}

impl View for MUnsubscribe {
    type V = MUnsubscribeView;

    open spec fn view(&self) -> MUnsubscribeView {
        MUnsubscribeView {
            packet_identifier: self.packet_identifier@,
            properties: self.properties@,
            unsubscriptions: spec_topic_filters(self.unsubscriptions@),
        }
    }
}

impl MUnsubscribeView {
    /// The body of the packet on the wire, after the fixed header: the
    /// packet identifier, the properties, the topic filters.
    pub open spec fn body(self) -> Seq<u8> {
        spec_u16(self.packet_identifier) + spec_properties(self.properties)
            + spec_topic_filters_body(self.unsubscriptions)
    }

    /// The packet can go on the wire: the identifier is not 0, the
    /// properties are a set that the packet can carry, there is at least
    /// one topic filter, each is an MQTT string, and the body is not
    /// longer than a fixed header can state.
    pub open spec fn wf(self) -> bool {
        &&& self.packet_identifier != 0
        &&& spec_properties_wf(PropertyScope::Unsubscribe, self.properties)
        &&& self.unsubscriptions.len() >= 1
        &&& spec_topic_filters_each_wf(self.unsubscriptions)
        &&& self.body().len() <= VARIABLE_INTEGER_MAX
    }
}

/// Decoding of the whole of `s` as the body of an Unsubscribe packet.
/// A body of more bytes than a fixed header can state is rejected.
#[verifier::opaque]
pub open spec fn spec_parse_unsubscribe(s: Seq<u8>) -> Option<MUnsubscribeView> {
    if s.len() > VARIABLE_INTEGER_MAX {
        None
    } else {
        match spec_parse_packet_identifier(s) {
            Some((packet_identifier, n)) => match spec_parse_properties(
                PropertyScope::Unsubscribe,
                s.skip(n),
            ) {
                Some((properties, m)) => match spec_parse_topic_filter_list(s.skip(n + m)) {
                    Some(unsubscriptions) => if unsubscriptions.len() >= 1 {
                        Some(MUnsubscribeView { packet_identifier, properties, unsubscriptions })
                    } else {
                        None
                    },
                    None => None,
                },
                None => None,
            },
            None => None,
        }
    }
}

impl MUnsubscribe {
    /// Reads the whole of `input` as topic filters, one after the other.
    fn parse_topic_filters(input: &[u8]) -> (r: Result<Vec<MqttString>, ParseError>)
        ensures
            match r {
                Ok(filters) => {
                    &&& spec_parse_topic_filter_list(input@) == Some(spec_topic_filters(filters@))
                    &&& spec_topic_filters_each_wf(spec_topic_filters(filters@))
                    &&& spec_topic_filters_body(spec_topic_filters(filters@)).len() == input@.len()
                },
                Err(e) => spec_parse_topic_filter_list(input@) is None && e
                    == ParseError::Malformed,
            },
    {
        let mut filters: Vec<MqttString> = Vec::new();
        let mut pos: usize = 0;
        assert(input@.skip(0) =~= input@);
        assert(spec_topic_filters(filters@) =~= Seq::<Seq<u8>>::empty());
        assert(forall|t: Seq<Seq<u8>>| Seq::<Seq<u8>>::empty() + t =~= t);
        while pos < input.len()
            invariant
                0 <= pos <= input@.len(),
                spec_topic_filters_each_wf(spec_topic_filters(filters@)),
                spec_topic_filters_body(spec_topic_filters(filters@)).len() == pos,
                spec_parse_topic_filter_list(input@) == spec_topic_filters_after(
                    spec_topic_filters(filters@),
                    spec_parse_topic_filter_list(input@.skip(pos as int)),
                ),
            decreases input@.len() - pos,
        {
            let ghost done = spec_topic_filters(filters@);
            let ghost tail = input@.skip(pos as int);
            let (filter, n) = match parse_string(slice_subrange(input, pos, input.len())) {
                Ok(x) => x,
                Err(_) => {
                    return Err(ParseError::Malformed);
                },
            };
            proof {
                assert(tail.skip(n as int) =~= input@.skip(pos + n));
                lemma_topic_filters_body_push(done, filter@);
                assert(spec_topic_filters(filters@.push(filter)) =~= done.push(filter@));
                assert forall|t: Seq<Seq<u8>>|
                    done + (seq![filter@] + t) =~= done.push(filter@) + t by {}
            }
            filters.push(filter);
            pos = pos + n;
        }
        assert(input@.skip(pos as int).len() == 0);
        assert(spec_topic_filters(filters@) + Seq::<Seq<u8>>::empty() =~= spec_topic_filters(
            filters@,
        ));
        Ok(filters)
    }

    /// Reads the whole of `input` as the body of an Unsubscribe packet.
    ///
    /// Fails where the packet identifier is 0, where the properties or a
    /// topic filter are malformed, and where there is no topic filter.
    pub fn parse(input: &[u8]) -> (r: Result<MUnsubscribe, ParseError>)
        ensures
            match r {
                Ok(p) => spec_parse_unsubscribe(input@) == Some(p@) && p@.wf() && p@.body().len()
                    == input@.len(),
                Err(e) => spec_parse_unsubscribe(input@) is None && e == ParseError::Malformed,
            },
    {
        proof {
            reveal(spec_parse_unsubscribe);
        }
        if input.len() > VARIABLE_INTEGER_MAX as usize {
            return Err(ParseError::Malformed);
        }
        let (packet_identifier, n) = PacketIdentifier::parse(input)?;
        let (properties, m) = Properties::parse(
            PropertyScope::Unsubscribe,
            slice_subrange(input, n, input.len()),
        )?;
        let unsubscriptions = MUnsubscribe::parse_topic_filters(
            slice_subrange(input, n + m, input.len()),
        )?;
        assert(input@.skip(n as int).skip(m as int) =~= input@.skip(n + m));
        if unsubscriptions.len() < 1 {
            return Err(ParseError::Malformed);
        }
        Ok(MUnsubscribe { packet_identifier, properties, unsubscriptions })
    }

    /// The number of bytes of the topic filters on the wire, where they
    /// are at most `limit`; nothing where they are more.
    fn filters_size_within(&self, limit: u32) -> (r: Option<u32>)
        ensures
            match r {
                Some(n) => spec_topic_filters_each_wf(self@.unsubscriptions) && n
                    == spec_topic_filters_body(self@.unsubscriptions).len() && n <= limit,
                None => spec_topic_filters_body(self@.unsubscriptions).len() > limit,
            },
    {
        let ghost all = self@.unsubscriptions;
        let mut total: u32 = 0;
        let mut i: usize = 0;
        assert(all.take(0) =~= Seq::<Seq<u8>>::empty());
        while i < self.unsubscriptions.len()
            invariant
                all == self@.unsubscriptions,
                0 <= i <= self.unsubscriptions@.len(),
                spec_topic_filters_each_wf(all.take(i as int)),
                total == spec_topic_filters_body(all.take(i as int)).len(),
                total <= limit,
            decreases self.unsubscriptions@.len() - i,
        {
            let size: u32 = 2 + self.unsubscriptions[i].len() as u32;
            proof {
                assert(all.take(i + 1) =~= all.take(i as int).push(all[i as int]));
                lemma_topic_filters_body_push(all.take(i as int), all[i as int]);
                assert(all =~= all.take(i + 1) + all.skip(i + 1));
                lemma_topic_filters_body_concat(all.take(i + 1), all.skip(i + 1));
            }
            if size > limit - total {
                return None;
            }
            total = total + size;
            i = i + 1;
        }
        assert(all.take(i as int) =~= all);
        Some(total)
    }

    /// Tells whether the packet can go on the wire.
    pub fn is_valid(&self) -> (r: bool)
        ensures
            r == self@.wf(),
    {
        let _ = self.packet_identifier.get();
        if !self.properties.is_valid(PropertyScope::Unsubscribe) || self.unsubscriptions.len() < 1 {
            return false;
        }
        let fixed: u32 = 2 + self.properties.binary_size(PropertyScope::Unsubscribe);
        if fixed > VARIABLE_INTEGER_MAX {
            return false;
        }
        self.filters_size_within(VARIABLE_INTEGER_MAX - fixed).is_some()
    }

    /// The number of bytes of the body of the packet.
    pub fn binary_size(&self) -> (n: u32)
        requires
            self@.wf(),
        ensures
            n == self@.body().len(),
    {
        let filters = match self.filters_size_within(VARIABLE_INTEGER_MAX) {
            Some(n) => n,
            None => 0,
        };
        self.packet_identifier.binary_size() + self.properties.binary_size(
            PropertyScope::Unsubscribe,
        ) + filters
    }

    /// Appends the body of the packet to `buffer`.
    pub fn write(&self, buffer: &mut Vec<u8>)
        requires
            self@.wf(),
        ensures
            final(buffer)@ == old(buffer)@ + self@.body(),
    {
        self.packet_identifier.write(buffer);
        self.properties.write(PropertyScope::Unsubscribe, buffer);
        let ghost start = buffer@;
        let ghost all = self@.unsubscriptions;
        let mut i: usize = 0;
        assert(all.take(0) =~= Seq::<Seq<u8>>::empty());
        assert(buffer@ =~= start + spec_topic_filters_body(all.take(0)));
        while i < self.unsubscriptions.len()
            invariant
                all == self@.unsubscriptions,
                0 <= i <= self.unsubscriptions@.len(),
                buffer@ == start + spec_topic_filters_body(all.take(i as int)),
            decreases self.unsubscriptions@.len() - i,
        {
            write_string(buffer, &self.unsubscriptions[i]);
            proof {
                assert(all.take(i + 1) =~= all.take(i as int).push(all[i as int]));
                lemma_topic_filters_body_push(all.take(i as int), all[i as int]);
                assert(buffer@ =~= start + spec_topic_filters_body(all.take(i + 1)));
            }
            i = i + 1;
        }
        assert(all.take(i as int) =~= all);
        assert(buffer@ =~= old(buffer)@ + self@.body());
    }
}

impl MUnsubscribe {
    /// A copy of the packet.
    pub fn duplicate(&self) -> (r: MUnsubscribe)
        ensures
            r@ == self@,
    {
        let mut unsubscriptions: Vec<MqttString> = Vec::new();
        let mut i: usize = 0;
        while i < self.unsubscriptions.len()
            invariant
                0 <= i <= self.unsubscriptions@.len(),
                unsubscriptions@.len() == i,
                forall|a: int| 0 <= a < i ==> unsubscriptions@[a]@ == self.unsubscriptions@[a]@,
            decreases self.unsubscriptions@.len() - i,
        {
            unsubscriptions.push(self.unsubscriptions[i].duplicate());
            i = i + 1;
        }
        assert(spec_topic_filters(unsubscriptions@) =~= spec_topic_filters(self.unsubscriptions@));
        MUnsubscribe {
            packet_identifier: self.packet_identifier,
            properties: self.properties.duplicate(),
            unsubscriptions,
        }
    }
}

/// The body of an Unsubscribe packet decodes to the packet.
pub proof fn lemma_unsubscribe_write_then_parse(p: MUnsubscribeView)
    requires
        p.wf(),
    ensures
        spec_parse_unsubscribe(p.body()) == Some(p),
{
    reveal(spec_parse_unsubscribe);
    let filters = spec_topic_filters_body(p.unsubscriptions);
    let props = spec_properties(p.properties);
    let s = p.body();
    assert(s =~= spec_u16(p.packet_identifier) + (props + filters));
    lemma_packet_identifier_write_then_parse(p.packet_identifier, props + filters);
    assert(s.skip(2) =~= props + filters);
    lemma_properties_write_then_parse(PropertyScope::Unsubscribe, p.properties, filters);
    assert(s.skip(2 + props.len() as int) =~= filters);
    lemma_topic_filter_list_write_then_parse(p.unsubscriptions);
}

} // verus!
