//! The Subscribe packet, by which a client asks for the messages of topics.

use vstd::prelude::*;
use vstd::slice::slice_subrange;

use crate::error::ParseError;
use crate::integers::VARIABLE_INTEGER_MAX;
use crate::integers::spec_u16;
use crate::properties::PropertyView;
use crate::property_id::PropertyScope;
use crate::property_set::Properties;
use crate::property_set::lemma_properties_write_then_parse;
use crate::property_set::spec_parse_properties;
use crate::property_set::spec_properties;
use crate::property_set::spec_properties_wf;
use crate::qos::QualityOfService;
use crate::strings::MqttString;
use crate::strings::lemma_string_write_then_parse;
use crate::strings::parse_string;
use crate::strings::spec_parse_string;
use crate::strings::spec_string;
use crate::strings::spec_valid_mqtt_utf8;
use crate::strings::write_string;
use crate::variable_header::PacketIdentifier;
use crate::variable_header::lemma_packet_identifier_write_then_parse;
use crate::variable_header::spec_parse_packet_identifier;

verus! {

/// Which retained messages the server sends when the subscription is made.
#[derive(Debug, Clone, Copy, PartialEq, Eq, Hash, Structural)]
pub enum RetainHandling {
    SendRetainedMessagesAlways,
    SendRetainedMessagesOnNewSubscribe,
    DoNotSendRetainedMessages,
}

impl RetainHandling {
    /// The number 0, 1 or 2 of the mode.
    pub open spec fn spec_code(self) -> u8 {
        match self {
            RetainHandling::SendRetainedMessagesAlways => 0,
            RetainHandling::SendRetainedMessagesOnNewSubscribe => 1,
            RetainHandling::DoNotSendRetainedMessages => 2,
        }
    }

    /// The mode with the number `code`, if there is one.
    pub open spec fn spec_from_code(code: u8) -> Option<RetainHandling> {
        if code == 0 {
            Some(RetainHandling::SendRetainedMessagesAlways)
        } else if code == 1 {
            Some(RetainHandling::SendRetainedMessagesOnNewSubscribe)
        } else if code == 2 {
            Some(RetainHandling::DoNotSendRetainedMessages)
        } else {
            None
        }
    }

    /// The number 0, 1 or 2 of the mode.
    pub fn code(&self) -> (r: u8)
        ensures
            r == self.spec_code(),
            r <= 2,
    {
        match self {
            RetainHandling::SendRetainedMessagesAlways => 0,
            RetainHandling::SendRetainedMessagesOnNewSubscribe => 1,
            RetainHandling::DoNotSendRetainedMessages => 2,
        }
    }

    /// The mode with the number `code`; nothing where the number is above 2.
    pub fn from_code(code: u8) -> (r: Option<RetainHandling>)
        ensures
            r == RetainHandling::spec_from_code(code),
    {
        match code {
            0 => Some(RetainHandling::SendRetainedMessagesAlways),
            1 => Some(RetainHandling::SendRetainedMessagesOnNewSubscribe),
            2 => Some(RetainHandling::DoNotSendRetainedMessages),
            _ => None,
        }
    }
}

/// What a client asks of one subscription.
#[derive(Debug, Clone, Copy, PartialEq, Eq, Structural)]
pub struct SubscriptionOptions {
    pub quality_of_service: QualityOfService,
    pub no_local: bool,
    pub retain_as_published: bool,
    pub retain_handling: RetainHandling,
}

impl SubscriptionOptions {
    /// The byte of the options on the wire: the quality of service in the
    /// two low bits, then a bit for no-local, a bit for
    /// retain-as-published, and the retain handling in two bits. The two
    /// high bits are reserved and 0.
    pub open spec fn spec_byte(self) -> u8 {
        (self.quality_of_service.spec_level() + (if self.no_local {
            4int
        } else {
            0int
        }) + (if self.retain_as_published {
            8int
        } else {
            0int
        }) + self.retain_handling.spec_code() * 16) as u8
    }

    /// The options that `byte` stands for. None where a reserved bit is
    /// set, or the quality of service or the retain handling is 3.
    pub open spec fn spec_from_byte(byte: u8) -> Option<SubscriptionOptions> {
        if byte >= 64 {
            None
        } else {
            match (
                QualityOfService::spec_from_level(byte % 4),
                RetainHandling::spec_from_code(byte / 16),
            ) {
                (Some(quality_of_service), Some(retain_handling)) => Some(
                    SubscriptionOptions {
                        quality_of_service,
                        no_local: byte / 4 % 2 == 1,
                        retain_as_published: byte / 8 % 2 == 1,
                        retain_handling,
                    },
                ),
                _ => None,
            }
        }
    }

    /// Reads the options from their byte.
    pub fn parse(byte: u8) -> (r: Result<SubscriptionOptions, ParseError>)
        ensures
            match r {
                Ok(o) => SubscriptionOptions::spec_from_byte(byte) == Some(o) && o.spec_byte()
                    == byte,
                Err(e) => SubscriptionOptions::spec_from_byte(byte) is None && e
                    == ParseError::Malformed,
            },
    {
        if byte >= 64 {
            return Err(ParseError::Malformed);
        }
        let quality_of_service = match QualityOfService::from_level(byte % 4) {
            Some(q) => q,
            None => {
                return Err(ParseError::Malformed);
            },
        };
        let retain_handling = match RetainHandling::from_code(byte / 16) {
            Some(h) => h,
            None => {
                return Err(ParseError::Malformed);
            },
        };
        Ok(
            SubscriptionOptions {
                quality_of_service,
                no_local: byte / 4 % 2 == 1,
                retain_as_published: byte / 8 % 2 == 1,
                retain_handling,
            },
        )
    }

    /// The byte of the options on the wire.
    pub fn to_byte(&self) -> (byte: u8)
        ensures
            byte == self.spec_byte(),
            SubscriptionOptions::spec_from_byte(byte) == Some(*self),
    {
        let no_local: u8 = if self.no_local { 4 } else { 0 };
        let retain_as_published: u8 = if self.retain_as_published { 8 } else { 0 };
        self.quality_of_service.level() + no_local + retain_as_published
            + self.retain_handling.code() * 16
    }

    /// Appends the byte of the options to `buffer`.
    pub fn write(&self, buffer: &mut Vec<u8>)
        ensures
            final(buffer)@ == old(buffer)@ + seq![self.spec_byte()],
    {
        buffer.push(self.to_byte());
        assert(buffer@ =~= old(buffer)@ + seq![self.spec_byte()]);
    }
}

/// The byte of subscription options stands for those options.
pub proof fn lemma_subscription_options_round_trip(o: SubscriptionOptions)
    ensures
        SubscriptionOptions::spec_from_byte(o.spec_byte()) == Some(o),
{
}

/// One subscription: a topic filter and what the client asks of it.
#[derive(Debug, Clone, PartialEq, Eq)]
pub struct Subscription {
    pub topic_filter: MqttString,
    pub options: SubscriptionOptions,
}

/// A subscription as contracts see it.
pub struct SubscriptionView {
    pub topic_filter: Seq<u8>,
    pub options: SubscriptionOptions,
}

impl View for Subscription {
    type V = SubscriptionView;

    open spec fn view(&self) -> SubscriptionView {
        SubscriptionView { topic_filter: self.topic_filter@, options: self.options }
    }
}

impl SubscriptionView {
    /// The topic filter is an MQTT string.
    pub open spec fn wf(self) -> bool {
        spec_valid_mqtt_utf8(self.topic_filter)
    }

    /// The wire form of the subscription: the topic filter, then the byte
    /// of the options.
    pub open spec fn wire(self) -> Seq<u8> {
        spec_string(self.topic_filter) + seq![self.options.spec_byte()]
    }
}

/// Decoding of a subscription at the start of `s`.
pub open spec fn spec_parse_subscription(s: Seq<u8>) -> Option<(SubscriptionView, int)> {
    match spec_parse_string(s) {
        Some((topic_filter, n)) => if s.len() <= n {
            None
        } else {
            match SubscriptionOptions::spec_from_byte(s[n]) {
                Some(options) => Some((SubscriptionView { topic_filter, options }, n + 1)),
                None => None,
            }
        },
        None => None,
    }
}

impl Subscription {
    /// Reads a subscription from the start of `input`.
    pub fn parse(input: &[u8]) -> (r: Result<(Subscription, usize), ParseError>)
        ensures
            match r {
                Ok((sub, n)) => {
                    &&& spec_parse_subscription(input@) == Some((sub@, n as int))
                    &&& sub@.wf()
                    &&& n == sub@.wire().len()
                    &&& 3 <= n <= input@.len()
                },
                Err(e) => spec_parse_subscription(input@) is None && e == ParseError::Malformed,
            },
    {
        let (topic_filter, n) = parse_string(input)?;
        if input.len() <= n {
            return Err(ParseError::Malformed);
        }
        let options = SubscriptionOptions::parse(input[n])?;
        Ok((Subscription { topic_filter, options }, n + 1))
    }

    /// The number of bytes of the subscription's wire form.
    pub fn binary_size(&self) -> (n: u32)
        ensures
            n == self@.wire().len(),
            3 <= n <= 65_538,
            self@.wf(),
    {
        2 + self.topic_filter.len() as u32 + 1
    }

    /// Appends the wire form of the subscription to `buffer`.
    pub fn write(&self, buffer: &mut Vec<u8>)
        ensures
            final(buffer)@ == old(buffer)@ + self@.wire(),
    {
        write_string(buffer, &self.topic_filter);
        self.options.write(buffer);
        assert(buffer@ =~= old(buffer)@ + self@.wire());
    }
}

/// The wire form of a subscription, followed by anything, decodes to it.
pub proof fn lemma_subscription_write_then_parse(sub: SubscriptionView, rest: Seq<u8>)
    requires
        sub.wf(),
    ensures
        spec_parse_subscription(sub.wire() + rest) == Some((sub, sub.wire().len() as int)),
        sub.wire().len() >= 3,
{
    let s = sub.wire() + rest;
    let tail = seq![sub.options.spec_byte()] + rest;
    assert(s =~= spec_string(sub.topic_filter) + tail);
    lemma_string_write_then_parse(sub.topic_filter, tail);
    assert(s[spec_string(sub.topic_filter).len() as int] == sub.options.spec_byte());
    lemma_subscription_options_round_trip(sub.options);
}

/// The wire forms of the subscriptions `subs`, one after the other.
pub open spec fn spec_subscriptions_body(subs: Seq<SubscriptionView>) -> Seq<u8>
    decreases subs.len(),
{
    if subs.len() == 0 {
        Seq::empty()
    } else {
        subs[0].wire() + spec_subscriptions_body(subs.drop_first())
    }
}

/// Decoding of the whole of `s` as subscriptions, one after the other.
pub open spec fn spec_parse_subscription_list(s: Seq<u8>) -> Option<Seq<SubscriptionView>>
    decreases s.len(),
{
    if s.len() == 0 {
        Some(Seq::empty())
    } else {
        match spec_parse_subscription(s) {
            Some((sub, n)) => if 0 < n <= s.len() {
                match spec_parse_subscription_list(s.skip(n)) {
                    Some(rest) => Some(seq![sub] + rest),
                    None => None,
                }
            } else {
                None
            },
            None => None,
        }
    }
}

/// Each topic filter of `subs` is an MQTT string.
pub open spec fn spec_subscriptions_each_wf(subs: Seq<SubscriptionView>) -> bool {
    forall|i: int| 0 <= i < subs.len() ==> (#[trigger] subs[i]).wf()
}

/// The subscriptions of one list after those of another encode to the one
/// encoding after the other.
pub proof fn lemma_subscriptions_body_concat(a: Seq<SubscriptionView>, b: Seq<SubscriptionView>)
    ensures
        spec_subscriptions_body(a + b) == spec_subscriptions_body(a) + spec_subscriptions_body(b),
    decreases a.len(),
{
    if a.len() == 0 {
        assert(a + b =~= b);
        assert(spec_subscriptions_body(a) + spec_subscriptions_body(b) =~= spec_subscriptions_body(
            b,
        ));
    } else {
        assert((a + b).drop_first() =~= a.drop_first() + b);
        lemma_subscriptions_body_concat(a.drop_first(), b);
        assert(spec_subscriptions_body(a + b) =~= spec_subscriptions_body(a)
            + spec_subscriptions_body(b));
    }
}

/// One more subscription at the end adds its wire form at the end.
pub proof fn lemma_subscriptions_body_push(subs: Seq<SubscriptionView>, sub: SubscriptionView)
    ensures
        spec_subscriptions_body(subs.push(sub)) == spec_subscriptions_body(subs) + sub.wire(),
{
    let one = seq![sub];
    assert(subs.push(sub) =~= subs + one);
    lemma_subscriptions_body_concat(subs, one);
    assert(one.drop_first() =~= Seq::<SubscriptionView>::empty());
    assert(spec_subscriptions_body(one) =~= sub.wire()) by {
        reveal_with_fuel(spec_subscriptions_body, 2);
    }
}

/// The encoding of a list of subscriptions decodes to that list.
pub proof fn lemma_subscription_list_write_then_parse(subs: Seq<SubscriptionView>)
    requires
        spec_subscriptions_each_wf(subs),
    ensures
        spec_parse_subscription_list(spec_subscriptions_body(subs)) == Some(subs),
    decreases subs.len(),
{
    let s = spec_subscriptions_body(subs);
    if subs.len() == 0 {
        assert(subs =~= Seq::<SubscriptionView>::empty());
    } else {
        let rest = subs.drop_first();
        assert(subs[0].wf());
        assert(spec_subscriptions_each_wf(rest)) by {
            assert forall|i: int| 0 <= i < rest.len() implies (#[trigger] rest[i]).wf() by {
                assert(rest[i] == subs[i + 1]);
            }
        }
        lemma_subscription_write_then_parse(subs[0], spec_subscriptions_body(rest));
        lemma_subscription_list_write_then_parse(rest);
        assert(s.skip(subs[0].wire().len() as int) =~= spec_subscriptions_body(rest));
        assert(seq![subs[0]] + rest =~= subs);
    }
}

/// The subscriptions of a Subscribe packet, in the order of the wire. The
/// view is the sequence of the subscriptions' views.
#[derive(Debug, Clone, PartialEq, Eq)]
pub struct Subscriptions {
    pub entries: Vec<Subscription>,
}

impl View for Subscriptions {
    type V = Seq<SubscriptionView>;

    open spec fn view(&self) -> Seq<SubscriptionView> {
        self.entries@.map_values(|s: Subscription| s@)
    }
}

/// The views of the subscriptions `subs`.
pub open spec fn spec_subscription_views(subs: Seq<Subscription>) -> Seq<SubscriptionView> {
    subs.map_values(|s: Subscription| s@)
}

/// What decoding the rest gives, put after the subscriptions decoded so far.
pub open spec fn spec_subscriptions_after(
    done: Seq<SubscriptionView>,
    rest: Option<Seq<SubscriptionView>>,
) -> Option<Seq<SubscriptionView>> {
    match rest {
        Some(t) => Some(done + t),
        None => None,
    }
}

impl Subscriptions {
    /// Reads the whole of `input` as subscriptions, one after the other.
    pub fn parse(input: &[u8]) -> (r: Result<Subscriptions, ParseError>)
        ensures
            match r {
                Ok(subs) => {
                    &&& spec_parse_subscription_list(input@) == Some(subs@)
                    &&& spec_subscriptions_each_wf(subs@)
                    &&& spec_subscriptions_body(subs@).len() == input@.len()
                },
                Err(e) => spec_parse_subscription_list(input@) is None && e
                    == ParseError::Malformed,
            },
    {
        let mut entries: Vec<Subscription> = Vec::new();
        let mut pos: usize = 0;
        assert(input@.skip(0) =~= input@);
        assert(entries@.map_values(|s: Subscription| s@) =~= Seq::<SubscriptionView>::empty());
        assert(forall|t: Seq<SubscriptionView>| Seq::<SubscriptionView>::empty() + t =~= t);
        while pos < input.len()
            invariant
                0 <= pos <= input@.len(),
                spec_subscriptions_each_wf(entries@.map_values(|s: Subscription| s@)),
                spec_subscriptions_body(entries@.map_values(|s: Subscription| s@)).len() == pos,
                spec_parse_subscription_list(input@) == spec_subscriptions_after(
                    entries@.map_values(|s: Subscription| s@),
                    spec_parse_subscription_list(input@.skip(pos as int)),
                ),
            decreases input@.len() - pos,
        {
            let ghost done = entries@.map_values(|s: Subscription| s@);
            let ghost tail = input@.skip(pos as int);
            let (sub, n) = match Subscription::parse(slice_subrange(input, pos, input.len())) {
                Ok(x) => x,
                Err(_) => {
                    return Err(ParseError::Malformed);
                },
            };
            proof {
                assert(tail.skip(n as int) =~= input@.skip(pos + n));
                lemma_subscriptions_body_push(done, sub@);
                assert(entries@.push(sub).map_values(|s: Subscription| s@) =~= done.push(sub@));
                assert forall|t: Seq<SubscriptionView>|
                    done + (seq![sub@] + t) =~= done.push(sub@) + t by {}
            }
            entries.push(sub);
            pos = pos + n;
        }
        let r = Subscriptions { entries };
        assert(input@.skip(pos as int).len() == 0);
        assert(r@ + Seq::<SubscriptionView>::empty() =~= r@);
        Ok(r)
    }

    /// The number of bytes of the subscriptions on the wire, where they
    /// are at most `limit`; nothing where they are more.
    pub fn size_within(&self, limit: u32) -> (r: Option<u32>)
        ensures
            match r {
                Some(n) => spec_subscriptions_each_wf(self@) && n == spec_subscriptions_body(
                    self@,
                ).len() && n <= limit,
                None => spec_subscriptions_body(self@).len() > limit,
            },
    {
        let mut total: u32 = 0;
        let mut i: usize = 0;
        assert(self@.take(0) =~= Seq::<SubscriptionView>::empty());
        while i < self.entries.len()
            invariant
                0 <= i <= self.entries@.len(),
                spec_subscriptions_each_wf(self@.take(i as int)),
                total == spec_subscriptions_body(self@.take(i as int)).len(),
                total <= limit,
            decreases self.entries@.len() - i,
        {
            let size = self.entries[i].binary_size();
            proof {
                assert(self@.take(i + 1) =~= self@.take(i as int).push(self@[i as int]));
                lemma_subscriptions_body_push(self@.take(i as int), self@[i as int]);
                assert(self@ =~= self@.take(i + 1) + self@.skip(i + 1));
                lemma_subscriptions_body_concat(self@.take(i + 1), self@.skip(i + 1));
            }
            if size > limit - total {
                return None;
            }
            total = total + size;
            i = i + 1;
        }
        assert(self@.take(i as int) =~= self@);
        Some(total)
    }

    /// The number of bytes of the subscriptions on the wire.
    pub fn binary_size(&self) -> (n: u32)
        requires
            spec_subscriptions_body(self@).len() <= u32::MAX,
        ensures
            n == spec_subscriptions_body(self@).len(),
    {
        match self.size_within(u32::MAX) {
            Some(n) => n,
            None => 0,
        }
    }

    /// Appends the wire forms of the subscriptions to `buffer`.
    pub fn write(&self, buffer: &mut Vec<u8>)
        ensures
            final(buffer)@ == old(buffer)@ + spec_subscriptions_body(self@),
    {
        let mut i: usize = 0;
        assert(self@.take(0) =~= Seq::<SubscriptionView>::empty());
        assert(buffer@ =~= old(buffer)@ + spec_subscriptions_body(self@.take(0)));
        while i < self.entries.len()
            invariant
                0 <= i <= self.entries@.len(),
                buffer@ == old(buffer)@ + spec_subscriptions_body(self@.take(i as int)),
            decreases self.entries@.len() - i,
        {
            self.entries[i].write(buffer);
            proof {
                assert(self@.take(i + 1) =~= self@.take(i as int).push(self@[i as int]));
                lemma_subscriptions_body_push(self@.take(i as int), self@[i as int]);
                assert(buffer@ =~= old(buffer)@ + spec_subscriptions_body(self@.take(i + 1)));
            }
            i = i + 1;
        }
        assert(self@.take(i as int) =~= self@);
    }

    /// A copy of the subscriptions.
    pub fn duplicate(&self) -> (r: Subscriptions)
        ensures
            r@ == self@,
    {
        let mut entries: Vec<Subscription> = Vec::new();
        let mut i: usize = 0;
        while i < self.entries.len()
            invariant
                0 <= i <= self.entries@.len(),
                entries@.len() == i,
                forall|a: int| 0 <= a < i ==> entries@[a]@ == self.entries@[a]@,
            decreases self.entries@.len() - i,
        {
            entries.push(
                Subscription {
                    topic_filter: self.entries[i].topic_filter.duplicate(),
                    options: self.entries[i].options,
                },
            );
            i = i + 1;
        }
        let r = Subscriptions { entries };
        assert(r@ =~= self@);
        r
    }

    /// The subscriptions, in the order of the wire.
    pub fn iter(&self) -> (r: &[Subscription])
        ensures
            r@ == self.entries@,
    {
        self.entries.as_slice()
    }
}

/// A Subscribe packet: one or more subscriptions under one packet identifier.
#[derive(Debug, Clone, PartialEq, Eq)]
pub struct MSubscribe {
    pub packet_identifier: PacketIdentifier,
    pub properties: Properties,
    pub subscriptions: Subscriptions,
}

/// A Subscribe packet as contracts see it.
pub struct MSubscribeView {
    pub packet_identifier: u16,
    pub properties: Seq<PropertyView>,
    pub subscriptions: Seq<SubscriptionView>,
}

impl View for MSubscribe {
    type V = MSubscribeView;

    open spec fn view(&self) -> MSubscribeView {
        MSubscribeView {
            packet_identifier: self.packet_identifier@,
            properties: self.properties@,
            subscriptions: self.subscriptions@,
        }
    }
}

impl MSubscribeView {
    /// The body of the packet on the wire, after the fixed header: the
    /// packet identifier, the properties, the subscriptions.
    pub open spec fn body(self) -> Seq<u8> {
        spec_u16(self.packet_identifier) + spec_properties(self.properties)
            + spec_subscriptions_body(self.subscriptions)
    }

    /// The packet can go on the wire: the identifier is not 0, the
    /// properties are a set that the packet can carry, there is at least
    /// one subscription, each topic filter is an MQTT string, and the body
    /// is not longer than a fixed header can state.
    pub open spec fn wf(self) -> bool {
        &&& self.packet_identifier != 0
        &&& spec_properties_wf(PropertyScope::Subscribe, self.properties)
        &&& self.subscriptions.len() >= 1
        &&& spec_subscriptions_each_wf(self.subscriptions)
        &&& self.body().len() <= VARIABLE_INTEGER_MAX
    }
}

/// Decoding of the whole of `s` as the body of a Subscribe packet.
/// A body of more bytes than a fixed header can state is rejected.
#[verifier::opaque]
pub open spec fn spec_parse_subscribe(s: Seq<u8>) -> Option<MSubscribeView> {
    if s.len() > VARIABLE_INTEGER_MAX {
        None
    } else {
        match spec_parse_packet_identifier(s) {
            Some((packet_identifier, n)) => match spec_parse_properties(
                PropertyScope::Subscribe,
                s.skip(n),
            ) {
                Some((properties, m)) => match spec_parse_subscription_list(s.skip(n + m)) {
                    Some(subscriptions) => if subscriptions.len() >= 1 {
                        Some(MSubscribeView { packet_identifier, properties, subscriptions })
                    } else {
                        None
                    },
                    None => None,
                },
                None => None,
            },
            None => None,
        }
    }
}

impl MSubscribe {
    /// Reads the whole of `input` as the body of a Subscribe packet.
    ///
    /// Fails where the packet identifier is 0, where the properties or a
    /// subscription are malformed, and where there is no subscription.
    pub fn parse(input: &[u8]) -> (r: Result<MSubscribe, ParseError>)
        ensures
            match r {
                Ok(p) => spec_parse_subscribe(input@) == Some(p@) && p@.wf() && p@.body().len()
                    == input@.len(),
                Err(e) => spec_parse_subscribe(input@) is None && e == ParseError::Malformed,
            },
    {
        proof {
            reveal(spec_parse_subscribe);
        }
        if input.len() > VARIABLE_INTEGER_MAX as usize {
            return Err(ParseError::Malformed);
        }
        let (packet_identifier, n) = PacketIdentifier::parse(input)?;
        let (properties, m) = Properties::parse(
            PropertyScope::Subscribe,
            slice_subrange(input, n, input.len()),
        )?;
        let subscriptions = Subscriptions::parse(slice_subrange(input, n + m, input.len()))?;
        assert(input@.skip(n as int).skip(m as int) =~= input@.skip(n + m));
        if subscriptions.entries.len() < 1 {
            return Err(ParseError::Malformed);
        }
        Ok(MSubscribe { packet_identifier, properties, subscriptions })
    }

    /// Tells whether the packet can go on the wire.
    pub fn is_valid(&self) -> (r: bool)
        ensures
            r == self@.wf(),
    {
        let _ = self.packet_identifier.get();
        if !self.properties.is_valid(PropertyScope::Subscribe) || self.subscriptions.entries.len()
            < 1 {
            return false;
        }
        let fixed: u32 = 2 + self.properties.binary_size(PropertyScope::Subscribe);
        if fixed > VARIABLE_INTEGER_MAX {
            return false;
        }
        self.subscriptions.size_within(VARIABLE_INTEGER_MAX - fixed).is_some()
    }

    /// The number of bytes of the body of the packet.
    pub fn binary_size(&self) -> (n: u32)
        requires
            self@.wf(),
        ensures
            n == self@.body().len(),
    {
        self.packet_identifier.binary_size() + self.properties.binary_size(
            PropertyScope::Subscribe,
        ) + self.subscriptions.binary_size()
    }

    /// Appends the body of the packet to `buffer`.
    pub fn write(&self, buffer: &mut Vec<u8>)
        requires
            self@.wf(),
        ensures
            final(buffer)@ == old(buffer)@ + self@.body(),
    {
        self.packet_identifier.write(buffer);
        self.properties.write(PropertyScope::Subscribe, buffer);
        self.subscriptions.write(buffer);
        assert(buffer@ =~= old(buffer)@ + self@.body());
    }
}

impl MSubscribe {
    /// A copy of the packet.
    pub fn duplicate(&self) -> (r: MSubscribe)
        ensures
            r@ == self@,
    {
        MSubscribe {
            packet_identifier: self.packet_identifier,
            properties: self.properties.duplicate(),
            subscriptions: self.subscriptions.duplicate(),
        }
    }
}

/// The body of a Subscribe packet decodes to the packet.
pub proof fn lemma_subscribe_write_then_parse(p: MSubscribeView)
    requires
        p.wf(),
    ensures
        spec_parse_subscribe(p.body()) == Some(p),
{
    reveal(spec_parse_subscribe);
    let subs = spec_subscriptions_body(p.subscriptions);
    let props = spec_properties(p.properties);
    let s = p.body();
    assert(s =~= spec_u16(p.packet_identifier) + (props + subs));
    lemma_packet_identifier_write_then_parse(p.packet_identifier, props + subs);
    assert(s.skip(2) =~= props + subs);
    lemma_properties_write_then_parse(PropertyScope::Subscribe, p.properties, subs);
    assert(s.skip(2 + props.len() as int) =~= subs);
    lemma_subscription_list_write_then_parse(p.subscriptions);
}

} // verus!
