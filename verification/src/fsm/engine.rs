//! The protocol engine itself: it holds the state and applies the rules.

use vstd::prelude::*;

use crate::error::ParseError;
use crate::fsm::action::ActionView;
use crate::fsm::action::DisconnectReason;
use crate::fsm::action::ExpectedAction;
use crate::fsm::action::MqttInstant;
use crate::fsm::action::ProtocolViolation;
use crate::fsm::action::spec_actions;
use crate::fsm::state::ConnectionLimits;
use crate::fsm::state::ConnectionPhase;
use crate::fsm::state::FsmState;
use crate::fsm::state::PublishError;
use crate::fsm::state::RequestError;
use crate::fsm::state::spec_limits;
use crate::fsm::state::spec_outgoing;
use crate::fsm::state::spec_ping_interval;
use crate::fsm::state::spec_pingresp_interval;
use crate::fsm::state::spec_replay;
use crate::fsm::state::spec_subscribe;
use crate::fsm::state::spec_unsubscribe;
use crate::identifier::ReceivedIdentifiers;
use crate::identifier::get_next_packet_ident;
use crate::key_order::lemma_u16_keys_are_ordered;
use crate::outstanding::OutstandingPackets;
use crate::packets::MqttPacket;
use crate::packets::MqttPacketView;
use crate::packets::auth::MAuth;
use crate::packets::auth::MAuthView;
use crate::packets::connack::MConnack;
use crate::packets::connect::MConnect;
use crate::packets::disconnect::MDisconnect;
use crate::packets::ping::MPingreq;
use crate::packets::puback::MPuback;
use crate::packets::pubcomp::MPubcomp;
use crate::packets::publish::MPublish;
use crate::packets::publish::MPublishView;
use crate::packets::pubrec::MPubrec;
use crate::packets::pubrel::MPubrel;
use crate::packets::subscribe::MSubscribe;
use crate::packets::subscribe::Subscription;
use crate::packets::subscribe::Subscriptions;
use crate::packets::subscribe::spec_subscription_views;
use crate::packets::unsubscribe::MUnsubscribe;
use crate::packets::unsubscribe::spec_topic_filters;
use crate::properties::PropertyValue;
use crate::property_id::PropertyId;
use crate::property_set::Properties;
use crate::qos::MaximumQualityOfService;
use crate::qos::QualityOfService;
use crate::reason_code::ConnectReasonCode;
use crate::reason_code::DisconnectReasonCode;
use crate::reason_code::PubackReasonCode;
use crate::reason_code::PubcompReasonCode;
use crate::reason_code::PubrecReasonCode;
use crate::reason_code::PubrelReasonCode;
use crate::strings::MqttString;
use crate::variable_header::PacketIdentifier;

verus! {

broadcast use vstd::std_specs::btree::group_btree_axioms;

/// The view of an optional Auth packet.
pub open spec fn spec_auth_view(p: Option<MAuth>) -> Option<MAuthView> {
    match p {
        Some(p) => Some(p@),
        None => None,
    }
}

/// The client protocol engine. It takes the calls of the application, the
/// packets of the server and the time, and answers with the actions that
/// the program driving it has to perform. It does no I/O and reads no
/// clock. The view is its state.
pub struct MqttClientFSM {
    phase: ConnectionPhase,
    clean_start: bool,
    keep_alive: u16,
    can_use_auth: bool,
    proposed_client_identifier: MqttString,
    client_identifier: Option<MqttString>,
    limits: ConnectionLimits,
    next_packet_identifier: PacketIdentifier,
    outstanding_packets: OutstandingPackets,
    received: ReceivedIdentifiers,
    last_sent: MqttInstant,
    ping_sent: Option<MqttInstant>,
    pending_auth: Option<MAuth>,
    connack_deadline: Option<MqttInstant>,
    topic_alias_maximum: u16,
    aliases: std::collections::BTreeMap<u16, MqttString>,
}

impl View for MqttClientFSM {
    type V = FsmState;

    closed spec fn view(&self) -> FsmState {
        FsmState {
            phase: self.phase,
            clean_start: self.clean_start,
            keep_alive: self.keep_alive,
            can_use_auth: self.can_use_auth,
            proposed_client_identifier: self.proposed_client_identifier@,
            client_identifier: crate::packets::connect::spec_string_view(self.client_identifier),
            limits: self.limits,
            cursor: self.next_packet_identifier@,
            order: self.outstanding_packets.order(),
            packets: self.outstanding_packets.packets(),
            received: self.received@,
            last_sent: self.last_sent,
            ping_sent: self.ping_sent,
            pending_auth: spec_auth_view(self.pending_auth),
            connack_deadline: self.connack_deadline,
            topic_alias_maximum: self.topic_alias_maximum,
            aliases: Map::new(
                |alias: u16| self.aliases@.contains_key(alias),
                |alias: u16| self.aliases@[alias]@,
            ),
        }
    }
}

/// The seconds without a sent packet after which a Pingreq packet is due.
pub fn ping_interval(keep_alive: u16) -> (r: u64)
    ensures
        r == spec_ping_interval(keep_alive),
{
    (8 * (keep_alive as u64) + 9) / 10
}

/// The seconds after a Pingreq packet within which the Pingresp packet must come.
pub fn pingresp_interval(keep_alive: u16) -> (r: u64)
    ensures
        r == spec_pingresp_interval(keep_alive),
{
    ((keep_alive as u64) + 1) / 2
}

/// Tells whether each topic filter of `subscriptions` is a topic filter.
fn subscription_filters_valid(subscriptions: &Subscriptions) -> (r: bool)
    ensures
        r == forall|i: int|
            0 <= i < subscriptions@.len() ==> crate::topic::spec_valid_topic_filter(
                (#[trigger] subscriptions@[i]).topic_filter,
            ),
{
    let mut i: usize = 0;
    while i < subscriptions.entries.len()
        invariant
            0 <= i <= subscriptions.entries@.len(),
            forall|j: int|
                0 <= j < i ==> crate::topic::spec_valid_topic_filter(
                    (#[trigger] subscriptions@[j]).topic_filter,
                ),
        decreases subscriptions.entries@.len() - i,
    {
        if !crate::topic::is_valid_topic_filter(&subscriptions.entries[i].topic_filter) {
            assert(subscriptions@[i as int].topic_filter
                == subscriptions.entries@[i as int].topic_filter@);
            return false;
        }
        assert(subscriptions@[i as int].topic_filter
            == subscriptions.entries@[i as int].topic_filter@);
        i = i + 1;
    }
    true
}

/// Tells whether each of `filters` is a topic filter.
fn topic_filters_valid(filters: &Vec<MqttString>) -> (r: bool)
    ensures
        r == forall|i: int|
            0 <= i < filters@.len() ==> crate::topic::spec_valid_topic_filter(
                #[trigger] spec_topic_filters(filters@)[i],
            ),
{
    let mut i: usize = 0;
    while i < filters.len()
        invariant
            0 <= i <= filters@.len(),
            forall|j: int|
                0 <= j < i ==> crate::topic::spec_valid_topic_filter(
                    #[trigger] spec_topic_filters(filters@)[j],
                ),
        decreases filters@.len() - i,
    {
        assert(spec_topic_filters(filters@)[i as int] == filters@[i as int]@);
        if !crate::topic::is_valid_topic_filter(&filters[i]) {
            return false;
        }
        i = i + 1;
    }
    true
}

/// The limits that a Connack packet with the properties `properties` announces.
pub fn limits_from(session_present: bool, properties: &Properties) -> (r: ConnectionLimits)
    ensures
        r == spec_limits(session_present, properties@),
{
    let receive_maximum = match properties.get(PropertyId::ReceiveMaximum) {
        Some(PropertyValue::TwoByteInteger(v)) => Some(*v),
        _ => None,
    };
    let maximum_qos = match properties.get(PropertyId::MaximumQoS) {
        Some(PropertyValue::Byte(v)) => if *v == 0 {
            Some(MaximumQualityOfService::AtMostOnce)
        } else {
            Some(MaximumQualityOfService::AtLeastOnce)
        },
        _ => None,
    };
    let retain_available = match properties.get(PropertyId::RetainAvailable) {
        Some(PropertyValue::Byte(v)) => Some(*v != 0),
        _ => None,
    };
    let topic_alias_maximum = match properties.get(PropertyId::TopicAliasMaximum) {
        Some(PropertyValue::TwoByteInteger(v)) => Some(*v),
        _ => None,
    };
    let maximum_packet_size = match properties.get(PropertyId::MaximumPacketSize) {
        Some(PropertyValue::FourByteInteger(v)) => Some(*v),
        _ => None,
    };
    ConnectionLimits {
        session_present,
        receive_maximum,
        maximum_qos,
        retain_available,
        topic_alias_maximum,
        maximum_packet_size,
    }
}

/// The actions that send the packets of `table` again, in the order in
/// which they were first sent.
pub fn replay(table: &OutstandingPackets) -> (r: Vec<ExpectedAction>)
    requires
        table.wf(),
    ensures
        spec_actions(r@) == spec_replay(table.order(), table.packets()),
{
    let stored = table.iter_in_send_order();
    let ghost order = table.order();
    let ghost packets = table.packets();
    let mut actions: Vec<ExpectedAction> = Vec::new();
    let mut i: usize = 0;
    assert(order.take(0) =~= Seq::<u16>::empty());
    assert(spec_actions(actions@) =~= spec_replay(order.take(0), packets));
    while i < stored.len()
        invariant
            0 <= i <= stored@.len(),
            stored@.len() == order.len(),
            forall|j: int|
                0 <= j < stored@.len() ==> (#[trigger] stored@[j]).0@ == order[j] && stored@[j].1@
                    == packets[order[j]],
            spec_actions(actions@) == spec_replay(order.take(i as int), packets),
        decreases stored@.len() - i,
    {
        let ghost before = spec_actions(actions@);
        proof {
            assert(order.take(i + 1).drop_last() =~= order.take(i as int));
            assert(order.take(i + 1).last() == order[i as int]);
            assert(stored@[i as int].1@ == packets[order[i as int]]);
        }
        match stored[i].1 {
            MqttPacket::Publish(p) => {
                let mut again = p.duplicate();
                again.duplicate = true;
                actions.push(ExpectedAction::SendPacket(MqttPacket::Publish(again)));
                assert(spec_actions(actions@) =~= before.push(actions@.last()@));
            },
            MqttPacket::Pubrel(p) => {
                actions.push(ExpectedAction::SendPacket(MqttPacket::Pubrel(p.duplicate())));
                assert(spec_actions(actions@) =~= before.push(actions@.last()@));
            },
            _ => {},
        }
        i = i + 1;
    }
    assert(order.take(i as int) =~= order);
    actions
}

impl MqttClientFSM {
    /// An engine that has no connection yet.
    pub fn new() -> (r: MqttClientFSM)
        ensures
            r@ == FsmState::initial(),
            r@.wf(),
    {
        let r = MqttClientFSM {
            phase: ConnectionPhase::Idle,
            clean_start: false,
            keep_alive: 0,
            can_use_auth: false,
            proposed_client_identifier: MqttString::empty(),
            client_identifier: None,
            limits: ConnectionLimits {
                session_present: false,
                receive_maximum: None,
                maximum_qos: None,
                retain_available: None,
                topic_alias_maximum: None,
                maximum_packet_size: None,
            },
            next_packet_identifier: PacketIdentifier::first(),
            outstanding_packets: OutstandingPackets::empty(),
            received: ReceivedIdentifiers::new(),
            last_sent: MqttInstant(0),
            ping_sent: None,
            pending_auth: None,
            connack_deadline: None,
            topic_alias_maximum: 0,
            aliases: std::collections::BTreeMap::new(),
        };
        assert(r@.aliases =~= Map::<u16, Seq<u8>>::empty());
        r
    }

    /// Where the connection stands.
    pub fn phase(&self) -> (r: ConnectionPhase)
        ensures
            r == self@.phase,
    {
        self.phase
    }

    /// What the server announced in its Connack packet.
    pub fn limits(&self) -> (r: ConnectionLimits)
        ensures
            r == self@.limits,
    {
        self.limits
    }

    /// The packets that await an acknowledgement.
    pub fn outstanding_packets(&self) -> (r: &OutstandingPackets)
        ensures
            r.wf() == self@.wf(),
            r.order() == self@.order,
            r.packets() == self@.packets,
    {
        &self.outstanding_packets
    }

    /// Notes that a packet was sent at `now`.
    pub fn note_sent(&mut self, now: MqttInstant)
        ensures
            final(self)@ == (FsmState { last_sent: now, ..old(self)@ }),
    {
        self.last_sent = now;
    }

    /// Forgets the session.
    fn clear_session(&mut self)
        requires
            old(self)@.wf(),
        ensures
            final(self)@ == old(self)@.without_session(),
            final(self)@.wf(),
    {
        self.client_identifier = None;
        self.outstanding_packets = OutstandingPackets::empty();
        self.received = ReceivedIdentifiers::new();
    }

    /// Forgets what was tied to the connection.
    fn end_connection(&mut self)
        requires
            old(self)@.wf(),
        ensures
            final(self)@ == old(self)@.disconnected(),
            final(self)@.wf(),
    {
        self.phase = ConnectionPhase::Disconnected;
        self.limits = ConnectionLimits {
            session_present: false,
            receive_maximum: None,
            maximum_qos: None,
            retain_available: None,
            topic_alias_maximum: None,
            maximum_packet_size: None,
        };
        self.ping_sent = None;
        self.pending_auth = None;
        self.connack_deadline = None;
        self.aliases = std::collections::BTreeMap::new();
        assert(self@.aliases =~= Map::<u16, Seq<u8>>::empty());
    }

    /// Makes an end of session and connection: the engine forgets the
    /// packets in flight, the messages that await their release, the
    /// client identifier, and what it knew of the connection.
    pub fn teardown(&mut self)
        requires
            old(self)@.wf(),
        ensures
            final(self)@ == old(self)@.torn_down(),
            final(self)@.wf(),
    {
        self.clear_session();
        self.end_connection();
        self.phase = ConnectionPhase::Idle;
        self.clean_start = false;
        self.keep_alive = 0;
        self.can_use_auth = false;
        self.proposed_client_identifier = MqttString::empty();
        self.next_packet_identifier = PacketIdentifier::first();
        self.topic_alias_maximum = 0;
    }

    /// Starts a connection: the engine awaits the server's answer to
    /// `connect`, which the program has to send. A clean start discards
    /// the session.
    pub fn handle_connect(&mut self, now: MqttInstant, connect: MConnect) -> (r: ExpectedAction)
        requires
            old(self)@.wf(),
        ensures
            final(self)@ == old(self)@.connect(now, connect@, None),
            r@ == ActionView::SendPacket(MqttPacketView::Connect(connect@)),
            final(self)@.wf(),
    {
        self.handle_connect_by(now, connect, None)
    }

    /// Starts a connection as `handle_connect` does, with a deadline: a
    /// poll at `deadline` or later ends the connection where the server
    /// has not accepted it by then.
    pub fn handle_connect_with_deadline(
        &mut self,
        now: MqttInstant,
        connect: MConnect,
        deadline: MqttInstant,
    ) -> (r: ExpectedAction)
        requires
            old(self)@.wf(),
        ensures
            final(self)@ == old(self)@.connect(now, connect@, Some(deadline)),
            r@ == ActionView::SendPacket(MqttPacketView::Connect(connect@)),
            final(self)@.wf(),
    {
        self.handle_connect_by(now, connect, Some(deadline))
    }

    /// Starts a connection that is to be accepted by `deadline`, where
    /// there is one.
    fn handle_connect_by(
        &mut self,
        now: MqttInstant,
        connect: MConnect,
        deadline: Option<MqttInstant>,
    ) -> (r: ExpectedAction)
        requires
            old(self)@.wf(),
        ensures
            final(self)@ == old(self)@.connect(now, connect@, deadline),
            r@ == ActionView::SendPacket(MqttPacketView::Connect(connect@)),
            final(self)@.wf(),
    {
        if connect.clean_start {
            self.clear_session();
        }
        self.phase = ConnectionPhase::Connecting;
        self.clean_start = connect.clean_start;
        self.keep_alive = connect.keep_alive;
        self.can_use_auth = connect.properties.get(PropertyId::AuthenticationData).is_some();
        self.proposed_client_identifier = connect.client_identifier.duplicate();
        self.limits = ConnectionLimits {
            session_present: false,
            receive_maximum: None,
            maximum_qos: None,
            retain_available: None,
            topic_alias_maximum: None,
            maximum_packet_size: None,
        };
        self.last_sent = now;
        self.ping_sent = None;
        self.pending_auth = None;
        self.connack_deadline = deadline;
        self.topic_alias_maximum = match connect.properties.get(PropertyId::TopicAliasMaximum) {
            Some(PropertyValue::TwoByteInteger(maximum)) => *maximum,
            _ => 0,
        };
        self.aliases = std::collections::BTreeMap::new();
        assert(self@.aliases =~= Map::<u16, Seq<u8>>::empty());
        ExpectedAction::SendPacket(MqttPacket::Connect(connect))
    }

    /// Ends the connection over the rule `violation` that the server broke.
    fn violation(&mut self, now: MqttInstant, violation: ProtocolViolation) -> (r: Vec<
        ExpectedAction,
    >)
        requires
            old(self)@.wf(),
        ensures
            (final(self)@, spec_actions(r@)) == old(self)@.violated(now, violation),
            final(self)@.wf(),
    {
        let connected = self.phase == ConnectionPhase::Connected;
        self.end_connection();
        let mut actions: Vec<ExpectedAction> = Vec::new();
        if connected {
            self.last_sent = now;
            actions.push(
                ExpectedAction::SendPacket(
                    MqttPacket::Disconnect(
                        MDisconnect {
                            reason_code: violation.reason_code(),
                            properties: Properties::new(),
                        },
                    ),
                ),
            );
        }
        actions.push(ExpectedAction::Disconnect(DisconnectReason::ProtocolError(violation)));
        proof {
            assert(spec_actions(actions@) =~= old(self)@.violated(now, violation).1);
        }
        actions
    }

    /// The client identifier of the session that a Connack packet with
    /// the properties `properties` opens.
    fn session_identifier(&self, properties: &Properties) -> (r: Option<MqttString>)
        ensures
            crate::packets::connect::spec_string_view(r) == self@.session_identifier(properties@),
    {
        let proposed = self.proposed_client_identifier.len() > 0;
        match properties.get(PropertyId::AssignedClientIdentifier) {
            Some(PropertyValue::Utf8String(assigned)) => if proposed {
                None
            } else {
                Some(assigned.duplicate())
            },
            _ => if proposed {
                Some(self.proposed_client_identifier.duplicate())
            } else {
                None
            },
        }
    }

    /// Applies a Connack packet to a client that awaits it.
    fn on_connack(&mut self, now: MqttInstant, p: MConnack) -> (r: Vec<ExpectedAction>)
        requires
            old(self)@.wf(),
        ensures
            (final(self)@, spec_actions(r@)) == old(self)@.on_connack(now, p@),
            final(self)@.wf(),
    {
        if p.reason_code != ConnectReasonCode::Success {
            self.end_connection();
            let mut actions: Vec<ExpectedAction> = Vec::new();
            actions.push(
                ExpectedAction::Disconnect(DisconnectReason::ConnectRejected(p.reason_code)),
            );
            assert(spec_actions(actions@) =~= old(self)@.on_connack(now, p@).1);
            return actions;
        }
        if p.session_present && self.clean_start {
            return self.violation(now, ProtocolViolation::SessionPresentAfterCleanStart);
        }
        let identifier = match self.session_identifier(&p.properties) {
            Some(identifier) => identifier,
            None => {
                return self.violation(now, ProtocolViolation::ClientIdentifierAssignment);
            },
        };
        let resumed = p.session_present && match &self.client_identifier {
            Some(held) => held.same(&identifier),
            None => false,
        };
        if !resumed {
            self.clear_session();
        }
        let actions = replay(&self.outstanding_packets);
        self.phase = ConnectionPhase::Connected;
        self.client_identifier = Some(identifier);
        self.limits = limits_from(p.session_present, &p.properties);
        self.next_packet_identifier = PacketIdentifier::first();
        if actions.len() > 0 {
            self.last_sent = now;
        }
        self.ping_sent = None;
        self.pending_auth = None;
        self.connack_deadline = None;
        actions
    }

    /// Applies an Auth packet.
    fn on_auth(&mut self, now: MqttInstant, p: MAuth) -> (r: Vec<ExpectedAction>)
        requires
            old(self)@.wf(),
        ensures
            (final(self)@, spec_actions(r@)) == old(self)@.on_auth(now, p@),
            final(self)@.wf(),
    {
        if !self.can_use_auth {
            return self.violation(now, ProtocolViolation::AuthenticationNotRequested);
        }
        if self.phase != ConnectionPhase::Connected {
            self.phase = ConnectionPhase::Authenticating;
        }
        self.pending_auth = Some(p);
        let actions: Vec<ExpectedAction> = Vec::new();
        assert(spec_actions(actions@) =~= Seq::<ActionView>::empty());
        actions
    }

    /// Applies a received Publish packet to a connected client.
    fn on_publish(&mut self, now: MqttInstant, p: MPublish) -> (r: Vec<ExpectedAction>)
        requires
            old(self)@.wf(),
        ensures
            (final(self)@, spec_actions(r@)) == old(self)@.on_publish(now, p@),
            final(self)@.wf(),
    {
        proof {
            lemma_u16_keys_are_ordered();
        }
        let alias = match p.properties.get(PropertyId::TopicAlias) {
            Some(PropertyValue::TwoByteInteger(alias)) => *alias,
            _ => {
                return self.deliver(now, p);
            },
        };
        if alias == 0 || alias > self.topic_alias_maximum {
            return self.violation(now, ProtocolViolation::TopicAliasInvalid);
        }
        if p.topic_name.len() > 0 {
            let _ = self.aliases.insert(alias, p.topic_name.duplicate());
            assert(self@.aliases =~= old(self)@.aliases.insert(alias, p@.topic_name));
            return self.deliver(now, p);
        }
        let topic_name = match self.aliases.get(&alias) {
            Some(topic) => topic.duplicate(),
            None => {
                return self.violation(now, ProtocolViolation::TopicAliasInvalid);
            },
        };
        let mut message = p;
        message.topic_name = topic_name;
        self.deliver(now, message)
    }

    /// Applies a received message, with its topic, to a connected client.
    fn deliver(&mut self, now: MqttInstant, p: MPublish) -> (r: Vec<ExpectedAction>)
        requires
            old(self)@.wf(),
        ensures
            (final(self)@, spec_actions(r@)) == old(self)@.deliver(now, p@),
            final(self)@.wf(),
    {
        let mut actions: Vec<ExpectedAction> = Vec::new();
        match (p.quality_of_service, p.packet_identifier) {
            (QualityOfService::AtMostOnce, _) => {
                actions.push(ExpectedAction::ReceivedPublish(p));
            },
            (QualityOfService::AtLeastOnce, Some(id)) => {
                self.last_sent = now;
                actions.push(
                    ExpectedAction::SendPacket(
                        MqttPacket::Puback(
                            MPuback {
                                packet_identifier: id,
                                reason: PubackReasonCode::Success,
                                properties: Properties::new(),
                            },
                        ),
                    ),
                );
                actions.push(ExpectedAction::ReceivedPublish(p));
            },
            (QualityOfService::ExactlyOnce, Some(id)) => {
                let fresh = self.received.insert(id);
                self.last_sent = now;
                actions.push(
                    ExpectedAction::SendPacket(
                        MqttPacket::Pubrec(
                            MPubrec {
                                packet_identifier: id,
                                reason: PubrecReasonCode::Success,
                                properties: Properties::new(),
                            },
                        ),
                    ),
                );
                if fresh {
                    actions.push(ExpectedAction::ReceivedPublish(p));
                }
            },
            (_, None) => {},
        }
        proof {
            assert(spec_actions(actions@) =~= old(self)@.deliver(now, p@).1);
        }
        actions
    }

    /// Applies a Pubrel packet to a connected client.
    fn on_pubrel(&mut self, now: MqttInstant, p: MPubrel) -> (r: Vec<ExpectedAction>)
        requires
            old(self)@.wf(),
        ensures
            (final(self)@, spec_actions(r@)) == old(self)@.on_pubrel(now, p@),
            final(self)@.wf(),
    {
        let id = p.packet_identifier;
        let held = self.received.remove(id);
        self.last_sent = now;
        let mut actions: Vec<ExpectedAction> = Vec::new();
        actions.push(
            ExpectedAction::SendPacket(
                MqttPacket::Pubcomp(
                    MPubcomp {
                        packet_identifier: id,
                        reason: if held {
                            PubcompReasonCode::Success
                        } else {
                            PubcompReasonCode::PacketIdentifierNotFound
                        },
                        properties: Properties::new(),
                    },
                ),
            ),
        );
        proof {
            assert(spec_actions(actions@) =~= old(self)@.on_pubrel(now, p@).1);
        }
        actions
    }

    /// Tells whether the packet in flight under `id` is a Publish packet
    /// of quality of service `qos`.
    fn awaits_publish_ack(&self, id: PacketIdentifier, qos: QualityOfService) -> (r: bool)
        ensures
            r == self@.awaits_publish_ack(id@, qos),
    {
        match self.outstanding_packets.get(id) {
            Some(MqttPacket::Publish(p)) => p.quality_of_service == qos,
            _ => false,
        }
    }

    /// Ends the exchange under `id`, where `awaited` says that the client
    /// awaited its end.
    fn release(&mut self, id: PacketIdentifier, awaited: bool) -> (r: Vec<ExpectedAction>)
        requires
            old(self)@.wf(),
        ensures
            (final(self)@, spec_actions(r@)) == old(self)@.released(id@, awaited),
            final(self)@.wf(),
    {
        let mut actions: Vec<ExpectedAction> = Vec::new();
        if awaited {
            self.outstanding_packets.remove_by_id(id);
            actions.push(ExpectedAction::ReleasePacket { id });
        }
        proof {
            assert(spec_actions(actions@) =~= old(self)@.released(id@, awaited).1);
        }
        actions
    }

    /// Applies a Pubrec packet to a connected client.
    fn on_pubrec(&mut self, now: MqttInstant, p: MPubrec) -> (r: Vec<ExpectedAction>)
        requires
            old(self)@.wf(),
        ensures
            (final(self)@, spec_actions(r@)) == old(self)@.on_pubrec(now, p@),
            final(self)@.wf(),
    {
        let id = p.packet_identifier;
        if !self.awaits_publish_ack(id, QualityOfService::ExactlyOnce) {
            let actions: Vec<ExpectedAction> = Vec::new();
            assert(spec_actions(actions@) =~= Seq::<ActionView>::empty());
            return actions;
        }
        if !p.reason.is_success() {
            return self.release(id, true);
        }
        self.outstanding_packets.update_by_id(
            id,
            MqttPacket::Pubrel(
                MPubrel {
                    packet_identifier: id,
                    reason: PubrelReasonCode::Success,
                    properties: Properties::new(),
                },
            ),
        );
        self.last_sent = now;
        let mut actions: Vec<ExpectedAction> = Vec::new();
        actions.push(
            ExpectedAction::SendPacket(
                MqttPacket::Pubrel(
                    MPubrel {
                        packet_identifier: id,
                        reason: PubrelReasonCode::Success,
                        properties: Properties::new(),
                    },
                ),
            ),
        );
        proof {
            assert(spec_actions(actions@) =~= old(self)@.on_pubrec(now, p@).1);
        }
        actions
    }

    /// Applies a packet of the server to a connected client.
    fn connected(&mut self, now: MqttInstant, packet: MqttPacket) -> (r: Vec<ExpectedAction>)
        requires
            old(self)@.wf(),
        ensures
            (final(self)@, spec_actions(r@)) == old(self)@.connected(now, packet@),
            final(self)@.wf(),
    {
        match packet {
            MqttPacket::Disconnect(p) => {
                self.end_connection();
                let mut actions: Vec<ExpectedAction> = Vec::new();
                actions.push(
                    ExpectedAction::Disconnect(
                        DisconnectReason::ServerDisconnected(p.reason_code),
                    ),
                );
                assert(spec_actions(actions@) =~= old(self)@.connected(now, packet@).1);
                actions
            },
            MqttPacket::Pingresp(_) => {
                self.ping_sent = None;
                let actions: Vec<ExpectedAction> = Vec::new();
                assert(spec_actions(actions@) =~= Seq::<ActionView>::empty());
                actions
            },
            MqttPacket::Publish(p) => self.on_publish(now, p),
            MqttPacket::Puback(p) => {
                let awaited = self.awaits_publish_ack(
                    p.packet_identifier,
                    QualityOfService::AtLeastOnce,
                );
                self.release(p.packet_identifier, awaited)
            },
            MqttPacket::Pubrec(p) => self.on_pubrec(now, p),
            MqttPacket::Pubrel(p) => self.on_pubrel(now, p),
            MqttPacket::Pubcomp(p) => {
                let awaited = match self.outstanding_packets.get(p.packet_identifier) {
                    Some(MqttPacket::Pubrel(_)) => true,
                    _ => false,
                };
                self.release(p.packet_identifier, awaited)
            },
            MqttPacket::Suback(p) => {
                let awaited = match self.outstanding_packets.get(p.packet_identifier) {
                    Some(MqttPacket::Subscribe(_)) => true,
                    _ => false,
                };
                self.release(p.packet_identifier, awaited)
            },
            MqttPacket::Unsuback(p) => {
                let awaited = match self.outstanding_packets.get(p.packet_identifier) {
                    Some(MqttPacket::Unsubscribe(_)) => true,
                    _ => false,
                };
                self.release(p.packet_identifier, awaited)
            },
            MqttPacket::Auth(p) => self.on_auth(now, p),
            _ => self.violation(now, ProtocolViolation::UnexpectedPacket),
        }
    }

    /// Takes a packet of the server, and tells what the program has to do
    /// about it. A client without a connection drops the packet.
    pub fn handle_packet(&mut self, now: MqttInstant, packet: MqttPacket) -> (r: Vec<
        ExpectedAction,
    >)
        requires
            old(self)@.wf(),
        ensures
            (final(self)@, spec_actions(r@)) == old(self)@.handle_packet(now, packet@),
            final(self)@.wf(),
    {
        let actions = match self.phase {
            ConnectionPhase::Idle | ConnectionPhase::Disconnected => {
                let actions: Vec<ExpectedAction> = Vec::new();
                assert(spec_actions(actions@) =~= Seq::<ActionView>::empty());
                actions
            },
            ConnectionPhase::Connecting | ConnectionPhase::Authenticating => match packet {
                MqttPacket::Connack(p) => self.on_connack(now, p),
                MqttPacket::Auth(p) => self.on_auth(now, p),
                _ => self.violation(now, ProtocolViolation::UnexpectedPacket),
            },
            ConnectionPhase::Connected => self.connected(now, packet),
        };
        actions
    }

    /// Takes bytes of the server that a frame of the transport holds,
    /// and tells what the program has to do about them.
    pub fn handle_incoming(&mut self, now: MqttInstant, bytes: &[u8]) -> (r: Vec<ExpectedAction>)
        requires
            old(self)@.wf(),
        ensures
            (final(self)@, spec_actions(r@)) == old(self)@.handle_incoming(now, bytes@),
            final(self)@.wf(),
    {
        match MqttPacket::parse_complete(bytes) {
            Ok(packet) => self.handle_packet(now, packet),
            Err(ParseError::Incomplete(_)) => {
                let actions: Vec<ExpectedAction> = Vec::new();
                assert(spec_actions(actions@) =~= Seq::<ActionView>::empty());
                actions
            },
            Err(ParseError::Malformed) => {
                let mut actions: Vec<ExpectedAction> = Vec::new();
                match self.phase {
                    ConnectionPhase::Idle | ConnectionPhase::Disconnected => {},
                    ConnectionPhase::Connected => {
                        self.end_connection();
                        self.last_sent = now;
                        actions.push(
                            ExpectedAction::SendPacket(
                                MqttPacket::Disconnect(
                                    MDisconnect {
                                        reason_code: DisconnectReasonCode::MalformedPacket,
                                        properties: Properties::new(),
                                    },
                                ),
                            ),
                        );
                        actions.push(
                            ExpectedAction::Disconnect(DisconnectReason::MalformedPacket),
                        );
                    },
                    _ => {
                        self.end_connection();
                        actions.push(
                            ExpectedAction::Disconnect(DisconnectReason::MalformedPacket),
                        );
                    },
                }
                proof {
                    assert(spec_actions(actions@) =~= old(self)@.handle_incoming(now, bytes@).1);
                }
                actions
            },
        }
    }

    /// Tells why the engine does not take the message `packet`, but for
    /// want of a packet identifier; nothing where nothing speaks against it.
    fn publish_refusal(&self, packet: &MPublish) -> (r: Option<PublishError>)
        requires
            packet@.packet_identifier == if packet@.quality_of_service
                == QualityOfService::AtMostOnce {
                None
            } else {
                Some(1u16)
            },
            !packet@.duplicate,
        ensures
            match r {
                Some(e) => self@.publish_refusal(packet@) == Some(e) && e
                    != PublishError::PacketIdentifierExhausted,
                None => self@.publish_refusal(packet@) is None || self@.publish_refusal(packet@)
                    == Some(PublishError::PacketIdentifierExhausted),
            },
            r is None ==> packet@.wf(),
    {
        assert(spec_outgoing(packet@, packet@.packet_identifier) == packet@);
        if self.phase != ConnectionPhase::Connected {
            return Some(PublishError::NotConnected);
        }
        if packet.retain {
            match self.limits.retain_available {
                Some(false) => {
                    return Some(PublishError::RetainNotAvailable);
                },
                _ => {},
            }
        }
        match self.limits.maximum_qos {
            Some(m) => {
                if !m.permits(packet.quality_of_service) {
                    return Some(PublishError::QosNotSupported);
                }
            },
            None => {},
        }
        if !crate::topic::is_valid_topic_name(&packet.topic_name) {
            return Some(PublishError::InvalidTopic);
        }
        if !packet.is_valid() {
            return Some(PublishError::InvalidPacket);
        }
        match self.limits.maximum_packet_size {
            Some(max) => {
                let body = packet.binary_size();
                proof {
                    crate::integers::lemma_variable_u32_write_then_parse(body, Seq::empty());
                }
                let size = 1 + crate::integers::variable_u32_binary_size(body) + body;
                if size > max {
                    return Some(PublishError::PacketTooLarge);
                }
            },
            None => {},
        }
        None
    }

    /// Takes a message of the application. The engine makes a Publish
    /// packet of it: not a duplicate, and under a fresh packet identifier
    /// where the quality of service is above 0; the identifier that
    /// `publish` may hold is not used. The packet is then in flight, and
    /// the publisher that comes back tells the program what to do with it.
    ///
    /// Fails, with the state as it was, where the client is not
    /// connected, where the server does not take such a message, where
    /// the packet cannot go on the wire, and where no identifier is free.
    pub fn publish(&mut self, publish: MPublish) -> (r: Result<Publisher, PublishError>)
        requires
            old(self)@.wf(),
        ensures
            final(self)@.wf(),
            match r {
                Ok(publisher) => {
                    &&& old(self)@.publish_refusal(publish@) is None
                    &&& publisher@.packet.wf()
                    &&& publisher@.stage == if publisher@.packet.packet_identifier is Some {
                        PublishStage::Store
                    } else {
                        PublishStage::Send
                    }
                    &&& match publisher@.packet.packet_identifier {
                        None => publish@.quality_of_service == QualityOfService::AtMostOnce
                            && publisher@.packet == spec_outgoing(publish@, None) && final(self)@
                            == old(self)@,
                        Some(id) => {
                            &&& publish@.quality_of_service != QualityOfService::AtMostOnce
                            &&& id != 0
                            &&& !old(self)@.in_use(id)
                            &&& publisher@.packet == spec_outgoing(publish@, Some(id))
                            &&& final(self)@ == old(self)@.with_packet(
                                id,
                                MqttPacketView::Publish(publisher@.packet),
                            )
                        },
                    }
                },
                Err(e) => old(self)@.publish_refusal(publish@) == Some(e) && final(self)@ == old(
                    self,
                )@,
            },
    {
        let mut packet = publish;
        packet.duplicate = false;
        let acknowledged = packet.quality_of_service != QualityOfService::AtMostOnce;
        packet.packet_identifier = if acknowledged {
            Some(PacketIdentifier::first())
        } else {
            None
        };
        proof {
            assert(packet@ == spec_outgoing(publish@, packet@.packet_identifier));
            assert(self@.publish_refusal(packet@) == self@.publish_refusal(publish@));
        }
        match self.publish_refusal(&packet) {
            Some(e) => {
                return Err(e);
            },
            None => {},
        }
        if !acknowledged {
            return Ok(Publisher { packet, stage: PublishStage::Send });
        }
        let id = match get_next_packet_ident(
            &mut self.next_packet_identifier,
            &self.outstanding_packets,
            &self.received,
        ) {
            Ok(id) => id,
            Err(_) => {
                proof {
                    assert forall|x: u16| x != 0 implies old(self)@.in_use(x) by {
                        assert(crate::identifier::spec_in_use(
                            x,
                            &self.outstanding_packets,
                            &self.received,
                        ));
                    }
                }
                return Err(PublishError::PacketIdentifierExhausted);
            },
        };
        proof {
            assert(!crate::identifier::spec_in_use(
                id@,
                &self.outstanding_packets,
                &self.received,
            ));
            assert(!old(self)@.in_use(id@));
        }
        packet.packet_identifier = Some(id);
        proof {
            assert(packet@ == spec_outgoing(publish@, Some(id@)));
            assert(packet@.body().len() == spec_outgoing(publish@, Some(1u16)).body().len());
            assert(!old(self)@.exhausted());
        }
        self.outstanding_packets.insert(id, MqttPacket::Publish(packet.duplicate()));
        Ok(Publisher { packet, stage: PublishStage::Store })
    }

    /// Takes a request to subscribe. The Subscribe packet that comes
    /// back, to be sent, is in flight under a fresh packet identifier.
    ///
    /// Fails, with the state as it was, where the client is not
    /// connected, where the packet cannot go on the wire (there is no
    /// subscription, or they are too long), and where no identifier is free.
    pub fn subscribe(&mut self, now: MqttInstant, subscriptions: Vec<Subscription>) -> (r: Result<
        ExpectedAction,
        RequestError,
    >)
        requires
            old(self)@.wf(),
        ensures
            final(self)@.wf(),
            match r {
                Ok(action) => action@ matches ActionView::SendPacket(
                    MqttPacketView::Subscribe(p),
                ) && {
                    let id = p.packet_identifier;
                    &&& p == spec_subscribe(id, spec_subscription_views(subscriptions@))
                    &&& id != 0
                    &&& !old(self)@.in_use(id)
                    &&& old(self)@.request_refusal(MqttPacketView::Subscribe(p)) is None
                    &&& final(self)@ == (FsmState {
                        last_sent: now,
                        ..old(self)@.with_packet(id, MqttPacketView::Subscribe(p))
                    })
                },
                Err(e) => old(self)@.request_refusal(
                    MqttPacketView::Subscribe(
                        spec_subscribe(1, spec_subscription_views(subscriptions@)),
                    ),
                ) == Some(e) && final(self)@ == old(self)@,
            },
    {
        let mut packet = MSubscribe {
            packet_identifier: PacketIdentifier::first(),
            properties: Properties::new(),
            subscriptions: Subscriptions { entries: subscriptions },
        };
        let ghost subs = spec_subscription_views(subscriptions@);
        assert(packet@ == spec_subscribe(1, subs));
        if self.phase != ConnectionPhase::Connected {
            return Err(RequestError::NotConnected);
        }
        if !subscription_filters_valid(&packet.subscriptions) {
            return Err(RequestError::InvalidTopicFilter);
        }
        if !packet.is_valid() {
            return Err(RequestError::InvalidPacket);
        }
        let id = match get_next_packet_ident(
            &mut self.next_packet_identifier,
            &self.outstanding_packets,
            &self.received,
        ) {
            Ok(id) => id,
            Err(_) => {
                proof {
                    assert forall|x: u16| x != 0 implies old(self)@.in_use(x) by {
                        assert(crate::identifier::spec_in_use(
                            x,
                            &self.outstanding_packets,
                            &self.received,
                        ));
                    }
                }
                return Err(RequestError::PacketIdentifierExhausted);
            },
        };
        proof {
            assert(!crate::identifier::spec_in_use(
                id@,
                &self.outstanding_packets,
                &self.received,
            ));
            assert(!old(self)@.in_use(id@));
        }
        packet.packet_identifier = id;
        proof {
            assert(packet@ == spec_subscribe(id@, subs));
            assert(packet@.body().len() == spec_subscribe(1, subs).body().len());
            assert(!old(self)@.exhausted());
        }
        self.outstanding_packets.insert(id, MqttPacket::Subscribe(packet.duplicate()));
        self.last_sent = now;
        Ok(ExpectedAction::SendPacket(MqttPacket::Subscribe(packet)))
    }

    /// Takes a request to unsubscribe. The Unsubscribe packet that comes
    /// back, to be sent, is in flight under a fresh packet identifier.
    ///
    /// Fails, with the state as it was, where the client is not
    /// connected, where the packet cannot go on the wire (there is no
    /// topic filter, or they are too long), and where no identifier is free.
    pub fn unsubscribe(&mut self, now: MqttInstant, filters: Vec<MqttString>) -> (r: Result<
        ExpectedAction,
        RequestError,
    >)
        requires
            old(self)@.wf(),
        ensures
            final(self)@.wf(),
            match r {
                Ok(action) => action@ matches ActionView::SendPacket(
                    MqttPacketView::Unsubscribe(p),
                ) && {
                    let id = p.packet_identifier;
                    &&& p == spec_unsubscribe(id, spec_topic_filters(filters@))
                    &&& id != 0
                    &&& !old(self)@.in_use(id)
                    &&& old(self)@.request_refusal(MqttPacketView::Unsubscribe(p)) is None
                    &&& final(self)@ == (FsmState {
                        last_sent: now,
                        ..old(self)@.with_packet(id, MqttPacketView::Unsubscribe(p))
                    })
                },
                Err(e) => old(self)@.request_refusal(
                    MqttPacketView::Unsubscribe(spec_unsubscribe(1, spec_topic_filters(filters@))),
                ) == Some(e) && final(self)@ == old(self)@,
            },
    {
        let mut packet = MUnsubscribe {
            packet_identifier: PacketIdentifier::first(),
            properties: Properties::new(),
            unsubscriptions: filters,
        };
        let ghost all = spec_topic_filters(filters@);
        assert(packet@ == spec_unsubscribe(1, all));
        if self.phase != ConnectionPhase::Connected {
            return Err(RequestError::NotConnected);
        }
        if !topic_filters_valid(&packet.unsubscriptions) {
            return Err(RequestError::InvalidTopicFilter);
        }
        if !packet.is_valid() {
            return Err(RequestError::InvalidPacket);
        }
        let id = match get_next_packet_ident(
            &mut self.next_packet_identifier,
            &self.outstanding_packets,
            &self.received,
        ) {
            Ok(id) => id,
            Err(_) => {
                proof {
                    assert forall|x: u16| x != 0 implies old(self)@.in_use(x) by {
                        assert(crate::identifier::spec_in_use(
                            x,
                            &self.outstanding_packets,
                            &self.received,
                        ));
                    }
                }
                return Err(RequestError::PacketIdentifierExhausted);
            },
        };
        proof {
            assert(!crate::identifier::spec_in_use(
                id@,
                &self.outstanding_packets,
                &self.received,
            ));
            assert(!old(self)@.in_use(id@));
        }
        packet.packet_identifier = id;
        proof {
            assert(packet@ == spec_unsubscribe(id@, all));
            assert(packet@.body().len() == spec_unsubscribe(1, all).body().len());
            assert(!old(self)@.exhausted());
        }
        self.outstanding_packets.insert(id, MqttPacket::Unsubscribe(packet.duplicate()));
        self.last_sent = now;
        Ok(ExpectedAction::SendPacket(MqttPacket::Unsubscribe(packet)))
    }

    /// Takes note that the transport is closed: the connection has ended.
    /// The session stays.
    pub fn transport_closed(&mut self)
        requires
            old(self)@.wf(),
        ensures
            final(self)@ == old(self)@.disconnected(),
            final(self)@.wf(),
    {
        self.end_connection();
    }

    /// Takes back a packet that was put in flight and could not be sent:
    /// the packet under `id` is no longer in flight, and its identifier is
    /// free again. Nothing changes where no packet is in flight under `id`.
    pub fn abandon(&mut self, id: PacketIdentifier) -> (r: Vec<ExpectedAction>)
        requires
            old(self)@.wf(),
        ensures
            (final(self)@, spec_actions(r@)) == old(self)@.released(
                id@,
                old(self)@.packets.contains_key(id@),
            ),
            final(self)@.wf(),
    {
        let held = self.outstanding_packets.exists_outstanding_packet(id);
        self.release(id, held)
    }

    /// Ends the connection of a connected client: the Disconnect packet
    /// that comes back is to be sent. Nothing comes back, and nothing
    /// changes, where the client is not connected.
    pub fn disconnect(&mut self, now: MqttInstant) -> (r: Option<ExpectedAction>)
        requires
            old(self)@.wf(),
        ensures
            final(self)@.wf(),
            match r {
                Some(action) => {
                    &&& old(self)@.phase == ConnectionPhase::Connected
                    &&& action@ == ActionView::SendPacket(
                        crate::fsm::state::spec_disconnect(
                            DisconnectReasonCode::NormalDisconnection,
                        ),
                    )
                    &&& final(self)@ == (FsmState { last_sent: now, ..old(self)@.disconnected() })
                },
                None => old(self)@.phase != ConnectionPhase::Connected && final(self)@ == old(
                    self,
                )@,
            },
    {
        if self.phase != ConnectionPhase::Connected {
            return None;
        }
        self.end_connection();
        self.last_sent = now;
        Some(
            ExpectedAction::SendPacket(
                MqttPacket::Disconnect(
                    MDisconnect {
                        reason_code: DisconnectReasonCode::NormalDisconnection,
                        properties: Properties::new(),
                    },
                ),
            ),
        )
    }

    /// The Auth packet of the server that the application has to answer.
    pub fn pending_auth(&self) -> (r: Option<&MAuth>)
        ensures
            match r {
                Some(p) => self@.pending_auth == Some(p@),
                None => self@.pending_auth is None,
            },
    {
        self.pending_auth.as_ref()
    }

    /// Takes the application's answer to the Auth packet of the server:
    /// the Auth packet that comes back is to be sent. Nothing comes back,
    /// and nothing changes, where no Auth packet awaits an answer.
    pub fn authenticate(&mut self, now: MqttInstant, answer: MAuth) -> (r: Option<ExpectedAction>)
        requires
            old(self)@.wf(),
        ensures
            final(self)@.wf(),
            match r {
                Some(action) => {
                    &&& old(self)@.pending_auth is Some
                    &&& action@ == ActionView::SendPacket(MqttPacketView::Auth(answer@))
                    &&& final(self)@ == (FsmState {
                        pending_auth: None,
                        last_sent: now,
                        ..old(self)@
                    })
                },
                None => old(self)@.pending_auth is None && final(self)@ == old(self)@,
            },
    {
        if self.pending_auth.is_none() {
            return None;
        }
        self.pending_auth = None;
        self.last_sent = now;
        Some(ExpectedAction::SendPacket(MqttPacket::Auth(answer)))
    }

    /// Lets time pass: tells what is due at `now`.
    ///
    /// A client that awaits the server's answer to its Connect packet
    /// ends the connection once the deadline has come, where the
    /// application set one. A connected client with a keep-alive interval
    /// ends the connection where a Pingreq packet is unanswered for half
    /// the interval, and is to send a Pingreq packet where no packet was
    /// sent for eight tenths of the interval. Where nothing is due yet,
    /// the engine asks to be polled again when it is. A client of which
    /// time asks nothing gets nothing back.
    pub fn poll(&mut self, now: MqttInstant) -> (r: Option<ExpectedAction>)
        requires
            old(self)@.wf(),
        ensures
            final(self)@ == old(self)@.poll(now).0,
            match r {
                Some(action) => old(self)@.poll(now).1 == Some(action@),
                None => old(self)@.poll(now).1 is None,
            },
            final(self)@.wf(),
    {
        if self.phase == ConnectionPhase::Connecting || self.phase
            == ConnectionPhase::Authenticating {
            return match self.connack_deadline {
                Some(deadline) => if now.0 >= deadline.0 {
                    self.end_connection();
                    Some(ExpectedAction::Disconnect(DisconnectReason::ConnackTimeout))
                } else {
                    Some(ExpectedAction::ScheduleWakeup(deadline))
                },
                None => None,
            };
        }
        if self.phase != ConnectionPhase::Connected || self.keep_alive == 0 {
            return None;
        }
        match self.ping_sent {
            Some(sent) => {
                let interval = pingresp_interval(self.keep_alive);
                if sent.elapsed_seconds(now) >= interval {
                    self.end_connection();
                    Some(ExpectedAction::Disconnect(DisconnectReason::KeepAliveTimeout))
                } else {
                    Some(ExpectedAction::ScheduleWakeup(sent.after(interval)))
                }
            },
            None => {
                let interval = ping_interval(self.keep_alive);
                if self.last_sent.elapsed_seconds(now) >= interval {
                    self.last_sent = now;
                    self.ping_sent = Some(now);
                    Some(ExpectedAction::SendPacket(MqttPacket::Pingreq(MPingreq)))
                } else {
                    Some(ExpectedAction::ScheduleWakeup(self.last_sent.after(interval)))
                }
            },
        }
    }
}

/// How far the program has come with a message.
#[derive(Debug, Clone, Copy, PartialEq, Eq, Hash, Structural)]
pub enum PublishStage {
    /// The packet is to be stored: it awaits an acknowledgement.
    Store,
    /// The packet is to be sent.
    Send,
    /// Nothing is left to do.
    Done,
}

/// What the engine hands out for a message that it took: run it to learn,
/// step by step, what to do with the packet.
pub struct Publisher {
    packet: MPublish,
    stage: PublishStage,
}

/// A publisher as contracts see it.
pub struct PublisherView {
    pub packet: MPublishView,
    pub stage: PublishStage,
}

impl View for Publisher {
    type V = PublisherView;

    closed spec fn view(&self) -> PublisherView {
        PublisherView { packet: self.packet@, stage: self.stage }
    }
}

impl PublisherView {
    /// The next step with the packet: a packet under an identifier is
    /// stored first; then the packet is sent; then nothing is left.
    pub open spec fn next(self) -> (PublisherView, Option<ActionView>) {
        match (self.stage, self.packet.packet_identifier) {
            (PublishStage::Store, Some(id)) => (
                PublisherView { stage: PublishStage::Send, ..self },
                Some(
                    ActionView::StorePacket { id, packet: MqttPacketView::Publish(self.packet) },
                ),
            ),
            (PublishStage::Done, _) => (self, None),
            _ => (
                PublisherView { stage: PublishStage::Done, ..self },
                Some(ActionView::SendPacket(MqttPacketView::Publish(self.packet))),
            ),
        }
    }
}

/// A message of quality of service 0 is sent and nothing else: a publisher
/// for a packet without an identifier never asks to store or to release.
pub proof fn lemma_unacknowledged_message_is_only_sent(publisher: PublisherView)
    requires
        publisher.packet.packet_identifier is None,
    ensures
        publisher.next().1 matches Some(action) ==> action == ActionView::SendPacket(
            MqttPacketView::Publish(publisher.packet),
        ) && publisher.next().0.next().1 is None,
{
}

impl Publisher {
    /// The packet identifier of the message, where it has one.
    pub fn packet_identifier(&self) -> (r: Option<PacketIdentifier>)
        ensures
            crate::packets::publish::spec_identifier_value(r) == self@.packet.packet_identifier,
    {
        self.packet.packet_identifier
    }

    /// Tells the next thing to do with the message, and nothing once all
    /// is done. When the packet is to be sent, `engine` takes `now` as
    /// the time of its last sent packet.
    pub fn run(&mut self, engine: &mut MqttClientFSM, now: MqttInstant) -> (r: Option<
        ExpectedAction,
    >)
        requires
            old(engine)@.wf(),
        ensures
            final(engine)@.wf(),
            final(self)@ == old(self)@.next().0,
            match r {
                Some(action) => old(self)@.next().1 == Some(action@),
                None => old(self)@.next().1 is None,
            },
            final(engine)@ == if old(self)@.next().1 matches Some(ActionView::SendPacket(_)) {
                FsmState { last_sent: now, ..old(engine)@ }
            } else {
                old(engine)@
            },
    {
        match (self.stage, self.packet.packet_identifier) {
            (PublishStage::Store, Some(id)) => {
                self.stage = PublishStage::Send;
                Some(
                    ExpectedAction::StorePacket {
                        id,
                        packet: MqttPacket::Publish(self.packet.duplicate()),
                    },
                )
            },
            (PublishStage::Done, _) => None,
            _ => {
                self.stage = PublishStage::Done;
                engine.note_sent(now);
                Some(ExpectedAction::SendPacket(MqttPacket::Publish(self.packet.duplicate())))
            },
        }
    }
}

} // verus!
