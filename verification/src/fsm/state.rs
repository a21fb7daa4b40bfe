//! The state of the protocol engine as contracts see it, and the engine's
//! rules: what each event makes of a state, and which actions it asks for.

use vstd::prelude::*;

use crate::error::ParseError;
use crate::fsm::action::ActionView;
use crate::fsm::action::DisconnectReason;
use crate::fsm::action::MqttInstant;
use crate::fsm::action::ProtocolViolation;
use crate::packets::MqttPacketView;
use crate::packets::auth::MAuthView;
use crate::packets::connack::MConnackView;
use crate::packets::connect::MConnectView;
use crate::packets::disconnect::MDisconnectView;
use crate::packets::puback::MPubackView;
use crate::packets::pubcomp::MPubcompView;
use crate::packets::publish::MPublishView;
use crate::packets::pubrec::MPubrecView;
use crate::packets::pubrel::MPubrelView;
use crate::packets::spec_parse_complete;
use crate::packets::subscribe::MSubscribeView;
use crate::packets::subscribe::SubscriptionView;
use crate::packets::unsubscribe::MUnsubscribeView;
use crate::properties::PropertyValueView;
use crate::properties::PropertyView;
use crate::property_id::PropertyId;
use crate::property_set::spec_property_value;
use crate::qos::MaximumQualityOfService;
use crate::qos::QualityOfService;
use crate::reason_code::ConnectReasonCode;
use crate::reason_code::DisconnectReasonCode;
use crate::reason_code::PubackReasonCode;
use crate::reason_code::PubcompReasonCode;
use crate::reason_code::PubrecReasonCode;
use crate::reason_code::PubrelReasonCode;

verus! {

/// Where a connection stands.
#[derive(Debug, Clone, Copy, PartialEq, Eq, Hash, Structural)]
pub enum ConnectionPhase {
    /// No connection was asked for yet.
    Idle,
    /// A Connect packet was sent and the answer is awaited.
    Connecting,
    /// The server asked for a step of extended authentication.
    Authenticating,
    /// The server accepted the connection.
    Connected,
    /// The connection has ended.
    Disconnected,
}

/// What the server announced in its Connack packet.
#[derive(Debug, Clone, Copy, PartialEq, Eq, Structural)]
pub struct ConnectionLimits {
    pub session_present: bool,
    pub receive_maximum: Option<u16>,
    pub maximum_qos: Option<MaximumQualityOfService>,
    pub retain_available: Option<bool>,
    pub topic_alias_maximum: Option<u16>,
    pub maximum_packet_size: Option<u32>,
}

/// The limits of a client without a connection: nothing is announced.
pub open spec fn spec_no_limits() -> ConnectionLimits {
    ConnectionLimits {
        session_present: false,
        receive_maximum: None,
        maximum_qos: None,
        retain_available: None,
        topic_alias_maximum: None,
        maximum_packet_size: None,
    }
}

/// The value of two bytes under `id` in `ps`.
pub open spec fn spec_two_byte_property(ps: Seq<PropertyView>, id: PropertyId) -> Option<u16> {
    match spec_property_value(ps, id) {
        Some(PropertyValueView::TwoByteInteger(v)) => Some(v),
        _ => None,
    }
}

/// The value of four bytes under `id` in `ps`.
pub open spec fn spec_four_byte_property(ps: Seq<PropertyView>, id: PropertyId) -> Option<u32> {
    match spec_property_value(ps, id) {
        Some(PropertyValueView::FourByteInteger(v)) => Some(v),
        _ => None,
    }
}

/// The byte under `id` in `ps`.
pub open spec fn spec_byte_property(ps: Seq<PropertyView>, id: PropertyId) -> Option<u8> {
    match spec_property_value(ps, id) {
        Some(PropertyValueView::Byte(v)) => Some(v),
        _ => None,
    }
}

/// The string under `id` in `ps`.
pub open spec fn spec_string_property(ps: Seq<PropertyView>, id: PropertyId) -> Option<Seq<u8>> {
    match spec_property_value(ps, id) {
        Some(PropertyValueView::Utf8String(v)) => Some(v),
        _ => None,
    }
}

/// The limits that a Connack packet with the properties `ps` announces.
pub open spec fn spec_limits(session_present: bool, ps: Seq<PropertyView>) -> ConnectionLimits {
    ConnectionLimits {
        session_present,
        receive_maximum: spec_two_byte_property(ps, PropertyId::ReceiveMaximum),
        maximum_qos: match spec_byte_property(ps, PropertyId::MaximumQoS) {
            Some(v) => if v == 0 {
                Some(MaximumQualityOfService::AtMostOnce)
            } else {
                Some(MaximumQualityOfService::AtLeastOnce)
            },
            None => None,
        },
        retain_available: match spec_byte_property(ps, PropertyId::RetainAvailable) {
            Some(v) => Some(v != 0),
            None => None,
        },
        topic_alias_maximum: spec_two_byte_property(ps, PropertyId::TopicAliasMaximum),
        maximum_packet_size: spec_four_byte_property(ps, PropertyId::MaximumPacketSize),
    }
}

/// The seconds without a sent packet after which a Pingreq packet is due:
/// eight tenths of the keep-alive interval, rounded up.
pub open spec fn spec_ping_interval(keep_alive: u16) -> u64 {
    ((8 * keep_alive + 9) / 10) as u64
}

/// The seconds after a Pingreq packet within which the Pingresp packet
/// must come: half the keep-alive interval, rounded up.
pub open spec fn spec_pingresp_interval(keep_alive: u16) -> u64 {
    ((keep_alive + 1) / 2) as u64
}

/// The actions that send the stored packets again, in the order in which
/// they were first sent: a stored Publish packet marked as a duplicate, a
/// stored Pubrel packet as it is. Other stored packets are not sent again.
pub open spec fn spec_replay(order: Seq<u16>, packets: Map<u16, MqttPacketView>) -> Seq<ActionView>
    decreases order.len(),
{
    if order.len() == 0 {
        Seq::empty()
    } else {
        let before = spec_replay(order.drop_last(), packets);
        match packets[order.last()] {
            MqttPacketView::Publish(p) => before.push(
                ActionView::SendPacket(
                    MqttPacketView::Publish(MPublishView { duplicate: true, ..p }),
                ),
            ),
            MqttPacketView::Pubrel(p) => before.push(
                ActionView::SendPacket(MqttPacketView::Pubrel(p)),
            ),
            _ => before,
        }
    }
}

/// The state of the engine.
pub struct FsmState {
    /// Where the connection stands.
    pub phase: ConnectionPhase,
    /// Whether the client asked the server to discard the session.
    pub clean_start: bool,
    /// The keep-alive interval in seconds; 0 where the client sends no pings.
    pub keep_alive: u16,
    /// Whether the client offered extended authentication.
    pub can_use_auth: bool,
    /// The client identifier that the client proposed; empty where the
    /// server is to assign one.
    pub proposed_client_identifier: Seq<u8>,
    /// The client identifier of the session, where there is a session.
    pub client_identifier: Option<Seq<u8>>,
    /// What the server announced.
    pub limits: ConnectionLimits,
    /// Where the search for a free packet identifier starts.
    pub cursor: u16,
    /// The identifiers of the packets that await an acknowledgement, in
    /// the order in which the packets were first sent.
    pub order: Seq<u16>,
    /// These packets, each under its identifier.
    pub packets: Map<u16, MqttPacketView>,
    /// The identifiers of the received messages of quality of service 2
    /// that the server has not released yet.
    pub received: Set<u16>,
    /// When a packet was last sent.
    pub last_sent: MqttInstant,
    /// When a Pingreq packet was sent that is not answered yet.
    pub ping_sent: Option<MqttInstant>,
    /// The Auth packet of the server that the application has to answer.
    pub pending_auth: Option<MAuthView>,
    /// The instant by which the server must have accepted the connection,
    /// where the application set one and the answer is still awaited.
    pub connack_deadline: Option<MqttInstant>,
    /// The highest topic alias that the client takes; 0 where it takes none.
    pub topic_alias_maximum: u16,
    /// The topics that the server bound to topic aliases on this connection.
    pub aliases: Map<u16, Seq<u8>>,
}

/// A Puback packet that acknowledges the publish under `id`.
pub open spec fn spec_puback(id: u16) -> MqttPacketView {
    MqttPacketView::Puback(
        MPubackView {
            packet_identifier: id,
            reason: PubackReasonCode::Success,
            properties: Seq::empty(),
        },
    )
}

/// A Pubrec packet that confirms the receipt of the publish under `id`.
pub open spec fn spec_pubrec(id: u16) -> MqttPacketView {
    MqttPacketView::Pubrec(
        MPubrecView {
            packet_identifier: id,
            reason: PubrecReasonCode::Success,
            properties: Seq::empty(),
        },
    )
}

/// A Pubrel packet that releases the publish under `id`.
pub open spec fn spec_pubrel(id: u16) -> MqttPacketView {
    MqttPacketView::Pubrel(
        MPubrelView {
            packet_identifier: id,
            reason: PubrelReasonCode::Success,
            properties: Seq::empty(),
        },
    )
}

/// A Pubcomp packet that completes the publish under `id`, with `reason`.
pub open spec fn spec_pubcomp(id: u16, reason: PubcompReasonCode) -> MqttPacketView {
    MqttPacketView::Pubcomp(
        MPubcompView { packet_identifier: id, reason, properties: Seq::empty() },
    )
}

/// A Disconnect packet with `reason` and no properties.
pub open spec fn spec_disconnect(reason: DisconnectReasonCode) -> MqttPacketView {
    MqttPacketView::Disconnect(MDisconnectView { reason_code: reason, properties: Seq::empty() })
}

impl FsmState {
    /// The state of an engine that was just made.
    pub open spec fn initial() -> FsmState {
        FsmState {
            phase: ConnectionPhase::Idle,
            clean_start: false,
            keep_alive: 0,
            can_use_auth: false,
            proposed_client_identifier: Seq::empty(),
            client_identifier: None,
            limits: spec_no_limits(),
            cursor: 1,
            order: Seq::empty(),
            packets: Map::empty(),
            received: Set::empty(),
            last_sent: MqttInstant(0),
            ping_sent: None,
            pending_auth: None,
            connack_deadline: None,
            topic_alias_maximum: 0,
            aliases: Map::empty(),
        }
    }

    /// The bookkeeping of the packets in flight is coherent: no identifier
    /// occurs twice in the order, the identifiers of the order are the
    /// keys of the packets, and none of them is 0.
    pub open spec fn wf(self) -> bool {
        &&& self.order.no_duplicates()
        &&& forall|id: u16| self.order.contains(id) <==> self.packets.contains_key(id)
        &&& forall|i: int| 0 <= i < self.order.len() ==> self.order[i] != 0
        &&& self.packets.dom().finite()
    }

    /// The identifier `id` is in use.
    pub open spec fn in_use(self, id: u16) -> bool {
        self.packets.contains_key(id) || self.received.contains(id)
    }

    /// The state without the session: no packet in flight, no message
    /// awaiting its release, no client identifier.
    pub open spec fn without_session(self) -> FsmState {
        FsmState {
            client_identifier: None,
            order: Seq::empty(),
            packets: Map::empty(),
            received: Set::empty(),
            ..self
        }
    }

    /// The state without the packet under `id`.
    pub open spec fn without_packet(self, id: u16) -> FsmState {
        FsmState {
            order: self.order.filter(crate::outstanding::spec_other_than(id)),
            packets: self.packets.remove(id),
            ..self
        }
    }

    /// The state after the connection has ended: what was tied to the
    /// connection is gone, the session stays.
    pub open spec fn disconnected(self) -> FsmState {
        FsmState {
            phase: ConnectionPhase::Disconnected,
            limits: spec_no_limits(),
            ping_sent: None,
            pending_auth: None,
            connack_deadline: None,
            aliases: Map::empty(),
            ..self
        }
    }

    /// The state after the application made an end of session and
    /// connection: the state of an engine that was just made, but for the
    /// time of the last sent packet.
    pub open spec fn torn_down(self) -> FsmState {
        FsmState { last_sent: self.last_sent, ..FsmState::initial() }
    }

    /// The state after the application asked for a connection with
    /// `connect` at `now`, to be accepted by `deadline` where there is
    /// one. A clean start discards the session.
    pub open spec fn connect(
        self,
        now: MqttInstant,
        connect: MConnectView,
        deadline: Option<MqttInstant>,
    ) -> FsmState {
        let kept = if connect.clean_start {
            self.without_session()
        } else {
            self
        };
        FsmState {
            phase: ConnectionPhase::Connecting,
            clean_start: connect.clean_start,
            keep_alive: connect.keep_alive,
            can_use_auth: spec_property_value(connect.properties, PropertyId::AuthenticationData)
                is Some,
            proposed_client_identifier: connect.client_identifier,
            limits: spec_no_limits(),
            last_sent: now,
            ping_sent: None,
            pending_auth: None,
            connack_deadline: deadline,
            topic_alias_maximum: match spec_two_byte_property(
                connect.properties,
                PropertyId::TopicAliasMaximum,
            ) {
                Some(maximum) => maximum,
                None => 0,
            },
            aliases: Map::empty(),
            ..kept
        }
    }

    /// The state after the server broke the rule `violation`, and the
    /// actions: a client with an open connection tells the server, and the
    /// connection ends.
    pub open spec fn violated(self, now: MqttInstant, violation: ProtocolViolation) -> (
        FsmState,
        Seq<ActionView>,
    ) {
        if self.phase == ConnectionPhase::Connected {
            (
                FsmState { last_sent: now, ..self.disconnected() },
                seq![
                    ActionView::SendPacket(spec_disconnect(violation.spec_reason_code())),
                    ActionView::Disconnect(DisconnectReason::ProtocolError(violation)),
                ],
            )
        } else {
            (
                self.disconnected(),
                seq![ActionView::Disconnect(DisconnectReason::ProtocolError(violation))],
            )
        }
    }

    /// The client identifier of the session that a Connack packet with the
    /// properties `ps` opens: the one that the server assigned where the
    /// client proposed none, the one that the client proposed where the
    /// server assigned none, and none in the two other cases, which break
    /// the protocol.
    pub open spec fn session_identifier(self, ps: Seq<PropertyView>) -> Option<Seq<u8>> {
        match spec_string_property(ps, PropertyId::AssignedClientIdentifier) {
            Some(assigned) => if self.proposed_client_identifier.len() == 0 {
                Some(assigned)
            } else {
                None
            },
            None => if self.proposed_client_identifier.len() == 0 {
                None
            } else {
                Some(self.proposed_client_identifier)
            },
        }
    }

    /// What a Connack packet makes of a client that awaits it.
    ///
    /// A refusal ends the connection. So does a server that claims a
    /// session after a clean start, and one that breaks the rules on the
    /// client identifier. Else the client is connected. Where the server
    /// holds the session that the engine holds, the packets in flight are
    /// sent again; else the session starts empty.
    pub open spec fn on_connack(self, now: MqttInstant, p: MConnackView) -> (
        FsmState,
        Seq<ActionView>,
    ) {
        if p.reason_code != ConnectReasonCode::Success {
            (
                self.disconnected(),
                seq![ActionView::Disconnect(DisconnectReason::ConnectRejected(p.reason_code))],
            )
        } else if p.session_present && self.clean_start {
            self.violated(now, ProtocolViolation::SessionPresentAfterCleanStart)
        } else {
            match self.session_identifier(p.properties) {
                None => self.violated(now, ProtocolViolation::ClientIdentifierAssignment),
                Some(identifier) => {
                    let resumed = p.session_present && self.client_identifier == Some(identifier);
                    let session = if resumed {
                        self
                    } else {
                        self.without_session()
                    };
                    let replay = spec_replay(session.order, session.packets);
                    (
                        FsmState {
                            phase: ConnectionPhase::Connected,
                            client_identifier: Some(identifier),
                            limits: spec_limits(p.session_present, p.properties),
                            cursor: 1,
                            last_sent: if replay.len() > 0 {
                                now
                            } else {
                                self.last_sent
                            },
                            ping_sent: None,
                            pending_auth: None,
                            connack_deadline: None,
                            ..session
                        },
                        replay,
                    )
                },
            }
        }
    }

    /// What an Auth packet makes of a client: the packet waits for the
    /// application where the client offered extended authentication, and
    /// else the server broke the protocol.
    pub open spec fn on_auth(self, now: MqttInstant, p: MAuthView) -> (FsmState, Seq<ActionView>) {
        if self.can_use_auth {
            (
                FsmState {
                    phase: if self.phase == ConnectionPhase::Connected {
                        ConnectionPhase::Connected
                    } else {
                        ConnectionPhase::Authenticating
                    },
                    pending_auth: Some(p),
                    ..self
                },
                Seq::empty(),
            )
        } else {
            self.violated(now, ProtocolViolation::AuthenticationNotRequested)
        }
    }

    /// What the topic alias of a received Publish packet makes of a
    /// connected client, and the packet with its topic.
    ///
    /// A packet without a topic alias is taken as it is. A packet with a
    /// topic alias and a topic binds the alias to the topic. A packet with
    /// a topic alias and without a topic gets the topic that the alias is
    /// bound to. An alias that is 0, above what the client takes, or not
    /// bound where it is needed, breaks the protocol: nothing comes back.
    pub open spec fn resolve_alias(self, p: MPublishView) -> Option<(FsmState, MPublishView)> {
        match spec_two_byte_property(p.properties, PropertyId::TopicAlias) {
            None => Some((self, p)),
            Some(alias) => if alias == 0 || alias > self.topic_alias_maximum {
                None
            } else if p.topic_name.len() > 0 {
                Some((FsmState { aliases: self.aliases.insert(alias, p.topic_name), ..self }, p))
            } else if self.aliases.contains_key(alias) {
                Some((self, MPublishView { topic_name: self.aliases[alias], ..p }))
            } else {
                None
            },
        }
    }

    /// What a received Publish packet makes of a connected client.
    ///
    /// The topic alias of the packet is resolved first. A message of
    /// quality of service 0 then goes to the application. One of quality
    /// of service 1 is acknowledged and goes to the application. One of
    /// quality of service 2 is confirmed, and goes to the application
    /// unless its identifier awaits its release already. A message of
    /// quality of service above 0 without an identifier is dropped.
    pub open spec fn on_publish(self, now: MqttInstant, p: MPublishView) -> (
        FsmState,
        Seq<ActionView>,
    ) {
        match self.resolve_alias(p) {
            None => self.violated(now, ProtocolViolation::TopicAliasInvalid),
            Some((state, message)) => state.deliver(now, message),
        }
    }

    /// What a received message, with its topic, makes of a connected client.
    pub open spec fn deliver(self, now: MqttInstant, p: MPublishView) -> (
        FsmState,
        Seq<ActionView>,
    ) {
        match (p.quality_of_service, p.packet_identifier) {
            (QualityOfService::AtMostOnce, _) => (self, seq![ActionView::ReceivedPublish(p)]),
            (QualityOfService::AtLeastOnce, Some(id)) => (
                FsmState { last_sent: now, ..self },
                seq![ActionView::SendPacket(spec_puback(id)), ActionView::ReceivedPublish(p)],
            ),
            (QualityOfService::ExactlyOnce, Some(id)) => (
                FsmState { received: self.received.insert(id), last_sent: now, ..self },
                if self.received.contains(id) {
                    seq![ActionView::SendPacket(spec_pubrec(id))]
                } else {
                    seq![ActionView::SendPacket(spec_pubrec(id)), ActionView::ReceivedPublish(p)]
                },
            ),
            (_, None) => (self, Seq::empty()),
        }
    }

    /// What a Pubrel packet makes of a connected client: the identifier
    /// no longer awaits its release, and a Pubcomp packet answers.
    pub open spec fn on_pubrel(self, now: MqttInstant, p: MPubrelView) -> (
        FsmState,
        Seq<ActionView>,
    ) {
        let id = p.packet_identifier;
        (
            FsmState { received: self.received.remove(id), last_sent: now, ..self },
            seq![
                ActionView::SendPacket(
                    spec_pubcomp(
                        id,
                        if self.received.contains(id) {
                            PubcompReasonCode::Success
                        } else {
                            PubcompReasonCode::PacketIdentifierNotFound
                        },
                    ),
                ),
            ],
        )
    }

    /// The packet in flight under `id` is a Publish packet of quality of
    /// service `qos`.
    pub open spec fn awaits_publish_ack(self, id: u16, qos: QualityOfService) -> bool {
        self.packets.contains_key(id) && match self.packets[id] {
            MqttPacketView::Publish(p) => p.quality_of_service == qos,
            _ => false,
        }
    }

    /// What the end of an exchange under `id` makes of a connected client,
    /// where `awaited` says that the client awaited it: the packet is no
    /// longer in flight. An acknowledgement that was not awaited is dropped.
    pub open spec fn released(self, id: u16, awaited: bool) -> (FsmState, Seq<ActionView>) {
        if awaited {
            (self.without_packet(id), seq![ActionView::ReleasePacket { id }])
        } else {
            (self, Seq::empty())
        }
    }

    /// What a Puback packet makes of a connected client: it ends the
    /// publish of quality of service 1 under its identifier, whatever its
    /// reason code.
    pub open spec fn on_puback(self, p: MPubackView) -> (FsmState, Seq<ActionView>) {
        self.released(
            p.packet_identifier,
            self.awaits_publish_ack(p.packet_identifier, QualityOfService::AtLeastOnce),
        )
    }

    /// What a Pubrec packet makes of a connected client that awaits it for
    /// a publish of quality of service 2: where the server took the
    /// message, a Pubrel packet takes the place of the Publish packet and
    /// is sent; where it refused it, the exchange ends.
    pub open spec fn on_pubrec(self, now: MqttInstant, p: MPubrecView) -> (
        FsmState,
        Seq<ActionView>,
    ) {
        let id = p.packet_identifier;
        if !self.awaits_publish_ack(id, QualityOfService::ExactlyOnce) {
            (self, Seq::empty())
        } else if p.reason.spec_is_success() {
            (
                FsmState {
                    packets: self.packets.insert(id, spec_pubrel(id)),
                    last_sent: now,
                    ..self
                },
                seq![ActionView::SendPacket(spec_pubrel(id))],
            )
        } else {
            self.released(id, true)
        }
    }

    /// What a Pubcomp packet makes of a connected client: it ends the
    /// exchange under its identifier where a Pubrel packet is in flight there.
    pub open spec fn on_pubcomp(self, p: MPubcompView) -> (FsmState, Seq<ActionView>) {
        let id = p.packet_identifier;
        self.released(id, self.packets.contains_key(id) && self.packets[id] is Pubrel)
    }

    /// What a Suback packet with the identifier `id` makes of a connected
    /// client: it ends the exchange where a Subscribe packet is in flight there.
    pub open spec fn on_suback(self, id: u16) -> (FsmState, Seq<ActionView>) {
        self.released(id, self.packets.contains_key(id) && self.packets[id] is Subscribe)
    }

    /// What an Unsuback packet with the identifier `id` makes of a
    /// connected client: it ends the exchange where an Unsubscribe packet
    /// is in flight there.
    pub open spec fn on_unsuback(self, id: u16) -> (FsmState, Seq<ActionView>) {
        self.released(id, self.packets.contains_key(id) && self.packets[id] is Unsubscribe)
    }

    /// What a packet of the server makes of a client that awaits the
    /// answer to its Connect packet.
    pub open spec fn connecting(self, now: MqttInstant, packet: MqttPacketView) -> (
        FsmState,
        Seq<ActionView>,
    ) {
        match packet {
            MqttPacketView::Connack(p) => self.on_connack(now, p),
            MqttPacketView::Auth(p) => self.on_auth(now, p),
            _ => self.violated(now, ProtocolViolation::UnexpectedPacket),
        }
    }

    /// What a packet of the server makes of a connected client.
    pub open spec fn connected(self, now: MqttInstant, packet: MqttPacketView) -> (
        FsmState,
        Seq<ActionView>,
    ) {
        match packet {
            MqttPacketView::Disconnect(p) => (
                self.disconnected(),
                seq![ActionView::Disconnect(DisconnectReason::ServerDisconnected(p.reason_code))],
            ),
            MqttPacketView::Pingresp => (FsmState { ping_sent: None, ..self }, Seq::empty()),
            MqttPacketView::Publish(p) => self.on_publish(now, p),
            MqttPacketView::Puback(p) => self.on_puback(p),
            MqttPacketView::Pubrec(p) => self.on_pubrec(now, p),
            MqttPacketView::Pubrel(p) => self.on_pubrel(now, p),
            MqttPacketView::Pubcomp(p) => self.on_pubcomp(p),
            MqttPacketView::Suback(p) => self.on_suback(p.packet_identifier),
            MqttPacketView::Unsuback(p) => self.on_unsuback(p.packet_identifier),
            MqttPacketView::Auth(p) => self.on_auth(now, p),
            _ => self.violated(now, ProtocolViolation::UnexpectedPacket),
        }
    }

    /// What a packet of the server makes of the client, and the actions
    /// that it asks for. A client without a connection drops the packet.
    pub open spec fn handle_packet(self, now: MqttInstant, packet: MqttPacketView) -> (
        FsmState,
        Seq<ActionView>,
    ) {
        match self.phase {
            ConnectionPhase::Idle | ConnectionPhase::Disconnected => (self, Seq::empty()),
            ConnectionPhase::Connecting | ConnectionPhase::Authenticating => self.connecting(
                now,
                packet,
            ),
            ConnectionPhase::Connected => self.connected(now, packet),
        }
    }

    /// What the passing of time makes of the client at `now`, and the
    /// action that it asks for.
    ///
    /// A client that awaits the server's answer to its Connect packet
    /// ends the connection once the deadline has come, where the
    /// application set one, and asks to be polled again at the deadline
    /// before that.
    ///
    /// A connected client acts where it has a keep-alive interval. Where a
    /// Pingreq packet is unanswered for half the interval, the connection
    /// ends. Where no packet was sent for eight tenths of the interval, a
    /// Pingreq packet is sent. Else the client asks to be polled again
    /// when the next of the two is due.
    pub open spec fn poll(self, now: MqttInstant) -> (FsmState, Option<ActionView>) {
        if self.phase == ConnectionPhase::Connecting || self.phase
            == ConnectionPhase::Authenticating {
            match self.connack_deadline {
                Some(deadline) => if now.0 >= deadline.0 {
                    (
                        self.disconnected(),
                        Some(ActionView::Disconnect(DisconnectReason::ConnackTimeout)),
                    )
                } else {
                    (self, Some(ActionView::ScheduleWakeup(deadline)))
                },
                None => (self, None),
            }
        } else if self.phase != ConnectionPhase::Connected || self.keep_alive == 0 {
            (self, None)
        } else {
            match self.ping_sent {
                Some(sent) => if sent.spec_elapsed_seconds(now) >= spec_pingresp_interval(
                    self.keep_alive,
                ) {
                    (
                        self.disconnected(),
                        Some(ActionView::Disconnect(DisconnectReason::KeepAliveTimeout)),
                    )
                } else {
                    (
                        self,
                        Some(
                            ActionView::ScheduleWakeup(
                                sent.spec_after(spec_pingresp_interval(self.keep_alive)),
                            ),
                        ),
                    )
                },
                None => if self.last_sent.spec_elapsed_seconds(now) >= spec_ping_interval(
                    self.keep_alive,
                ) {
                    (
                        FsmState { last_sent: now, ping_sent: Some(now), ..self },
                        Some(ActionView::SendPacket(MqttPacketView::Pingreq)),
                    )
                } else {
                    (
                        self,
                        Some(
                            ActionView::ScheduleWakeup(
                                self.last_sent.spec_after(spec_ping_interval(self.keep_alive)),
                            ),
                        ),
                    )
                },
            }
        }
    }
}

/// Why the engine did not take a message of the application.
#[derive(Debug, Clone, Copy, PartialEq, Eq, Hash, Structural)]
pub enum PublishError {
    /// The client is not connected.
    NotConnected,
    /// The message is to be retained, and the server retains none.
    RetainNotAvailable,
    /// The quality of service of the message is above what the server supports.
    QosNotSupported,
    /// The topic of the message is empty or holds a wildcard.
    InvalidTopic,
    /// The message cannot go on the wire.
    InvalidPacket,
    /// The packet is larger than the server takes.
    PacketTooLarge,
    /// Every packet identifier is in use.
    PacketIdentifierExhausted,
}

/// Why the engine did not take a request to subscribe or to unsubscribe.
#[derive(Debug, Clone, Copy, PartialEq, Eq, Hash, Structural)]
pub enum RequestError {
    /// The client is not connected.
    NotConnected,
    /// One of the topic filters is empty or misplaces a wildcard.
    InvalidTopicFilter,
    /// The request cannot go on the wire.
    InvalidPacket,
    /// Every packet identifier is in use.
    PacketIdentifierExhausted,
}

/// The Publish packet that the engine makes of the application's message
/// `p`: sent for the first time, under the identifier `id`.
pub open spec fn spec_outgoing(p: MPublishView, id: Option<u16>) -> MPublishView {
    MPublishView { duplicate: false, packet_identifier: id, ..p }
}

/// The Subscribe packet for `subscriptions` under the identifier `id`.
pub open spec fn spec_subscribe(id: u16, subscriptions: Seq<SubscriptionView>) -> MSubscribeView {
    MSubscribeView { packet_identifier: id, properties: Seq::empty(), subscriptions }
}

/// The Unsubscribe packet for `filters` under the identifier `id`.
pub open spec fn spec_unsubscribe(id: u16, filters: Seq<Seq<u8>>) -> MUnsubscribeView {
    MUnsubscribeView { packet_identifier: id, properties: Seq::empty(), unsubscriptions: filters }
}

/// Each topic filter of a Subscribe or an Unsubscribe packet is a topic filter.
pub open spec fn spec_filters_valid(packet: MqttPacketView) -> bool {
    match packet {
        MqttPacketView::Subscribe(p) => forall|i: int|
            0 <= i < p.subscriptions.len() ==> crate::topic::spec_valid_topic_filter(
                (#[trigger] p.subscriptions[i]).topic_filter,
            ),
        MqttPacketView::Unsubscribe(p) => forall|i: int|
            0 <= i < p.unsubscriptions.len() ==> crate::topic::spec_valid_topic_filter(
                #[trigger] p.unsubscriptions[i],
            ),
        _ => true,
    }
}

impl FsmState {
    /// Every packet identifier is in use.
    pub open spec fn exhausted(self) -> bool {
        forall|id: u16| id != 0 ==> self.in_use(id)
    }

    /// Why the engine does not take the message `p`, the first reason
    /// that holds in the order of the variants; none where it takes it.
    pub open spec fn publish_refusal(self, p: MPublishView) -> Option<PublishError> {
        let placeholder = if p.quality_of_service == QualityOfService::AtMostOnce {
            None
        } else {
            Some(1u16)
        };
        if self.phase != ConnectionPhase::Connected {
            Some(PublishError::NotConnected)
        } else if p.retain && self.limits.retain_available == Some(false) {
            Some(PublishError::RetainNotAvailable)
        } else if self.limits.maximum_qos matches Some(m) && p.quality_of_service.spec_level()
            > m.spec_level() {
            Some(PublishError::QosNotSupported)
        } else if !crate::topic::spec_valid_topic_name(p.topic_name) {
            Some(PublishError::InvalidTopic)
        } else if !spec_outgoing(p, placeholder).wf() {
            Some(PublishError::InvalidPacket)
        } else if self.limits.maximum_packet_size matches Some(max) && MqttPacketView::Publish(
            spec_outgoing(p, placeholder),
        ).wire().len() > max {
            Some(PublishError::PacketTooLarge)
        } else if p.quality_of_service != QualityOfService::AtMostOnce && self.exhausted() {
            Some(PublishError::PacketIdentifierExhausted)
        } else {
            None
        }
    }

    /// The state with `packet` in flight under `id`, as the packet sent
    /// last, and with the cursor on `id`.
    pub open spec fn with_packet(self, id: u16, packet: MqttPacketView) -> FsmState {
        FsmState {
            cursor: id,
            order: self.order.push(id),
            packets: self.packets.insert(id, packet),
            ..self
        }
    }

    /// Why the engine does not take a request that makes the packet
    /// `packet`, the first reason that holds in the order of the variants;
    /// none where it takes it.
    pub open spec fn request_refusal(self, packet: MqttPacketView) -> Option<RequestError> {
        if self.phase != ConnectionPhase::Connected {
            Some(RequestError::NotConnected)
        } else if !spec_filters_valid(packet) {
            Some(RequestError::InvalidTopicFilter)
        } else if !packet.wf() {
            Some(RequestError::InvalidPacket)
        } else if self.exhausted() {
            Some(RequestError::PacketIdentifierExhausted)
        } else {
            None
        }
    }

    /// What bytes of the server make of the client, and the actions that
    /// they ask for. Bytes that are one packet act as that packet. Bytes
    /// that are the start of a packet change nothing. Bytes that are
    /// malformed end the connection of a client that has one; a connected
    /// client tells the server so.
    pub open spec fn handle_incoming(self, now: MqttInstant, bytes: Seq<u8>) -> (
        FsmState,
        Seq<ActionView>,
    ) {
        match spec_parse_complete(bytes) {
            Ok(packet) => self.handle_packet(now, packet),
            Err(ParseError::Incomplete(_)) => (self, Seq::empty()),
            Err(ParseError::Malformed) => match self.phase {
                ConnectionPhase::Idle | ConnectionPhase::Disconnected => (self, Seq::empty()),
                ConnectionPhase::Connected => (
                    FsmState { last_sent: now, ..self.disconnected() },
                    seq![
                        ActionView::SendPacket(
                            spec_disconnect(DisconnectReasonCode::MalformedPacket),
                        ),
                        ActionView::Disconnect(DisconnectReason::MalformedPacket),
                    ],
                ),
                _ => (
                    self.disconnected(),
                    seq![ActionView::Disconnect(DisconnectReason::MalformedPacket)],
                ),
            },
        }
    }
}

} // verus!
