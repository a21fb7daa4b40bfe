//! What the protocol engine asks of the program that drives it.

use vstd::prelude::*;

use crate::packets::MqttPacket;
use crate::packets::MqttPacketView;
use crate::packets::publish::MPublish;
use crate::packets::publish::MPublishView;
use crate::reason_code::ConnectReasonCode;
use crate::reason_code::DisconnectReasonCode;
use crate::variable_header::PacketIdentifier;

verus! {

/// A point in time, in whole seconds on a clock that does not run
/// backwards. The program that drives the engine supplies it with every
/// call; the engine reads no clock.
#[derive(Debug, Clone, Copy, PartialEq, Eq, Hash, PartialOrd, Ord, Structural)]
pub struct MqttInstant(pub u64);

impl MqttInstant {
    /// The instant `seconds` seconds after the start of the clock.
    pub fn new(seconds: u64) -> (r: MqttInstant)
        ensures
            r.0 == seconds,
    {
        MqttInstant(seconds)
    }

    /// The seconds since the start of the clock.
    pub fn as_secs(&self) -> (r: u64)
        ensures
            r == self.0,
    {
        self.0
    }

    /// The seconds from this instant to `now`; none where `now` is not later.
    pub open spec fn spec_elapsed_seconds(self, now: MqttInstant) -> u64 {
        if now.0 >= self.0 {
            (now.0 - self.0) as u64
        } else {
            0
        }
    }

    /// The seconds from this instant to `now`; none where `now` is not later.
    pub fn elapsed_seconds(&self, now: MqttInstant) -> (r: u64)
        ensures
            r == self.spec_elapsed_seconds(now),
    {
        if now.0 >= self.0 {
            now.0 - self.0
        } else {
            0
        }
    }

    /// The instant `seconds` seconds later, or the last instant of the
    /// clock where that one lies beyond it.
    pub open spec fn spec_after(self, seconds: u64) -> MqttInstant {
        if self.0 + seconds > u64::MAX {
            MqttInstant(u64::MAX)
        } else {
            MqttInstant((self.0 + seconds) as u64)
        }
    }

    /// The instant `seconds` seconds later, or the last instant of the
    /// clock where that one lies beyond it.
    pub fn after(&self, seconds: u64) -> (r: MqttInstant)
        ensures
            r == self.spec_after(seconds),
    {
        if seconds > u64::MAX - self.0 {
            MqttInstant(u64::MAX)
        } else {
            MqttInstant(self.0 + seconds)
        }
    }
}

/// The rule of MQTT v5 that the server broke.
#[derive(Debug, Clone, Copy, PartialEq, Eq, Hash, Structural)]
pub enum ProtocolViolation {
    /// The server answered a Connect packet with something other than a
    /// Connack or an Auth packet, or sent a packet that a server may not
    /// send on an open connection.
    UnexpectedPacket,
    /// The server sent an Auth packet to a client that had asked for no
    /// extended authentication.
    AuthenticationNotRequested,
    /// The server claims to hold a session though the client asked for a
    /// clean start.
    SessionPresentAfterCleanStart,
    /// The server assigned a client identifier to a client that had
    /// proposed one, or assigned none to a client that had proposed none.
    ClientIdentifierAssignment,
    /// The server used a topic alias that is 0, above what the client
    /// takes, or not bound to a topic.
    TopicAliasInvalid,
}

impl ProtocolViolation {
    /// The clause of the MQTT v5 specification that states the rule.
    pub fn clause(&self) -> (r: &'static str)
        ensures
            r@ == match self {
                ProtocolViolation::UnexpectedPacket => "MQTT-3.1.4-5"@,
                ProtocolViolation::AuthenticationNotRequested => "MQTT-4.12.0-6"@,
                ProtocolViolation::SessionPresentAfterCleanStart => "MQTT-3.2.2-2"@,
                ProtocolViolation::ClientIdentifierAssignment => "MQTT-3.2.2.3.7"@,
                ProtocolViolation::TopicAliasInvalid => "MQTT-3.3.2-8"@,
            },
    {
        match self {
            ProtocolViolation::UnexpectedPacket => "MQTT-3.1.4-5",
            ProtocolViolation::AuthenticationNotRequested => "MQTT-4.12.0-6",
            ProtocolViolation::SessionPresentAfterCleanStart => "MQTT-3.2.2-2",
            ProtocolViolation::ClientIdentifierAssignment => "MQTT-3.2.2.3.7",
            ProtocolViolation::TopicAliasInvalid => "MQTT-3.3.2-8",
        }
    }

    /// The reason code by which a client tells the server of the violation.
    pub open spec fn spec_reason_code(self) -> DisconnectReasonCode {
        match self {
            ProtocolViolation::TopicAliasInvalid => DisconnectReasonCode::TopicAliasInvalid,
            _ => DisconnectReasonCode::ProtocolError,
        }
    }

    /// The reason code by which a client tells the server of the violation.
    pub fn reason_code(&self) -> (r: DisconnectReasonCode)
        ensures
            r == self.spec_reason_code(),
    {
        match self {
            ProtocolViolation::TopicAliasInvalid => DisconnectReasonCode::TopicAliasInvalid,
            _ => DisconnectReasonCode::ProtocolError,
        }
    }
}

/// Why a connection ended.
#[derive(Debug, Clone, Copy, PartialEq, Eq, Hash, Structural)]
pub enum DisconnectReason {
    /// The server refused the connection, with this reason code.
    ConnectRejected(ConnectReasonCode),
    /// The server broke a rule of the protocol.
    ProtocolError(ProtocolViolation),
    /// The server did not answer a Pingreq packet in time.
    KeepAliveTimeout,
    /// The server did not answer the Connect packet before the deadline
    /// that the application set.
    ConnackTimeout,
    /// The server sent bytes that are no packet.
    MalformedPacket,
    /// The server ended the connection, with this reason code.
    ServerDisconnected(DisconnectReasonCode),
}

/// What the program that drives the engine has to do next.
#[derive(Debug, Clone, PartialEq, Eq)]
pub enum ExpectedAction {
    /// Send the packet to the server.
    SendPacket(MqttPacket),
    /// Keep the packet under the identifier until it is released.
    StorePacket { id: PacketIdentifier, packet: MqttPacket },
    /// Drop the packet kept under the identifier: its exchange is over.
    ReleasePacket { id: PacketIdentifier },
    /// Hand the message to the application.
    ReceivedPublish(MPublish),
    /// Poll the engine again at the instant.
    ScheduleWakeup(MqttInstant),
    /// Close the transport: the connection has ended.
    Disconnect(DisconnectReason),
}

/// An action as contracts see it.
pub enum ActionView {
    SendPacket(MqttPacketView),
    StorePacket { id: u16, packet: MqttPacketView },
    ReleasePacket { id: u16 },
    ReceivedPublish(MPublishView),
    ScheduleWakeup(MqttInstant),
    Disconnect(DisconnectReason),
}

impl View for ExpectedAction {
    type V = ActionView;

    open spec fn view(&self) -> ActionView {
        match self {
            ExpectedAction::SendPacket(p) => ActionView::SendPacket(p@),
            ExpectedAction::StorePacket { id, packet } => ActionView::StorePacket {
                id: id@,
                packet: packet@,
            },
            ExpectedAction::ReleasePacket { id } => ActionView::ReleasePacket { id: id@ },
            ExpectedAction::ReceivedPublish(p) => ActionView::ReceivedPublish(p@),
            ExpectedAction::ScheduleWakeup(t) => ActionView::ScheduleWakeup(*t),
            ExpectedAction::Disconnect(r) => ActionView::Disconnect(*r),
        }
    }
}

/// The views of the actions `actions`.
pub open spec fn spec_actions(actions: Seq<ExpectedAction>) -> Seq<ActionView> {
    actions.map_values(|a: ExpectedAction| a@)
}

} // verus!
