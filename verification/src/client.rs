//! What an application says of the connection it wants: the connector, and
//! the parts it is made of.

use vstd::prelude::*;

use crate::packets::connect::MConnect;
use crate::packets::connect::MConnectView;
use crate::packets::connect::Will;
use crate::packets::connect::WillView;
use crate::packets::connect::spec_bytes_view;
use crate::packets::connect::spec_string_view;
use crate::property_set::Properties;
use crate::qos::QualityOfService;
use crate::strings::MqttBytes;
use crate::strings::MqttString;

verus! {

/// Whether the server is to discard the session that it holds for the client.
#[derive(Debug, Clone, Copy, PartialEq, Eq, Structural)]
pub enum CleanStart {
    No,
    Yes,
}

impl CleanStart {
    /// The flag of the Connect packet: set for `Yes`.
    pub fn as_bool(&self) -> (r: bool)
        ensures
            r == (*self == CleanStart::Yes),
    {
        match self {
            CleanStart::No => false,
            CleanStart::Yes => true,
        }
    }
}

/// The interval within which the client sends a packet at the latest.
#[derive(Debug, Clone, Copy, PartialEq, Eq, Structural)]
pub enum KeepAlive {
    /// The client sends no pings.
    Disabled,
    /// The client lets at most this many seconds pass. 0 stands for none.
    Seconds(u16),
}

impl KeepAlive {
    /// The seconds as they stand in the Connect packet: 0 where keep-alive is disabled.
    pub open spec fn spec_as_u16(self) -> u16 {
        match self {
            KeepAlive::Disabled => 0,
            KeepAlive::Seconds(s) => s,
        }
    }

    /// The seconds as they stand in the Connect packet: 0 where keep-alive is disabled.
    pub fn as_u16(&self) -> (r: u16)
        ensures
            r == self.spec_as_u16(),
    {
        match self {
            KeepAlive::Disabled => 0,
            KeepAlive::Seconds(s) => *s,
        }
    }
}

/// The client identifier that the client proposes to the server.
#[derive(Debug, Clone, PartialEq, Eq)]
pub enum ProposedClientIdentifier {
    /// None: the server is to assign one.
    PotentiallyServerProvided,
    /// One that every server must accept: 1 to 23 bytes, digits and letters.
    MinimalRequired(MqttString),
    /// One that a server may refuse.
    PotentiallyAccepted(MqttString),
}

impl ProposedClientIdentifier {
    /// The identifier as it stands in the Connect packet: empty where the
    /// server is to assign one.
    pub open spec fn spec_bytes(self) -> Seq<u8> {
        match self {
            ProposedClientIdentifier::PotentiallyServerProvided => Seq::empty(),
            ProposedClientIdentifier::MinimalRequired(s) => s@,
            ProposedClientIdentifier::PotentiallyAccepted(s) => s@,
        }
    }

    /// The identifier as it stands in the Connect packet.
    pub fn to_mqtt_string(&self) -> (r: MqttString)
        ensures
            r@ == self.spec_bytes(),
    {
        match self {
            ProposedClientIdentifier::PotentiallyServerProvided => MqttString::empty(),
            ProposedClientIdentifier::MinimalRequired(s) => s.duplicate(),
            ProposedClientIdentifier::PotentiallyAccepted(s) => s.duplicate(),
        }
    }
}

/// The will of a client: the message that the server publishes when the
/// connection ends without a Disconnect packet. The view is the will as it
/// stands in a Connect packet.
pub struct MqttWill {
    properties: Properties,
    topic: MqttString,
    payload: MqttBytes,
    qos: QualityOfService,
    retain: bool,
}

impl View for MqttWill {
    type V = WillView;

    closed spec fn view(&self) -> WillView {
        WillView {
            properties: self.properties@,
            topic: self.topic@,
            payload: self.payload@,
            will_qos: self.qos,
            will_retain: self.retain,
        }
    }
}

impl MqttWill {
    /// A will without properties.
    pub fn new(topic: MqttString, payload: MqttBytes, qos: QualityOfService, retain: bool) -> (r:
        MqttWill)
        ensures
            r@ == (WillView {
                properties: Seq::empty(),
                topic: topic@,
                payload: payload@,
                will_qos: qos,
                will_retain: retain,
            }),
    {
        MqttWill { properties: Properties::new(), topic, payload, qos, retain }
    }

    /// The properties of the will, to be changed in place.
    pub fn get_properties_mut(&mut self) -> (r: &mut Properties)
        ensures
            r@ == old(self)@.properties,
            final(self)@ == (WillView { properties: final(r)@, ..old(self)@ }),
    {
        &mut self.properties
    }

    /// The will as it stands in a Connect packet.
    pub fn as_ref(&self) -> (r: Will)
        ensures
            r@ == self@,
    {
        Will {
            properties: self.properties.duplicate(),
            topic: self.topic.duplicate(),
            payload: self.payload.duplicate(),
            will_qos: self.qos,
            will_retain: self.retain,
        }
    }
}

/// The view of an optional will of a client.
pub open spec fn spec_mqtt_will_view(w: Option<MqttWill>) -> Option<WillView> {
    match w {
        Some(w) => Some(w@),
        None => None,
    }
}

/// What a client asks of a connection. The view is the Connect packet
/// that says so.
pub struct MqttClientConnector {
    client_identifier: ProposedClientIdentifier,
    clean_start: CleanStart,
    keep_alive: KeepAlive,
    properties: Properties,
    username: Option<MqttString>,
    password: Option<MqttBytes>,
    will: Option<MqttWill>,
}

impl View for MqttClientConnector {
    type V = MConnectView;

    closed spec fn view(&self) -> MConnectView {
        MConnectView {
            client_identifier: self.client_identifier.spec_bytes(),
            username: spec_string_view(self.username),
            password: spec_bytes_view(self.password),
            clean_start: self.clean_start == CleanStart::Yes,
            will: spec_mqtt_will_view(self.will),
            properties: self.properties@,
            keep_alive: self.keep_alive.spec_as_u16(),
        }
    }
}

impl MqttClientConnector {
    /// A connector without user name, password, will and properties.
    pub fn new(
        client_identifier: ProposedClientIdentifier,
        clean_start: CleanStart,
        keep_alive: KeepAlive,
    ) -> (r: MqttClientConnector)
        ensures
            r@ == (MConnectView {
                client_identifier: client_identifier.spec_bytes(),
                username: None,
                password: None,
                clean_start: clean_start == CleanStart::Yes,
                will: None,
                properties: Seq::empty(),
                keep_alive: keep_alive.spec_as_u16(),
            }),
    {
        MqttClientConnector {
            client_identifier,
            clean_start,
            keep_alive,
            properties: Properties::new(),
            username: None,
            password: None,
            will: None,
        }
    }

    /// Sets the user name.
    pub fn with_username(&mut self, username: MqttString) -> (r: &mut MqttClientConnector)
        ensures
            r@ == (MConnectView { username: Some(username@), ..old(self)@ }),
            final(self)@ == final(r)@,
    {
        self.username = Some(username);
        self
    }

    /// Sets the password.
    pub fn with_password(&mut self, password: MqttBytes) -> (r: &mut MqttClientConnector)
        ensures
            r@ == (MConnectView { password: Some(password@), ..old(self)@ }),
            final(self)@ == final(r)@,
    {
        self.password = Some(password);
        self
    }

    /// Sets the will.
    pub fn with_will(&mut self, will: MqttWill) -> (r: &mut MqttClientConnector)
        ensures
            r@ == (MConnectView { will: Some(will@), ..old(self)@ }),
            final(self)@ == final(r)@,
    {
        self.will = Some(will);
        self
    }

    /// The properties of the Connect packet, to be changed in place.
    pub fn properties_mut(&mut self) -> (r: &mut Properties)
        ensures
            r@ == old(self)@.properties,
            final(self)@ == (MConnectView { properties: final(r)@, ..old(self)@ }),
    {
        &mut self.properties
    }

    /// The Connect packet that asks for the connection.
    pub fn to_connect(&self) -> (r: MConnect)
        ensures
            r@ == self@,
    {
        MConnect {
            client_identifier: self.client_identifier.to_mqtt_string(),
            username: match &self.username {
                Some(u) => Some(u.duplicate()),
                None => None,
            },
            password: match &self.password {
                Some(p) => Some(p.duplicate()),
                None => None,
            },
            clean_start: self.clean_start.as_bool(),
            will: match &self.will {
                Some(w) => Some(w.as_ref()),
                None => None,
            },
            properties: self.properties.duplicate(),
            keep_alive: self.keep_alive.as_u16(),
        }
    }
}

} // verus!
