//! The identifiers of the properties of MQTT v5: the byte of each, the type of
//! its value, and the packets that may carry it.

use vstd::prelude::*;

verus! {

/// The type of a property's value, which decides its encoding.
#[derive(Debug, Clone, Copy, PartialEq, Eq, Hash, Structural)]
pub enum PropertyKind {
    /// One byte.
    Byte,
    /// A big-endian integer of two bytes.
    TwoByteInteger,
    /// A big-endian integer of four bytes.
    FourByteInteger,
    /// A variable-length integer.
    VariableByteInteger,
    /// A string.
    Utf8String,
    /// Binary data.
    BinaryData,
    /// Two strings, a name and a value.
    Utf8StringPair,
}

/// What carries a set of properties: a kind of packet, or the will inside a
/// Connect packet.
#[derive(Debug, Clone, Copy, PartialEq, Eq, Hash, Structural)]
pub enum PropertyScope {
    Connect,
    Will,
    Connack,
    Publish,
    Puback,
    Pubrec,
    Pubrel,
    Pubcomp,
    Subscribe,
    Suback,
    Unsubscribe,
    Unsuback,
    Disconnect,
    Auth,
}

/// The identifier of a property.
#[derive(Debug, Clone, Copy, PartialEq, Eq, Hash, Structural)]
pub enum PropertyId {
    /// Whether the payload is UTF-8 text (1) or unspecified bytes (0).
    PayloadFormatIndicator,
    /// The lifetime of the message in seconds.
    MessageExpiryInterval,
    /// What the payload holds, as the application names it.
    ContentType,
    /// The topic on which a response is expected.
    ResponseTopic,
    /// Data by which the requester tells the responses apart.
    CorrelationData,
    /// The identifier of a subscription.
    SubscriptionIdentifier,
    /// The lifetime of the session after the connection closes, in seconds.
    SessionExpiryInterval,
    /// The client identifier that the server assigned.
    AssignedClientIdentifier,
    /// The keep-alive interval that the server sets, in seconds.
    ServerKeepAlive,
    /// The name of the method of extended authentication.
    AuthenticationMethod,
    /// The data of extended authentication.
    AuthenticationData,
    /// Whether reason strings and user properties are wanted on failures.
    RequestProblemInformation,
    /// The delay before the will is published, in seconds.
    WillDelayInterval,
    /// Whether response information is wanted in the Connack.
    RequestResponseInformation,
    /// The basis for building a response topic.
    ResponseInformation,
    /// Another server to use.
    ServerReference,
    /// Text for a human reader that explains the reason code.
    ReasonString,
    /// The most unacknowledged publishes that the sender of this property takes at once.
    ReceiveMaximum,
    /// The highest topic alias that the sender of this property takes.
    TopicAliasMaximum,
    /// A number that stands for the topic name.
    TopicAlias,
    /// The highest quality of service that the server supports, 0 or 1.
    MaximumQoS,
    /// Whether the server supports retained messages.
    RetainAvailable,
    /// A name and a value of the application.
    UserProperty,
    /// The largest packet that the sender of this property takes.
    MaximumPacketSize,
    /// Whether the server supports wildcard subscriptions.
    WildcardSubscriptionAvailable,
    /// Whether the server supports subscription identifiers.
    SubscriptionIdentifiersAvailable,
    /// Whether the server supports shared subscriptions.
    SharedSubscriptionAvailable,
}

impl PropertyId {
    /// The byte that stands for the identifier on the wire. Each is below
    /// 128, so that as a variable-length integer it is this one byte.
    pub open spec fn spec_code(self) -> u8 {
        match self {
            PropertyId::PayloadFormatIndicator => 0x01,
            PropertyId::MessageExpiryInterval => 0x02,
            PropertyId::ContentType => 0x03,
            PropertyId::ResponseTopic => 0x08,
            PropertyId::CorrelationData => 0x09,
            PropertyId::SubscriptionIdentifier => 0x0B,
            PropertyId::SessionExpiryInterval => 0x11,
            PropertyId::AssignedClientIdentifier => 0x12,
            PropertyId::ServerKeepAlive => 0x13,
            PropertyId::AuthenticationMethod => 0x15,
            PropertyId::AuthenticationData => 0x16,
            PropertyId::RequestProblemInformation => 0x17,
            PropertyId::WillDelayInterval => 0x18,
            PropertyId::RequestResponseInformation => 0x19,
            PropertyId::ResponseInformation => 0x1A,
            PropertyId::ServerReference => 0x1C,
            PropertyId::ReasonString => 0x1F,
            PropertyId::ReceiveMaximum => 0x21,
            PropertyId::TopicAliasMaximum => 0x22,
            PropertyId::TopicAlias => 0x23,
            PropertyId::MaximumQoS => 0x24,
            PropertyId::RetainAvailable => 0x25,
            PropertyId::UserProperty => 0x26,
            PropertyId::MaximumPacketSize => 0x27,
            PropertyId::WildcardSubscriptionAvailable => 0x28,
            PropertyId::SubscriptionIdentifiersAvailable => 0x29,
            PropertyId::SharedSubscriptionAvailable => 0x2A,
        }
    }

    /// The identifier that `byte` stands for, if it stands for one.
    pub open spec fn spec_from_code(byte: u8) -> Option<PropertyId> {
        if byte == 0x01 {
            Some(PropertyId::PayloadFormatIndicator)
        } else if byte == 0x02 {
            Some(PropertyId::MessageExpiryInterval)
        } else if byte == 0x03 {
            Some(PropertyId::ContentType)
        } else if byte == 0x08 {
            Some(PropertyId::ResponseTopic)
        } else if byte == 0x09 {
            Some(PropertyId::CorrelationData)
        } else if byte == 0x0B {
            Some(PropertyId::SubscriptionIdentifier)
        } else if byte == 0x11 {
            Some(PropertyId::SessionExpiryInterval)
        } else if byte == 0x12 {
            Some(PropertyId::AssignedClientIdentifier)
        } else if byte == 0x13 {
            Some(PropertyId::ServerKeepAlive)
        } else if byte == 0x15 {
            Some(PropertyId::AuthenticationMethod)
        } else if byte == 0x16 {
            Some(PropertyId::AuthenticationData)
        } else if byte == 0x17 {
            Some(PropertyId::RequestProblemInformation)
        } else if byte == 0x18 {
            Some(PropertyId::WillDelayInterval)
        } else if byte == 0x19 {
            Some(PropertyId::RequestResponseInformation)
        } else if byte == 0x1A {
            Some(PropertyId::ResponseInformation)
        } else if byte == 0x1C {
            Some(PropertyId::ServerReference)
        } else if byte == 0x1F {
            Some(PropertyId::ReasonString)
        } else if byte == 0x21 {
            Some(PropertyId::ReceiveMaximum)
        } else if byte == 0x22 {
            Some(PropertyId::TopicAliasMaximum)
        } else if byte == 0x23 {
            Some(PropertyId::TopicAlias)
        } else if byte == 0x24 {
            Some(PropertyId::MaximumQoS)
        } else if byte == 0x25 {
            Some(PropertyId::RetainAvailable)
        } else if byte == 0x26 {
            Some(PropertyId::UserProperty)
        } else if byte == 0x27 {
            Some(PropertyId::MaximumPacketSize)
        } else if byte == 0x28 {
            Some(PropertyId::WildcardSubscriptionAvailable)
        } else if byte == 0x29 {
            Some(PropertyId::SubscriptionIdentifiersAvailable)
        } else if byte == 0x2A {
            Some(PropertyId::SharedSubscriptionAvailable)
        } else {
            None
        }
    }

    /// The type of the value that goes with the identifier.
    pub open spec fn spec_kind(self) -> PropertyKind {
        match self {
            PropertyId::PayloadFormatIndicator
            | PropertyId::RequestProblemInformation
            | PropertyId::RequestResponseInformation
            | PropertyId::MaximumQoS
            | PropertyId::RetainAvailable
            | PropertyId::WildcardSubscriptionAvailable
            | PropertyId::SubscriptionIdentifiersAvailable
            | PropertyId::SharedSubscriptionAvailable => PropertyKind::Byte,
            PropertyId::MessageExpiryInterval
            | PropertyId::SessionExpiryInterval
            | PropertyId::WillDelayInterval
            | PropertyId::MaximumPacketSize => PropertyKind::FourByteInteger,
            PropertyId::ContentType
            | PropertyId::ResponseTopic
            | PropertyId::AssignedClientIdentifier
            | PropertyId::AuthenticationMethod
            | PropertyId::ResponseInformation
            | PropertyId::ServerReference
            | PropertyId::ReasonString => PropertyKind::Utf8String,
            PropertyId::CorrelationData
            | PropertyId::AuthenticationData => PropertyKind::BinaryData,
            PropertyId::SubscriptionIdentifier => PropertyKind::VariableByteInteger,
            PropertyId::ServerKeepAlive
            | PropertyId::ReceiveMaximum
            | PropertyId::TopicAliasMaximum
            | PropertyId::TopicAlias => PropertyKind::TwoByteInteger,
            PropertyId::UserProperty => PropertyKind::Utf8StringPair,
        }
    }

    /// A set of properties may hold the identifier more than once.
    pub open spec fn spec_repeatable(self) -> bool {
        self == PropertyId::UserProperty || self == PropertyId::SubscriptionIdentifier
    }

    /// `scope` may carry a property with this identifier.
    pub open spec fn spec_allowed_in(self, scope: PropertyScope) -> bool {
        match self {
            PropertyId::PayloadFormatIndicator
            | PropertyId::MessageExpiryInterval
            | PropertyId::ContentType
            | PropertyId::ResponseTopic
            | PropertyId::CorrelationData => {
                scope == PropertyScope::Publish || scope == PropertyScope::Will
            },
            PropertyId::SubscriptionIdentifier => {
                scope == PropertyScope::Publish || scope == PropertyScope::Subscribe
            },
            PropertyId::SessionExpiryInterval => {
                scope == PropertyScope::Connect
                    || scope == PropertyScope::Connack
                    || scope == PropertyScope::Disconnect
            },
            PropertyId::AssignedClientIdentifier
            | PropertyId::ServerKeepAlive
            | PropertyId::ResponseInformation
            | PropertyId::MaximumQoS
            | PropertyId::RetainAvailable
            | PropertyId::WildcardSubscriptionAvailable
            | PropertyId::SubscriptionIdentifiersAvailable
            | PropertyId::SharedSubscriptionAvailable => {
                scope == PropertyScope::Connack
            },
            PropertyId::AuthenticationMethod
            | PropertyId::AuthenticationData => {
                scope == PropertyScope::Connect
                    || scope == PropertyScope::Connack
                    || scope == PropertyScope::Auth
            },
            PropertyId::RequestProblemInformation
            | PropertyId::RequestResponseInformation => {
                scope == PropertyScope::Connect
            },
            PropertyId::WillDelayInterval => {
                scope == PropertyScope::Will
            },
            PropertyId::ServerReference => {
                scope == PropertyScope::Connack || scope == PropertyScope::Disconnect
            },
            PropertyId::ReasonString => {
                scope == PropertyScope::Connack
                    || scope == PropertyScope::Puback
                    || scope == PropertyScope::Pubrec
                    || scope == PropertyScope::Pubrel
                    || scope == PropertyScope::Pubcomp
                    || scope == PropertyScope::Suback
                    || scope == PropertyScope::Unsuback
                    || scope == PropertyScope::Disconnect
                    || scope == PropertyScope::Auth
            },
            PropertyId::ReceiveMaximum
            | PropertyId::TopicAliasMaximum
            | PropertyId::MaximumPacketSize => {
                scope == PropertyScope::Connect || scope == PropertyScope::Connack
            },
            PropertyId::TopicAlias => {
                scope == PropertyScope::Publish
            },
            PropertyId::UserProperty => {
                true
            },
        }
    }

    /// The byte that stands for the identifier on the wire.
    pub fn code(&self) -> (byte: u8)
        ensures
            byte == self.spec_code(),
            byte < 128,
            PropertyId::spec_from_code(byte) == Some(*self),
    {
        match self {
            PropertyId::PayloadFormatIndicator => 0x01,
            PropertyId::MessageExpiryInterval => 0x02,
            PropertyId::ContentType => 0x03,
            PropertyId::ResponseTopic => 0x08,
            PropertyId::CorrelationData => 0x09,
            PropertyId::SubscriptionIdentifier => 0x0B,
            PropertyId::SessionExpiryInterval => 0x11,
            PropertyId::AssignedClientIdentifier => 0x12,
            PropertyId::ServerKeepAlive => 0x13,
            PropertyId::AuthenticationMethod => 0x15,
            PropertyId::AuthenticationData => 0x16,
            PropertyId::RequestProblemInformation => 0x17,
            PropertyId::WillDelayInterval => 0x18,
            PropertyId::RequestResponseInformation => 0x19,
            PropertyId::ResponseInformation => 0x1A,
            PropertyId::ServerReference => 0x1C,
            PropertyId::ReasonString => 0x1F,
            PropertyId::ReceiveMaximum => 0x21,
            PropertyId::TopicAliasMaximum => 0x22,
            PropertyId::TopicAlias => 0x23,
            PropertyId::MaximumQoS => 0x24,
            PropertyId::RetainAvailable => 0x25,
            PropertyId::UserProperty => 0x26,
            PropertyId::MaximumPacketSize => 0x27,
            PropertyId::WildcardSubscriptionAvailable => 0x28,
            PropertyId::SubscriptionIdentifiersAvailable => 0x29,
            PropertyId::SharedSubscriptionAvailable => 0x2A,
        }
    }

    /// The identifier that `byte` stands for; nothing where it stands for none.
    pub fn from_code(byte: u8) -> (r: Option<PropertyId>)
        ensures
            r == PropertyId::spec_from_code(byte),
            r matches Some(id) ==> id.spec_code() == byte,
    {
        match byte {
            0x01 => Some(PropertyId::PayloadFormatIndicator),
            0x02 => Some(PropertyId::MessageExpiryInterval),
            0x03 => Some(PropertyId::ContentType),
            0x08 => Some(PropertyId::ResponseTopic),
            0x09 => Some(PropertyId::CorrelationData),
            0x0B => Some(PropertyId::SubscriptionIdentifier),
            0x11 => Some(PropertyId::SessionExpiryInterval),
            0x12 => Some(PropertyId::AssignedClientIdentifier),
            0x13 => Some(PropertyId::ServerKeepAlive),
            0x15 => Some(PropertyId::AuthenticationMethod),
            0x16 => Some(PropertyId::AuthenticationData),
            0x17 => Some(PropertyId::RequestProblemInformation),
            0x18 => Some(PropertyId::WillDelayInterval),
            0x19 => Some(PropertyId::RequestResponseInformation),
            0x1A => Some(PropertyId::ResponseInformation),
            0x1C => Some(PropertyId::ServerReference),
            0x1F => Some(PropertyId::ReasonString),
            0x21 => Some(PropertyId::ReceiveMaximum),
            0x22 => Some(PropertyId::TopicAliasMaximum),
            0x23 => Some(PropertyId::TopicAlias),
            0x24 => Some(PropertyId::MaximumQoS),
            0x25 => Some(PropertyId::RetainAvailable),
            0x26 => Some(PropertyId::UserProperty),
            0x27 => Some(PropertyId::MaximumPacketSize),
            0x28 => Some(PropertyId::WildcardSubscriptionAvailable),
            0x29 => Some(PropertyId::SubscriptionIdentifiersAvailable),
            0x2A => Some(PropertyId::SharedSubscriptionAvailable),
            _ => None,
        }
    }

    /// The type of the value that goes with the identifier.
    pub fn kind(&self) -> (r: PropertyKind)
        ensures
            r == self.spec_kind(),
    {
        match self {
            PropertyId::PayloadFormatIndicator
            | PropertyId::RequestProblemInformation
            | PropertyId::RequestResponseInformation
            | PropertyId::MaximumQoS
            | PropertyId::RetainAvailable
            | PropertyId::WildcardSubscriptionAvailable
            | PropertyId::SubscriptionIdentifiersAvailable
            | PropertyId::SharedSubscriptionAvailable => PropertyKind::Byte,
            PropertyId::MessageExpiryInterval
            | PropertyId::SessionExpiryInterval
            | PropertyId::WillDelayInterval
            | PropertyId::MaximumPacketSize => PropertyKind::FourByteInteger,
            PropertyId::ContentType
            | PropertyId::ResponseTopic
            | PropertyId::AssignedClientIdentifier
            | PropertyId::AuthenticationMethod
            | PropertyId::ResponseInformation
            | PropertyId::ServerReference
            | PropertyId::ReasonString => PropertyKind::Utf8String,
            PropertyId::CorrelationData
            | PropertyId::AuthenticationData => PropertyKind::BinaryData,
            PropertyId::SubscriptionIdentifier => PropertyKind::VariableByteInteger,
            PropertyId::ServerKeepAlive
            | PropertyId::ReceiveMaximum
            | PropertyId::TopicAliasMaximum
            | PropertyId::TopicAlias => PropertyKind::TwoByteInteger,
            PropertyId::UserProperty => PropertyKind::Utf8StringPair,
        }
    }

    /// Tells whether a set of properties may hold the identifier more than once.
    pub fn repeatable(&self) -> (r: bool)
        ensures
            r == self.spec_repeatable(),
    {
        match self {
            PropertyId::UserProperty | PropertyId::SubscriptionIdentifier => true,
            _ => false,
        }
    }

    /// Tells whether `scope` may carry a property with this identifier.
    pub fn allowed_in(&self, scope: PropertyScope) -> (r: bool)
        ensures
            r == self.spec_allowed_in(scope),
    {
        match self {
            PropertyId::PayloadFormatIndicator
            | PropertyId::MessageExpiryInterval
            | PropertyId::ContentType
            | PropertyId::ResponseTopic
            | PropertyId::CorrelationData => {
                matches!(
                    scope,
                    PropertyScope::Publish
                    | PropertyScope::Will
                )
            },
            PropertyId::SubscriptionIdentifier => {
                matches!(
                    scope,
                    PropertyScope::Publish
                    | PropertyScope::Subscribe
                )
            },
            PropertyId::SessionExpiryInterval => {
                matches!(
                    scope,
                    PropertyScope::Connect
                    | PropertyScope::Connack
                    | PropertyScope::Disconnect
                )
            },
            PropertyId::AssignedClientIdentifier
            | PropertyId::ServerKeepAlive
            | PropertyId::ResponseInformation
            | PropertyId::MaximumQoS
            | PropertyId::RetainAvailable
            | PropertyId::WildcardSubscriptionAvailable
            | PropertyId::SubscriptionIdentifiersAvailable
            | PropertyId::SharedSubscriptionAvailable => {
                matches!(
                    scope,
                    PropertyScope::Connack
                )
            },
            PropertyId::AuthenticationMethod
            | PropertyId::AuthenticationData => {
                matches!(
                    scope,
                    PropertyScope::Connect
                    | PropertyScope::Connack
                    | PropertyScope::Auth
                )
            },
            PropertyId::RequestProblemInformation
            | PropertyId::RequestResponseInformation => {
                matches!(
                    scope,
                    PropertyScope::Connect
                )
            },
            PropertyId::WillDelayInterval => {
                matches!(
                    scope,
                    PropertyScope::Will
                )
            },
            PropertyId::ServerReference => {
                matches!(
                    scope,
                    PropertyScope::Connack
                    | PropertyScope::Disconnect
                )
            },
            PropertyId::ReasonString => {
                matches!(
                    scope,
                    PropertyScope::Connack
                    | PropertyScope::Puback
                    | PropertyScope::Pubrec
                    | PropertyScope::Pubrel
                    | PropertyScope::Pubcomp
                    | PropertyScope::Suback
                    | PropertyScope::Unsuback
                    | PropertyScope::Disconnect
                    | PropertyScope::Auth
                )
            },
            PropertyId::ReceiveMaximum
            | PropertyId::TopicAliasMaximum
            | PropertyId::MaximumPacketSize => {
                matches!(
                    scope,
                    PropertyScope::Connect
                    | PropertyScope::Connack
                )
            },
            PropertyId::TopicAlias => {
                matches!(
                    scope,
                    PropertyScope::Publish
                )
            },
            PropertyId::UserProperty => {
                true
            },
        }
    }
}

} // verus!
