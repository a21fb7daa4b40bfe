//! The reason codes of MQTT v5: for each kind of packet that carries one, the
//! closed set of codes that it may carry, with the byte of each.

use vstd::prelude::*;

verus! {

/// The reason code of a Connack packet.
#[derive(Debug, Clone, Copy, PartialEq, Eq, Hash, Structural)]
pub enum ConnectReasonCode {
    Success,
    UnspecifiedError,
    MalformedPacket,
    ProtocolError,
    ImplementationSpecificError,
    UnsupportedProtocolVersion,
    ClientIdentifierNotValid,
    BadUsernameOrPassword,
    NotAuthorized,
    ServerUnavailable,
    ServerBusy,
    Banned,
    BadAuthenticationMethod,
    TopicNameInvalid,
    PacketTooLarge,
    QuotaExceeded,
    PayloadFormatInvalid,
    RetainNotSupported,
    QoSNotSupported,
    UseAnotherServer,
    ServerMoved,
    ConnectionRateExceeded,
}

impl ConnectReasonCode {
    /// The byte that stands for the code on the wire.
    pub open spec fn spec_code(self) -> u8 {
        match self {
            ConnectReasonCode::Success => 0x00,
            ConnectReasonCode::UnspecifiedError => 0x80,
            ConnectReasonCode::MalformedPacket => 0x81,
            ConnectReasonCode::ProtocolError => 0x82,
            ConnectReasonCode::ImplementationSpecificError => 0x83,
            ConnectReasonCode::UnsupportedProtocolVersion => 0x84,
            ConnectReasonCode::ClientIdentifierNotValid => 0x85,
            ConnectReasonCode::BadUsernameOrPassword => 0x86,
            ConnectReasonCode::NotAuthorized => 0x87,
            ConnectReasonCode::ServerUnavailable => 0x88,
            ConnectReasonCode::ServerBusy => 0x89,
            ConnectReasonCode::Banned => 0x8A,
            ConnectReasonCode::BadAuthenticationMethod => 0x8C,
            ConnectReasonCode::TopicNameInvalid => 0x90,
            ConnectReasonCode::PacketTooLarge => 0x95,
            ConnectReasonCode::QuotaExceeded => 0x97,
            ConnectReasonCode::PayloadFormatInvalid => 0x99,
            ConnectReasonCode::RetainNotSupported => 0x9A,
            ConnectReasonCode::QoSNotSupported => 0x9B,
            ConnectReasonCode::UseAnotherServer => 0x9C,
            ConnectReasonCode::ServerMoved => 0x9D,
            ConnectReasonCode::ConnectionRateExceeded => 0x9F,
        }
    }

    /// The code that `byte` stands for, if it stands for one of this packet.
    pub open spec fn spec_from_code(byte: u8) -> Option<ConnectReasonCode> {
        if byte == 0x00 {
            Some(ConnectReasonCode::Success)
        } else if byte == 0x80 {
            Some(ConnectReasonCode::UnspecifiedError)
        } else if byte == 0x81 {
            Some(ConnectReasonCode::MalformedPacket)
        } else if byte == 0x82 {
            Some(ConnectReasonCode::ProtocolError)
        } else if byte == 0x83 {
            Some(ConnectReasonCode::ImplementationSpecificError)
        } else if byte == 0x84 {
            Some(ConnectReasonCode::UnsupportedProtocolVersion)
        } else if byte == 0x85 {
            Some(ConnectReasonCode::ClientIdentifierNotValid)
        } else if byte == 0x86 {
            Some(ConnectReasonCode::BadUsernameOrPassword)
        } else if byte == 0x87 {
            Some(ConnectReasonCode::NotAuthorized)
        } else if byte == 0x88 {
            Some(ConnectReasonCode::ServerUnavailable)
        } else if byte == 0x89 {
            Some(ConnectReasonCode::ServerBusy)
        } else if byte == 0x8A {
            Some(ConnectReasonCode::Banned)
        } else if byte == 0x8C {
            Some(ConnectReasonCode::BadAuthenticationMethod)
        } else if byte == 0x90 {
            Some(ConnectReasonCode::TopicNameInvalid)
        } else if byte == 0x95 {
            Some(ConnectReasonCode::PacketTooLarge)
        } else if byte == 0x97 {
            Some(ConnectReasonCode::QuotaExceeded)
        } else if byte == 0x99 {
            Some(ConnectReasonCode::PayloadFormatInvalid)
        } else if byte == 0x9A {
            Some(ConnectReasonCode::RetainNotSupported)
        } else if byte == 0x9B {
            Some(ConnectReasonCode::QoSNotSupported)
        } else if byte == 0x9C {
            Some(ConnectReasonCode::UseAnotherServer)
        } else if byte == 0x9D {
            Some(ConnectReasonCode::ServerMoved)
        } else if byte == 0x9F {
            Some(ConnectReasonCode::ConnectionRateExceeded)
        } else {
            None
        }
    }

    /// The byte that stands for the code on the wire.
    pub fn code(&self) -> (byte: u8)
        ensures
            byte == self.spec_code(),
            ConnectReasonCode::spec_from_code(byte) == Some(*self),
    {
        match self {
            ConnectReasonCode::Success => 0x00,
            ConnectReasonCode::UnspecifiedError => 0x80,
            ConnectReasonCode::MalformedPacket => 0x81,
            ConnectReasonCode::ProtocolError => 0x82,
            ConnectReasonCode::ImplementationSpecificError => 0x83,
            ConnectReasonCode::UnsupportedProtocolVersion => 0x84,
            ConnectReasonCode::ClientIdentifierNotValid => 0x85,
            ConnectReasonCode::BadUsernameOrPassword => 0x86,
            ConnectReasonCode::NotAuthorized => 0x87,
            ConnectReasonCode::ServerUnavailable => 0x88,
            ConnectReasonCode::ServerBusy => 0x89,
            ConnectReasonCode::Banned => 0x8A,
            ConnectReasonCode::BadAuthenticationMethod => 0x8C,
            ConnectReasonCode::TopicNameInvalid => 0x90,
            ConnectReasonCode::PacketTooLarge => 0x95,
            ConnectReasonCode::QuotaExceeded => 0x97,
            ConnectReasonCode::PayloadFormatInvalid => 0x99,
            ConnectReasonCode::RetainNotSupported => 0x9A,
            ConnectReasonCode::QoSNotSupported => 0x9B,
            ConnectReasonCode::UseAnotherServer => 0x9C,
            ConnectReasonCode::ServerMoved => 0x9D,
            ConnectReasonCode::ConnectionRateExceeded => 0x9F,
        }
    }

    /// The code that `byte` stands for; nothing where it stands for none of this packet.
    pub fn from_code(byte: u8) -> (r: Option<ConnectReasonCode>)
        ensures
            r == ConnectReasonCode::spec_from_code(byte),
            r matches Some(code) ==> code.spec_code() == byte,
    {
        match byte {
            0x00 => Some(ConnectReasonCode::Success),
            0x80 => Some(ConnectReasonCode::UnspecifiedError),
            0x81 => Some(ConnectReasonCode::MalformedPacket),
            0x82 => Some(ConnectReasonCode::ProtocolError),
            0x83 => Some(ConnectReasonCode::ImplementationSpecificError),
            0x84 => Some(ConnectReasonCode::UnsupportedProtocolVersion),
            0x85 => Some(ConnectReasonCode::ClientIdentifierNotValid),
            0x86 => Some(ConnectReasonCode::BadUsernameOrPassword),
            0x87 => Some(ConnectReasonCode::NotAuthorized),
            0x88 => Some(ConnectReasonCode::ServerUnavailable),
            0x89 => Some(ConnectReasonCode::ServerBusy),
            0x8A => Some(ConnectReasonCode::Banned),
            0x8C => Some(ConnectReasonCode::BadAuthenticationMethod),
            0x90 => Some(ConnectReasonCode::TopicNameInvalid),
            0x95 => Some(ConnectReasonCode::PacketTooLarge),
            0x97 => Some(ConnectReasonCode::QuotaExceeded),
            0x99 => Some(ConnectReasonCode::PayloadFormatInvalid),
            0x9A => Some(ConnectReasonCode::RetainNotSupported),
            0x9B => Some(ConnectReasonCode::QoSNotSupported),
            0x9C => Some(ConnectReasonCode::UseAnotherServer),
            0x9D => Some(ConnectReasonCode::ServerMoved),
            0x9F => Some(ConnectReasonCode::ConnectionRateExceeded),
            _ => None,
        }
    }
}

/// Each code of `ConnectReasonCode` has a byte of its own: the byte of a code
/// stands for that code, and a byte that stands for a code is the byte of that
/// code.
pub proof fn lemma_connect_reason_code_round_trip(code: ConnectReasonCode, byte: u8)
    ensures
        ConnectReasonCode::spec_from_code(code.spec_code()) == Some(code),
        ConnectReasonCode::spec_from_code(byte) == Some(code) ==> code.spec_code() == byte,
{
}

/// The reason code of a Puback packet.
#[derive(Debug, Clone, Copy, PartialEq, Eq, Hash, Structural)]
pub enum PubackReasonCode {
    Success,
    NoMatchingSubscribers,
    UnspecifiedError,
    ImplementationSpecificError,
    NotAuthorized,
    TopicNameInvalid,
    PacketIdentifierInUse,
    QuotaExceeded,
    PayloadFormatInvalid,
}

impl PubackReasonCode {
    /// The byte that stands for the code on the wire.
    pub open spec fn spec_code(self) -> u8 {
        match self {
            PubackReasonCode::Success => 0x00,
            PubackReasonCode::NoMatchingSubscribers => 0x10,
            PubackReasonCode::UnspecifiedError => 0x80,
            PubackReasonCode::ImplementationSpecificError => 0x83,
            PubackReasonCode::NotAuthorized => 0x87,
            PubackReasonCode::TopicNameInvalid => 0x90,
            PubackReasonCode::PacketIdentifierInUse => 0x91,
            PubackReasonCode::QuotaExceeded => 0x97,
            PubackReasonCode::PayloadFormatInvalid => 0x99,
        }
    }

    /// The code that `byte` stands for, if it stands for one of this packet.
    pub open spec fn spec_from_code(byte: u8) -> Option<PubackReasonCode> {
        if byte == 0x00 {
            Some(PubackReasonCode::Success)
        } else if byte == 0x10 {
            Some(PubackReasonCode::NoMatchingSubscribers)
        } else if byte == 0x80 {
            Some(PubackReasonCode::UnspecifiedError)
        } else if byte == 0x83 {
            Some(PubackReasonCode::ImplementationSpecificError)
        } else if byte == 0x87 {
            Some(PubackReasonCode::NotAuthorized)
        } else if byte == 0x90 {
            Some(PubackReasonCode::TopicNameInvalid)
        } else if byte == 0x91 {
            Some(PubackReasonCode::PacketIdentifierInUse)
        } else if byte == 0x97 {
            Some(PubackReasonCode::QuotaExceeded)
        } else if byte == 0x99 {
            Some(PubackReasonCode::PayloadFormatInvalid)
        } else {
            None
        }
    }

    /// The byte that stands for the code on the wire.
    pub fn code(&self) -> (byte: u8)
        ensures
            byte == self.spec_code(),
            PubackReasonCode::spec_from_code(byte) == Some(*self),
    {
        match self {
            PubackReasonCode::Success => 0x00,
            PubackReasonCode::NoMatchingSubscribers => 0x10,
            PubackReasonCode::UnspecifiedError => 0x80,
            PubackReasonCode::ImplementationSpecificError => 0x83,
            PubackReasonCode::NotAuthorized => 0x87,
            PubackReasonCode::TopicNameInvalid => 0x90,
            PubackReasonCode::PacketIdentifierInUse => 0x91,
            PubackReasonCode::QuotaExceeded => 0x97,
            PubackReasonCode::PayloadFormatInvalid => 0x99,
        }
    }

    /// The code that `byte` stands for; nothing where it stands for none of this packet.
    pub fn from_code(byte: u8) -> (r: Option<PubackReasonCode>)
        ensures
            r == PubackReasonCode::spec_from_code(byte),
            r matches Some(code) ==> code.spec_code() == byte,
    {
        match byte {
            0x00 => Some(PubackReasonCode::Success),
            0x10 => Some(PubackReasonCode::NoMatchingSubscribers),
            0x80 => Some(PubackReasonCode::UnspecifiedError),
            0x83 => Some(PubackReasonCode::ImplementationSpecificError),
            0x87 => Some(PubackReasonCode::NotAuthorized),
            0x90 => Some(PubackReasonCode::TopicNameInvalid),
            0x91 => Some(PubackReasonCode::PacketIdentifierInUse),
            0x97 => Some(PubackReasonCode::QuotaExceeded),
            0x99 => Some(PubackReasonCode::PayloadFormatInvalid),
            _ => None,
        }
    }

    /// The peer took the message: the code is below 0x80.
    pub open spec fn spec_is_success(self) -> bool {
        self == PubackReasonCode::Success || self == PubackReasonCode::NoMatchingSubscribers
    }

    /// Tells whether the peer took the message.
    pub fn is_success(&self) -> (r: bool)
        ensures
            r == self.spec_is_success(),
    {
        match self {
            PubackReasonCode::Success | PubackReasonCode::NoMatchingSubscribers => true,
            _ => false,
        }
    }
}

/// Each code of `PubackReasonCode` has a byte of its own: the byte of a code
/// stands for that code, and a byte that stands for a code is the byte of that
/// code.
pub proof fn lemma_puback_reason_code_round_trip(code: PubackReasonCode, byte: u8)
    ensures
        PubackReasonCode::spec_from_code(code.spec_code()) == Some(code),
        PubackReasonCode::spec_from_code(byte) == Some(code) ==> code.spec_code() == byte,
{
}

/// The reason code of a Pubrec packet.
#[derive(Debug, Clone, Copy, PartialEq, Eq, Hash, Structural)]
pub enum PubrecReasonCode {
    Success,
    NoMatchingSubscribers,
    UnspecifiedError,
    ImplementationSpecificError,
    NotAuthorized,
    TopicNameInvalid,
    PacketIdentifierInUse,
    QuotaExceeded,
    PayloadFormatInvalid,
}

impl PubrecReasonCode {
    /// The byte that stands for the code on the wire.
    pub open spec fn spec_code(self) -> u8 {
        match self {
            PubrecReasonCode::Success => 0x00,
            PubrecReasonCode::NoMatchingSubscribers => 0x10,
            PubrecReasonCode::UnspecifiedError => 0x80,
            PubrecReasonCode::ImplementationSpecificError => 0x83,
            PubrecReasonCode::NotAuthorized => 0x87,
            PubrecReasonCode::TopicNameInvalid => 0x90,
            PubrecReasonCode::PacketIdentifierInUse => 0x91,
            PubrecReasonCode::QuotaExceeded => 0x97,
            PubrecReasonCode::PayloadFormatInvalid => 0x99,
        }
    }

    /// The code that `byte` stands for, if it stands for one of this packet.
    pub open spec fn spec_from_code(byte: u8) -> Option<PubrecReasonCode> {
        if byte == 0x00 {
            Some(PubrecReasonCode::Success)
        } else if byte == 0x10 {
            Some(PubrecReasonCode::NoMatchingSubscribers)
        } else if byte == 0x80 {
            Some(PubrecReasonCode::UnspecifiedError)
        } else if byte == 0x83 {
            Some(PubrecReasonCode::ImplementationSpecificError)
        } else if byte == 0x87 {
            Some(PubrecReasonCode::NotAuthorized)
        } else if byte == 0x90 {
            Some(PubrecReasonCode::TopicNameInvalid)
        } else if byte == 0x91 {
            Some(PubrecReasonCode::PacketIdentifierInUse)
        } else if byte == 0x97 {
            Some(PubrecReasonCode::QuotaExceeded)
        } else if byte == 0x99 {
            Some(PubrecReasonCode::PayloadFormatInvalid)
        } else {
            None
        }
    }

    /// The byte that stands for the code on the wire.
    pub fn code(&self) -> (byte: u8)
        ensures
            byte == self.spec_code(),
            PubrecReasonCode::spec_from_code(byte) == Some(*self),
    {
        match self {
            PubrecReasonCode::Success => 0x00,
            PubrecReasonCode::NoMatchingSubscribers => 0x10,
            PubrecReasonCode::UnspecifiedError => 0x80,
            PubrecReasonCode::ImplementationSpecificError => 0x83,
            PubrecReasonCode::NotAuthorized => 0x87,
            PubrecReasonCode::TopicNameInvalid => 0x90,
            PubrecReasonCode::PacketIdentifierInUse => 0x91,
            PubrecReasonCode::QuotaExceeded => 0x97,
            PubrecReasonCode::PayloadFormatInvalid => 0x99,
        }
    }

    /// The code that `byte` stands for; nothing where it stands for none of this packet.
    pub fn from_code(byte: u8) -> (r: Option<PubrecReasonCode>)
        ensures
            r == PubrecReasonCode::spec_from_code(byte),
            r matches Some(code) ==> code.spec_code() == byte,
    {
        match byte {
            0x00 => Some(PubrecReasonCode::Success),
            0x10 => Some(PubrecReasonCode::NoMatchingSubscribers),
            0x80 => Some(PubrecReasonCode::UnspecifiedError),
            0x83 => Some(PubrecReasonCode::ImplementationSpecificError),
            0x87 => Some(PubrecReasonCode::NotAuthorized),
            0x90 => Some(PubrecReasonCode::TopicNameInvalid),
            0x91 => Some(PubrecReasonCode::PacketIdentifierInUse),
            0x97 => Some(PubrecReasonCode::QuotaExceeded),
            0x99 => Some(PubrecReasonCode::PayloadFormatInvalid),
            _ => None,
        }
    }

    /// The peer took the message: the code is below 0x80.
    pub open spec fn spec_is_success(self) -> bool {
        self == PubrecReasonCode::Success || self == PubrecReasonCode::NoMatchingSubscribers
    }

    /// Tells whether the peer took the message.
    pub fn is_success(&self) -> (r: bool)
        ensures
            r == self.spec_is_success(),
    {
        match self {
            PubrecReasonCode::Success | PubrecReasonCode::NoMatchingSubscribers => true,
            _ => false,
        }
    }
}

/// Each code of `PubrecReasonCode` has a byte of its own: the byte of a code
/// stands for that code, and a byte that stands for a code is the byte of that
/// code.
pub proof fn lemma_pubrec_reason_code_round_trip(code: PubrecReasonCode, byte: u8)
    ensures
        PubrecReasonCode::spec_from_code(code.spec_code()) == Some(code),
        PubrecReasonCode::spec_from_code(byte) == Some(code) ==> code.spec_code() == byte,
{
}

/// The reason code of a Pubrel packet.
#[derive(Debug, Clone, Copy, PartialEq, Eq, Hash, Structural)]
pub enum PubrelReasonCode {
    Success,
    PacketIdentifierNotFound,
}

impl PubrelReasonCode {
    /// The byte that stands for the code on the wire.
    pub open spec fn spec_code(self) -> u8 {
        match self {
            PubrelReasonCode::Success => 0x00,
            PubrelReasonCode::PacketIdentifierNotFound => 0x92,
        }
    }

    /// The code that `byte` stands for, if it stands for one of this packet.
    pub open spec fn spec_from_code(byte: u8) -> Option<PubrelReasonCode> {
        if byte == 0x00 {
            Some(PubrelReasonCode::Success)
        } else if byte == 0x92 {
            Some(PubrelReasonCode::PacketIdentifierNotFound)
        } else {
            None
        }
    }

    /// The byte that stands for the code on the wire.
    pub fn code(&self) -> (byte: u8)
        ensures
            byte == self.spec_code(),
            PubrelReasonCode::spec_from_code(byte) == Some(*self),
    {
        match self {
            PubrelReasonCode::Success => 0x00,
            PubrelReasonCode::PacketIdentifierNotFound => 0x92,
        }
    }

    /// The code that `byte` stands for; nothing where it stands for none of this packet.
    pub fn from_code(byte: u8) -> (r: Option<PubrelReasonCode>)
        ensures
            r == PubrelReasonCode::spec_from_code(byte),
            r matches Some(code) ==> code.spec_code() == byte,
    {
        match byte {
            0x00 => Some(PubrelReasonCode::Success),
            0x92 => Some(PubrelReasonCode::PacketIdentifierNotFound),
            _ => None,
        }
    }
}

/// Each code of `PubrelReasonCode` has a byte of its own: the byte of a code
/// stands for that code, and a byte that stands for a code is the byte of that
/// code.
pub proof fn lemma_pubrel_reason_code_round_trip(code: PubrelReasonCode, byte: u8)
    ensures
        PubrelReasonCode::spec_from_code(code.spec_code()) == Some(code),
        PubrelReasonCode::spec_from_code(byte) == Some(code) ==> code.spec_code() == byte,
{
}

/// The reason code of a Pubcomp packet.
#[derive(Debug, Clone, Copy, PartialEq, Eq, Hash, Structural)]
pub enum PubcompReasonCode {
    Success,
    PacketIdentifierNotFound,
}

impl PubcompReasonCode {
    /// The byte that stands for the code on the wire.
    pub open spec fn spec_code(self) -> u8 {
        match self {
            PubcompReasonCode::Success => 0x00,
            PubcompReasonCode::PacketIdentifierNotFound => 0x92,
        }
    }

    /// The code that `byte` stands for, if it stands for one of this packet.
    pub open spec fn spec_from_code(byte: u8) -> Option<PubcompReasonCode> {
        if byte == 0x00 {
            Some(PubcompReasonCode::Success)
        } else if byte == 0x92 {
            Some(PubcompReasonCode::PacketIdentifierNotFound)
        } else {
            None
        }
    }

    /// The byte that stands for the code on the wire.
    pub fn code(&self) -> (byte: u8)
        ensures
            byte == self.spec_code(),
            PubcompReasonCode::spec_from_code(byte) == Some(*self),
    {
        match self {
            PubcompReasonCode::Success => 0x00,
            PubcompReasonCode::PacketIdentifierNotFound => 0x92,
        }
    }

    /// The code that `byte` stands for; nothing where it stands for none of this packet.
    pub fn from_code(byte: u8) -> (r: Option<PubcompReasonCode>)
        ensures
            r == PubcompReasonCode::spec_from_code(byte),
            r matches Some(code) ==> code.spec_code() == byte,
    {
        match byte {
            0x00 => Some(PubcompReasonCode::Success),
            0x92 => Some(PubcompReasonCode::PacketIdentifierNotFound),
            _ => None,
        }
    }
}

/// Each code of `PubcompReasonCode` has a byte of its own: the byte of a code
/// stands for that code, and a byte that stands for a code is the byte of that
/// code.
pub proof fn lemma_pubcomp_reason_code_round_trip(code: PubcompReasonCode, byte: u8)
    ensures
        PubcompReasonCode::spec_from_code(code.spec_code()) == Some(code),
        PubcompReasonCode::spec_from_code(byte) == Some(code) ==> code.spec_code() == byte,
{
}

/// The reason code that a Suback packet gives for one subscription.
#[derive(Debug, Clone, Copy, PartialEq, Eq, Hash, Structural)]
pub enum SubackReasonCode {
    GrantedQoS0,
    GrantedQoS1,
    GrantedQoS2,
    UnspecifiedError,
    ImplementationSpecificError,
    NotAuthorized,
    TopicFilterInvalid,
    PacketIdentifierInUse,
    QuotaExceeded,
    SharedSubscriptionsNotSupported,
    SubscriptionIdentifiersNotSupported,
    WildcardSubscriptionsNotSupported,
}

impl SubackReasonCode {
    /// The byte that stands for the code on the wire.
    pub open spec fn spec_code(self) -> u8 {
        match self {
            SubackReasonCode::GrantedQoS0 => 0x00,
            SubackReasonCode::GrantedQoS1 => 0x01,
            SubackReasonCode::GrantedQoS2 => 0x02,
            SubackReasonCode::UnspecifiedError => 0x80,
            SubackReasonCode::ImplementationSpecificError => 0x83,
            SubackReasonCode::NotAuthorized => 0x87,
            SubackReasonCode::TopicFilterInvalid => 0x8F,
            SubackReasonCode::PacketIdentifierInUse => 0x91,
            SubackReasonCode::QuotaExceeded => 0x97,
            SubackReasonCode::SharedSubscriptionsNotSupported => 0x9E,
            SubackReasonCode::SubscriptionIdentifiersNotSupported => 0xA1,
            SubackReasonCode::WildcardSubscriptionsNotSupported => 0xA2,
        }
    }

    /// The code that `byte` stands for, if it stands for one of this packet.
    pub open spec fn spec_from_code(byte: u8) -> Option<SubackReasonCode> {
        if byte == 0x00 {
            Some(SubackReasonCode::GrantedQoS0)
        } else if byte == 0x01 {
            Some(SubackReasonCode::GrantedQoS1)
        } else if byte == 0x02 {
            Some(SubackReasonCode::GrantedQoS2)
        } else if byte == 0x80 {
            Some(SubackReasonCode::UnspecifiedError)
        } else if byte == 0x83 {
            Some(SubackReasonCode::ImplementationSpecificError)
        } else if byte == 0x87 {
            Some(SubackReasonCode::NotAuthorized)
        } else if byte == 0x8F {
            Some(SubackReasonCode::TopicFilterInvalid)
        } else if byte == 0x91 {
            Some(SubackReasonCode::PacketIdentifierInUse)
        } else if byte == 0x97 {
            Some(SubackReasonCode::QuotaExceeded)
        } else if byte == 0x9E {
            Some(SubackReasonCode::SharedSubscriptionsNotSupported)
        } else if byte == 0xA1 {
            Some(SubackReasonCode::SubscriptionIdentifiersNotSupported)
        } else if byte == 0xA2 {
            Some(SubackReasonCode::WildcardSubscriptionsNotSupported)
        } else {
            None
        }
    }

    /// The byte that stands for the code on the wire.
    pub fn code(&self) -> (byte: u8)
        ensures
            byte == self.spec_code(),
            SubackReasonCode::spec_from_code(byte) == Some(*self),
    {
        match self {
            SubackReasonCode::GrantedQoS0 => 0x00,
            SubackReasonCode::GrantedQoS1 => 0x01,
            SubackReasonCode::GrantedQoS2 => 0x02,
            SubackReasonCode::UnspecifiedError => 0x80,
            SubackReasonCode::ImplementationSpecificError => 0x83,
            SubackReasonCode::NotAuthorized => 0x87,
            SubackReasonCode::TopicFilterInvalid => 0x8F,
            SubackReasonCode::PacketIdentifierInUse => 0x91,
            SubackReasonCode::QuotaExceeded => 0x97,
            SubackReasonCode::SharedSubscriptionsNotSupported => 0x9E,
            SubackReasonCode::SubscriptionIdentifiersNotSupported => 0xA1,
            SubackReasonCode::WildcardSubscriptionsNotSupported => 0xA2,
        }
    }

    /// The code that `byte` stands for; nothing where it stands for none of this packet.
    pub fn from_code(byte: u8) -> (r: Option<SubackReasonCode>)
        ensures
            r == SubackReasonCode::spec_from_code(byte),
            r matches Some(code) ==> code.spec_code() == byte,
    {
        match byte {
            0x00 => Some(SubackReasonCode::GrantedQoS0),
            0x01 => Some(SubackReasonCode::GrantedQoS1),
            0x02 => Some(SubackReasonCode::GrantedQoS2),
            0x80 => Some(SubackReasonCode::UnspecifiedError),
            0x83 => Some(SubackReasonCode::ImplementationSpecificError),
            0x87 => Some(SubackReasonCode::NotAuthorized),
            0x8F => Some(SubackReasonCode::TopicFilterInvalid),
            0x91 => Some(SubackReasonCode::PacketIdentifierInUse),
            0x97 => Some(SubackReasonCode::QuotaExceeded),
            0x9E => Some(SubackReasonCode::SharedSubscriptionsNotSupported),
            0xA1 => Some(SubackReasonCode::SubscriptionIdentifiersNotSupported),
            0xA2 => Some(SubackReasonCode::WildcardSubscriptionsNotSupported),
            _ => None,
        }
    }

    /// The code granted a subscription: the maximum quality of service is 0, 1 or 2.
    pub open spec fn spec_is_granted(self) -> bool {
        self == SubackReasonCode::GrantedQoS0 || self == SubackReasonCode::GrantedQoS1 || self
            == SubackReasonCode::GrantedQoS2
    }

    /// The code itself where it granted the subscription, and nothing where
    /// it refused it.
    pub fn granted(&self) -> (r: Option<SubackReasonCode>)
        ensures
            r == if self.spec_is_granted() {
                Some(*self)
            } else {
                None
            },
    {
        match self {
            SubackReasonCode::GrantedQoS0
            | SubackReasonCode::GrantedQoS1
            | SubackReasonCode::GrantedQoS2 => Some(*self),
            _ => None,
        }
    }
}

/// Each code of `SubackReasonCode` has a byte of its own: the byte of a code
/// stands for that code, and a byte that stands for a code is the byte of that
/// code.
pub proof fn lemma_suback_reason_code_round_trip(code: SubackReasonCode, byte: u8)
    ensures
        SubackReasonCode::spec_from_code(code.spec_code()) == Some(code),
        SubackReasonCode::spec_from_code(byte) == Some(code) ==> code.spec_code() == byte,
{
}

/// The reason code that an Unsuback packet gives for one topic filter.
#[derive(Debug, Clone, Copy, PartialEq, Eq, Hash, Structural)]
pub enum UnsubackReasonCode {
    Success,
    NoSubscriptionExisted,
    UnspecifiedError,
    ImplementationSpecificError,
    NotAuthorized,
    TopicFilterInvalid,
    PacketIdentifierInUse,
}

impl UnsubackReasonCode {
    /// The byte that stands for the code on the wire.
    pub open spec fn spec_code(self) -> u8 {
        match self {
            UnsubackReasonCode::Success => 0x00,
            UnsubackReasonCode::NoSubscriptionExisted => 0x11,
            UnsubackReasonCode::UnspecifiedError => 0x80,
            UnsubackReasonCode::ImplementationSpecificError => 0x83,
            UnsubackReasonCode::NotAuthorized => 0x87,
            UnsubackReasonCode::TopicFilterInvalid => 0x8F,
            UnsubackReasonCode::PacketIdentifierInUse => 0x91,
        }
    }

    /// The code that `byte` stands for, if it stands for one of this packet.
    pub open spec fn spec_from_code(byte: u8) -> Option<UnsubackReasonCode> {
        if byte == 0x00 {
            Some(UnsubackReasonCode::Success)
        } else if byte == 0x11 {
            Some(UnsubackReasonCode::NoSubscriptionExisted)
        } else if byte == 0x80 {
            Some(UnsubackReasonCode::UnspecifiedError)
        } else if byte == 0x83 {
            Some(UnsubackReasonCode::ImplementationSpecificError)
        } else if byte == 0x87 {
            Some(UnsubackReasonCode::NotAuthorized)
        } else if byte == 0x8F {
            Some(UnsubackReasonCode::TopicFilterInvalid)
        } else if byte == 0x91 {
            Some(UnsubackReasonCode::PacketIdentifierInUse)
        } else {
            None
        }
    }

    /// The byte that stands for the code on the wire.
    pub fn code(&self) -> (byte: u8)
        ensures
            byte == self.spec_code(),
            UnsubackReasonCode::spec_from_code(byte) == Some(*self),
    {
        match self {
            UnsubackReasonCode::Success => 0x00,
            UnsubackReasonCode::NoSubscriptionExisted => 0x11,
            UnsubackReasonCode::UnspecifiedError => 0x80,
            UnsubackReasonCode::ImplementationSpecificError => 0x83,
            UnsubackReasonCode::NotAuthorized => 0x87,
            UnsubackReasonCode::TopicFilterInvalid => 0x8F,
            UnsubackReasonCode::PacketIdentifierInUse => 0x91,
        }
    }

    /// The code that `byte` stands for; nothing where it stands for none of this packet.
    pub fn from_code(byte: u8) -> (r: Option<UnsubackReasonCode>)
        ensures
            r == UnsubackReasonCode::spec_from_code(byte),
            r matches Some(code) ==> code.spec_code() == byte,
    {
        match byte {
            0x00 => Some(UnsubackReasonCode::Success),
            0x11 => Some(UnsubackReasonCode::NoSubscriptionExisted),
            0x80 => Some(UnsubackReasonCode::UnspecifiedError),
            0x83 => Some(UnsubackReasonCode::ImplementationSpecificError),
            0x87 => Some(UnsubackReasonCode::NotAuthorized),
            0x8F => Some(UnsubackReasonCode::TopicFilterInvalid),
            0x91 => Some(UnsubackReasonCode::PacketIdentifierInUse),
            _ => None,
        }
    }
}

/// Each code of `UnsubackReasonCode` has a byte of its own: the byte of a code
/// stands for that code, and a byte that stands for a code is the byte of that
/// code.
pub proof fn lemma_unsuback_reason_code_round_trip(code: UnsubackReasonCode, byte: u8)
    ensures
        UnsubackReasonCode::spec_from_code(code.spec_code()) == Some(code),
        UnsubackReasonCode::spec_from_code(byte) == Some(code) ==> code.spec_code() == byte,
{
}

/// The reason code of a Disconnect packet.
#[derive(Debug, Clone, Copy, PartialEq, Eq, Hash, Structural)]
pub enum DisconnectReasonCode {
    NormalDisconnection,
    DisconnectWithWillMessage,
    UnspecifiedError,
    MalformedPacket,
    ProtocolError,
    ImplementationSpecificError,
    NotAuthorized,
    ServerBusy,
    ServerShuttingDown,
    KeepAliveTimeout,
    SessionTakenOver,
    TopicFilterInvalid,
    TopicNameInvalid,
    ReceiveMaximumExceeded,
    TopicAliasInvalid,
    PacketTooLarge,
    MessageRateTooHigh,
    QuotaExceeded,
    AdministrativeAction,
    PayloadFormatInvalid,
    RetainNotSupported,
    QoSNotSupported,
    UseAnotherServer,
    ServerMoved,
    SharedSubscriptionsNotSupported,
    ConnectionRateExceeded,
    MaximumConnectTime,
    SubscriptionIdentifiersNotSupported,
    WildcardSubscriptionsNotSupported,
}

impl DisconnectReasonCode {
    /// The byte that stands for the code on the wire.
    pub open spec fn spec_code(self) -> u8 {
        match self {
            DisconnectReasonCode::NormalDisconnection => 0x00,
            DisconnectReasonCode::DisconnectWithWillMessage => 0x04,
            DisconnectReasonCode::UnspecifiedError => 0x80,
            DisconnectReasonCode::MalformedPacket => 0x81,
            DisconnectReasonCode::ProtocolError => 0x82,
            DisconnectReasonCode::ImplementationSpecificError => 0x83,
            DisconnectReasonCode::NotAuthorized => 0x87,
            DisconnectReasonCode::ServerBusy => 0x89,
            DisconnectReasonCode::ServerShuttingDown => 0x8B,
            DisconnectReasonCode::KeepAliveTimeout => 0x8D,
            DisconnectReasonCode::SessionTakenOver => 0x8E,
            DisconnectReasonCode::TopicFilterInvalid => 0x8F,
            DisconnectReasonCode::TopicNameInvalid => 0x90,
            DisconnectReasonCode::ReceiveMaximumExceeded => 0x93,
            DisconnectReasonCode::TopicAliasInvalid => 0x94,
            DisconnectReasonCode::PacketTooLarge => 0x95,
            DisconnectReasonCode::MessageRateTooHigh => 0x96,
            DisconnectReasonCode::QuotaExceeded => 0x97,
            DisconnectReasonCode::AdministrativeAction => 0x98,
            DisconnectReasonCode::PayloadFormatInvalid => 0x99,
            DisconnectReasonCode::RetainNotSupported => 0x9A,
            DisconnectReasonCode::QoSNotSupported => 0x9B,
            DisconnectReasonCode::UseAnotherServer => 0x9C,
            DisconnectReasonCode::ServerMoved => 0x9D,
            DisconnectReasonCode::SharedSubscriptionsNotSupported => 0x9E,
            DisconnectReasonCode::ConnectionRateExceeded => 0x9F,
            DisconnectReasonCode::MaximumConnectTime => 0xA0,
            DisconnectReasonCode::SubscriptionIdentifiersNotSupported => 0xA1,
            DisconnectReasonCode::WildcardSubscriptionsNotSupported => 0xA2,
        }
    }

    /// The code that `byte` stands for, if it stands for one of this packet.
    pub open spec fn spec_from_code(byte: u8) -> Option<DisconnectReasonCode> {
        if byte == 0x00 {
            Some(DisconnectReasonCode::NormalDisconnection)
        } else if byte == 0x04 {
            Some(DisconnectReasonCode::DisconnectWithWillMessage)
        } else if byte == 0x80 {
            Some(DisconnectReasonCode::UnspecifiedError)
        } else if byte == 0x81 {
            Some(DisconnectReasonCode::MalformedPacket)
        } else if byte == 0x82 {
            Some(DisconnectReasonCode::ProtocolError)
        } else if byte == 0x83 {
            Some(DisconnectReasonCode::ImplementationSpecificError)
        } else if byte == 0x87 {
            Some(DisconnectReasonCode::NotAuthorized)
        } else if byte == 0x89 {
            Some(DisconnectReasonCode::ServerBusy)
        } else if byte == 0x8B {
            Some(DisconnectReasonCode::ServerShuttingDown)
        } else if byte == 0x8D {
            Some(DisconnectReasonCode::KeepAliveTimeout)
        } else if byte == 0x8E {
            Some(DisconnectReasonCode::SessionTakenOver)
        } else if byte == 0x8F {
            Some(DisconnectReasonCode::TopicFilterInvalid)
        } else if byte == 0x90 {
            Some(DisconnectReasonCode::TopicNameInvalid)
        } else if byte == 0x93 {
            Some(DisconnectReasonCode::ReceiveMaximumExceeded)
        } else if byte == 0x94 {
            Some(DisconnectReasonCode::TopicAliasInvalid)
        } else if byte == 0x95 {
            Some(DisconnectReasonCode::PacketTooLarge)
        } else if byte == 0x96 {
            Some(DisconnectReasonCode::MessageRateTooHigh)
        } else if byte == 0x97 {
            Some(DisconnectReasonCode::QuotaExceeded)
        } else if byte == 0x98 {
            Some(DisconnectReasonCode::AdministrativeAction)
        } else if byte == 0x99 {
            Some(DisconnectReasonCode::PayloadFormatInvalid)
        } else if byte == 0x9A {
            Some(DisconnectReasonCode::RetainNotSupported)
        } else if byte == 0x9B {
            Some(DisconnectReasonCode::QoSNotSupported)
        } else if byte == 0x9C {
            Some(DisconnectReasonCode::UseAnotherServer)
        } else if byte == 0x9D {
            Some(DisconnectReasonCode::ServerMoved)
        } else if byte == 0x9E {
            Some(DisconnectReasonCode::SharedSubscriptionsNotSupported)
        } else if byte == 0x9F {
            Some(DisconnectReasonCode::ConnectionRateExceeded)
        } else if byte == 0xA0 {
            Some(DisconnectReasonCode::MaximumConnectTime)
        } else if byte == 0xA1 {
            Some(DisconnectReasonCode::SubscriptionIdentifiersNotSupported)
        } else if byte == 0xA2 {
            Some(DisconnectReasonCode::WildcardSubscriptionsNotSupported)
        } else {
            None
        }
    }

    /// The byte that stands for the code on the wire.
    pub fn code(&self) -> (byte: u8)
        ensures
            byte == self.spec_code(),
            DisconnectReasonCode::spec_from_code(byte) == Some(*self),
    {
        match self {
            DisconnectReasonCode::NormalDisconnection => 0x00,
            DisconnectReasonCode::DisconnectWithWillMessage => 0x04,
            DisconnectReasonCode::UnspecifiedError => 0x80,
            DisconnectReasonCode::MalformedPacket => 0x81,
            DisconnectReasonCode::ProtocolError => 0x82,
            DisconnectReasonCode::ImplementationSpecificError => 0x83,
            DisconnectReasonCode::NotAuthorized => 0x87,
            DisconnectReasonCode::ServerBusy => 0x89,
            DisconnectReasonCode::ServerShuttingDown => 0x8B,
            DisconnectReasonCode::KeepAliveTimeout => 0x8D,
            DisconnectReasonCode::SessionTakenOver => 0x8E,
            DisconnectReasonCode::TopicFilterInvalid => 0x8F,
            DisconnectReasonCode::TopicNameInvalid => 0x90,
            DisconnectReasonCode::ReceiveMaximumExceeded => 0x93,
            DisconnectReasonCode::TopicAliasInvalid => 0x94,
            DisconnectReasonCode::PacketTooLarge => 0x95,
            DisconnectReasonCode::MessageRateTooHigh => 0x96,
            DisconnectReasonCode::QuotaExceeded => 0x97,
            DisconnectReasonCode::AdministrativeAction => 0x98,
            DisconnectReasonCode::PayloadFormatInvalid => 0x99,
            DisconnectReasonCode::RetainNotSupported => 0x9A,
            DisconnectReasonCode::QoSNotSupported => 0x9B,
            DisconnectReasonCode::UseAnotherServer => 0x9C,
            DisconnectReasonCode::ServerMoved => 0x9D,
            DisconnectReasonCode::SharedSubscriptionsNotSupported => 0x9E,
            DisconnectReasonCode::ConnectionRateExceeded => 0x9F,
            DisconnectReasonCode::MaximumConnectTime => 0xA0,
            DisconnectReasonCode::SubscriptionIdentifiersNotSupported => 0xA1,
            DisconnectReasonCode::WildcardSubscriptionsNotSupported => 0xA2,
        }
    }

    /// The code that `byte` stands for; nothing where it stands for none of this packet.
    pub fn from_code(byte: u8) -> (r: Option<DisconnectReasonCode>)
        ensures
            r == DisconnectReasonCode::spec_from_code(byte),
            r matches Some(code) ==> code.spec_code() == byte,
    {
        match byte {
            0x00 => Some(DisconnectReasonCode::NormalDisconnection),
            0x04 => Some(DisconnectReasonCode::DisconnectWithWillMessage),
            0x80 => Some(DisconnectReasonCode::UnspecifiedError),
            0x81 => Some(DisconnectReasonCode::MalformedPacket),
            0x82 => Some(DisconnectReasonCode::ProtocolError),
            0x83 => Some(DisconnectReasonCode::ImplementationSpecificError),
            0x87 => Some(DisconnectReasonCode::NotAuthorized),
            0x89 => Some(DisconnectReasonCode::ServerBusy),
            0x8B => Some(DisconnectReasonCode::ServerShuttingDown),
            0x8D => Some(DisconnectReasonCode::KeepAliveTimeout),
            0x8E => Some(DisconnectReasonCode::SessionTakenOver),
            0x8F => Some(DisconnectReasonCode::TopicFilterInvalid),
            0x90 => Some(DisconnectReasonCode::TopicNameInvalid),
            0x93 => Some(DisconnectReasonCode::ReceiveMaximumExceeded),
            0x94 => Some(DisconnectReasonCode::TopicAliasInvalid),
            0x95 => Some(DisconnectReasonCode::PacketTooLarge),
            0x96 => Some(DisconnectReasonCode::MessageRateTooHigh),
            0x97 => Some(DisconnectReasonCode::QuotaExceeded),
            0x98 => Some(DisconnectReasonCode::AdministrativeAction),
            0x99 => Some(DisconnectReasonCode::PayloadFormatInvalid),
            0x9A => Some(DisconnectReasonCode::RetainNotSupported),
            0x9B => Some(DisconnectReasonCode::QoSNotSupported),
            0x9C => Some(DisconnectReasonCode::UseAnotherServer),
            0x9D => Some(DisconnectReasonCode::ServerMoved),
            0x9E => Some(DisconnectReasonCode::SharedSubscriptionsNotSupported),
            0x9F => Some(DisconnectReasonCode::ConnectionRateExceeded),
            0xA0 => Some(DisconnectReasonCode::MaximumConnectTime),
            0xA1 => Some(DisconnectReasonCode::SubscriptionIdentifiersNotSupported),
            0xA2 => Some(DisconnectReasonCode::WildcardSubscriptionsNotSupported),
            _ => None,
        }
    }
}

/// Each code of `DisconnectReasonCode` has a byte of its own: the byte of a
/// code stands for that code, and a byte that stands for a code is the byte of
/// that code.
pub proof fn lemma_disconnect_reason_code_round_trip(code: DisconnectReasonCode, byte: u8)
    ensures
        DisconnectReasonCode::spec_from_code(code.spec_code()) == Some(code),
        DisconnectReasonCode::spec_from_code(byte) == Some(code) ==> code.spec_code() == byte,
{
}

/// The reason code of an Auth packet.
#[derive(Debug, Clone, Copy, PartialEq, Eq, Hash, Structural)]
pub enum AuthReasonCode {
    Success,
    ContinueAuthentication,
    ReAuthenticate,
}

impl AuthReasonCode {
    /// The byte that stands for the code on the wire.
    pub open spec fn spec_code(self) -> u8 {
        match self {
            AuthReasonCode::Success => 0x00,
            AuthReasonCode::ContinueAuthentication => 0x18,
            AuthReasonCode::ReAuthenticate => 0x19,
        }
    }

    /// The code that `byte` stands for, if it stands for one of this packet.
    pub open spec fn spec_from_code(byte: u8) -> Option<AuthReasonCode> {
        if byte == 0x00 {
            Some(AuthReasonCode::Success)
        } else if byte == 0x18 {
            Some(AuthReasonCode::ContinueAuthentication)
        } else if byte == 0x19 {
            Some(AuthReasonCode::ReAuthenticate)
        } else {
            None
        }
    }

    /// The byte that stands for the code on the wire.
    pub fn code(&self) -> (byte: u8)
        ensures
            byte == self.spec_code(),
            AuthReasonCode::spec_from_code(byte) == Some(*self),
    {
        match self {
            AuthReasonCode::Success => 0x00,
            AuthReasonCode::ContinueAuthentication => 0x18,
            AuthReasonCode::ReAuthenticate => 0x19,
        }
    }

    /// The code that `byte` stands for; nothing where it stands for none of this packet.
    pub fn from_code(byte: u8) -> (r: Option<AuthReasonCode>)
        ensures
            r == AuthReasonCode::spec_from_code(byte),
            r matches Some(code) ==> code.spec_code() == byte,
    {
        match byte {
            0x00 => Some(AuthReasonCode::Success),
            0x18 => Some(AuthReasonCode::ContinueAuthentication),
            0x19 => Some(AuthReasonCode::ReAuthenticate),
            _ => None,
        }
    }
}

/// Each code of `AuthReasonCode` has a byte of its own: the byte of a code
/// stands for that code, and a byte that stands for a code is the byte of that
/// code.
pub proof fn lemma_auth_reason_code_round_trip(code: AuthReasonCode, byte: u8)
    ensures
        AuthReasonCode::spec_from_code(code.spec_code()) == Some(code),
        AuthReasonCode::spec_from_code(byte) == Some(code) ==> code.spec_code() == byte,
{
}

} // verus!
