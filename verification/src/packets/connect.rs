//! The Connect packet, the first packet of a connection.

use vstd::prelude::*;
use vstd::slice::slice_subrange;

use crate::error::ParseError;
use crate::integers::VARIABLE_INTEGER_MAX;
use crate::integers::lemma_u16_write_then_parse;
use crate::integers::parse_u16;
use crate::integers::spec_parse_u16;
use crate::integers::spec_u16;
use crate::integers::write_u16;
use crate::properties::PropertyView;
use crate::property_id::PropertyScope;
use crate::property_set::Properties;
use crate::property_set::lemma_properties_write_then_parse;
use crate::property_set::spec_parse_properties;
use crate::property_set::spec_properties;
use crate::property_set::spec_properties_wf;
use crate::qos::QualityOfService;
use crate::strings::MAX_STRING_LENGTH;
use crate::strings::MqttBytes;
use crate::strings::MqttString;
use crate::strings::lemma_binary_write_then_parse;
use crate::strings::lemma_string_write_then_parse;
use crate::strings::parse_binary;
use crate::strings::parse_string;
use crate::strings::spec_binary;
use crate::strings::spec_parse_binary;
use crate::strings::spec_parse_string;
use crate::strings::spec_string;
use crate::strings::spec_valid_mqtt_utf8;
use crate::strings::write_binary;
use crate::strings::write_string;

verus! {

/// The start of every Connect packet's body: the protocol name `MQTT` as a
/// string, then the protocol version 5.
pub open spec fn spec_protocol_header() -> Seq<u8> {
    seq![0u8, 4u8, 77u8, 81u8, 84u8, 84u8, 5u8]
}

/// The flags of a Connect packet.
#[derive(Debug, Clone, Copy, PartialEq, Eq, Structural)]
pub struct ConnectFlags {
    pub username: bool,
    pub password: bool,
    pub will_retain: bool,
    pub will_qos: QualityOfService,
    pub will: bool,
    pub clean_start: bool,
}

/// 1 where `b` holds, else 0.
pub open spec fn spec_bit(b: bool) -> int {
    if b {
        1
    } else {
        0
    }
}

impl ConnectFlags {
    /// The byte of the flags on the wire: from the high bit down, user
    /// name, password, will retain, two bits of the will's quality of
    /// service, will, clean start, and a reserved bit that is 0.
    pub open spec fn spec_byte(self) -> u8 {
        (spec_bit(self.username) * 128 + spec_bit(self.password) * 64 + spec_bit(self.will_retain)
            * 32 + self.will_qos.spec_level() * 8 + spec_bit(self.will) * 4 + spec_bit(
            self.clean_start,
        ) * 2) as u8
    }

    /// The flags agree with each other: without a will, the will's
    /// quality of service is 0 and the will is not retained.
    pub open spec fn consistent(self) -> bool {
        !self.will ==> self.will_qos == QualityOfService::AtMostOnce && !self.will_retain
    }

    /// The flags that `byte` stands for. None where the reserved bit is
    /// set, the will's quality of service is 3, or the flags do not agree
    /// with each other.
    pub open spec fn spec_from_byte(byte: u8) -> Option<ConnectFlags> {
        if byte % 2 != 0 {
            None
        } else {
            match QualityOfService::spec_from_level(byte / 8 % 4) {
                Some(will_qos) => {
                    let flags = ConnectFlags {
                        username: byte / 128 == 1,
                        password: byte / 64 % 2 == 1,
                        will_retain: byte / 32 % 2 == 1,
                        will_qos,
                        will: byte / 4 % 2 == 1,
                        clean_start: byte / 2 % 2 == 1,
                    };
                    if flags.consistent() {
                        Some(flags)
                    } else {
                        None
                    }
                },
                None => None,
            }
        }
    }

    /// Reads the flags from their byte.
    pub fn parse(byte: u8) -> (r: Result<ConnectFlags, ParseError>)
        ensures
            match r {
                Ok(f) => ConnectFlags::spec_from_byte(byte) == Some(f) && f.consistent(),
                Err(e) => ConnectFlags::spec_from_byte(byte) is None && e == ParseError::Malformed,
            },
    {
        if byte % 2 != 0 {
            return Err(ParseError::Malformed);
        }
        let will_qos = match QualityOfService::from_level(byte / 8 % 4) {
            Some(q) => q,
            None => {
                return Err(ParseError::Malformed);
            },
        };
        let flags = ConnectFlags {
            username: byte / 128 == 1,
            password: byte / 64 % 2 == 1,
            will_retain: byte / 32 % 2 == 1,
            will_qos,
            will: byte / 4 % 2 == 1,
            clean_start: byte / 2 % 2 == 1,
        };
        if !flags.will && (flags.will_retain || flags.will_qos != QualityOfService::AtMostOnce) {
            return Err(ParseError::Malformed);
        }
        Ok(flags)
    }

    /// The byte of the flags on the wire.
    pub fn to_byte(&self) -> (byte: u8)
        ensures
            byte == self.spec_byte(),
    {
        let username: u8 = if self.username { 128 } else { 0 };
        let password: u8 = if self.password { 64 } else { 0 };
        let will_retain: u8 = if self.will_retain { 32 } else { 0 };
        let will: u8 = if self.will { 4 } else { 0 };
        let clean_start: u8 = if self.clean_start { 2 } else { 0 };
        username + password + will_retain + self.will_qos.level() * 8 + will + clean_start
    }
}

/// The byte of flags that agree with each other stands for those flags.
pub proof fn lemma_connect_flags_round_trip(f: ConnectFlags)
    requires
        f.consistent(),
    ensures
        ConnectFlags::spec_from_byte(f.spec_byte()) == Some(f),
{
}

/// The message that the server publishes for a client whose connection
/// ends without a Disconnect packet.
#[derive(Debug, Clone, PartialEq, Eq)]
pub struct Will {
    pub properties: Properties,
    pub topic: MqttString,
    pub payload: MqttBytes,
    pub will_qos: QualityOfService,
    pub will_retain: bool,
}

/// A will as contracts see it.
pub struct WillView {
    pub properties: Seq<PropertyView>,
    pub topic: Seq<u8>,
    pub payload: Seq<u8>,
    pub will_qos: QualityOfService,
    pub will_retain: bool,
}

impl View for Will {
    type V = WillView;

    open spec fn view(&self) -> WillView {
        WillView {
            properties: self.properties@,
            topic: self.topic@,
            payload: self.payload@,
            will_qos: self.will_qos,
            will_retain: self.will_retain,
        }
    }
}

impl WillView {
    /// The part of a Connect packet's payload that holds the will: its
    /// properties, its topic, its payload. Its quality of service and its
    /// retain flag are among the flags of the packet.
    pub open spec fn wire(self) -> Seq<u8> {
        spec_properties(self.properties) + spec_string(self.topic) + spec_binary(self.payload)
    }

    /// The will can go on the wire.
    pub open spec fn wf(self) -> bool {
        &&& spec_properties_wf(PropertyScope::Will, self.properties)
        &&& spec_valid_mqtt_utf8(self.topic)
        &&& self.payload.len() <= MAX_STRING_LENGTH
    }
}

/// Decoding of a will at the start of `s`, with the quality of service and
/// the retain flag that the flags of the packet gave.
#[verifier::opaque]
pub open spec fn spec_parse_will(will_qos: QualityOfService, will_retain: bool, s: Seq<u8>) -> Option<
    (WillView, int),
> {
    match spec_parse_properties(PropertyScope::Will, s) {
        Some((properties, n)) => match spec_parse_string(s.skip(n)) {
            Some((topic, m)) => match spec_parse_binary(s.skip(n + m)) {
                Some((payload, k)) => Some(
                    (WillView { properties, topic, payload, will_qos, will_retain }, n + m + k),
                ),
                None => None,
            },
            None => None,
        },
        None => None,
    }
}

impl Will {
    /// Reads a will from the start of `input`.
    pub fn parse(will_qos: QualityOfService, will_retain: bool, input: &[u8]) -> (r: Result<
        (Will, usize),
        ParseError,
    >)
        ensures
            match r {
                Ok((w, n)) => {
                    &&& spec_parse_will(will_qos, will_retain, input@) == Some((w@, n as int))
                    &&& w.will_qos == will_qos
                    &&& w.will_retain == will_retain
                    &&& w@.wf()
                    &&& n == w@.wire().len()
                    &&& n <= input@.len()
                },
                Err(e) => spec_parse_will(will_qos, will_retain, input@) is None && e
                    == ParseError::Malformed,
            },
    {
        proof {
            reveal(spec_parse_will);
        }
        let (properties, n) = Properties::parse(PropertyScope::Will, input)?;
        let (topic, m) = parse_string(slice_subrange(input, n, input.len()))?;
        let (payload, k) = parse_binary(slice_subrange(input, n + m, input.len()))?;
        assert(input@.skip(n as int).skip(m as int) =~= input@.skip(n + m));
        Ok((Will { properties, topic, payload, will_qos, will_retain }, n + m + k))
    }

    /// Tells whether the will can go on the wire.
    pub fn is_valid(&self) -> (r: bool)
        ensures
            r == self@.wf(),
    {
        let _ = self.topic.len();
        let _ = self.payload.len();
        self.properties.is_valid(PropertyScope::Will)
    }

    /// The number of bytes of the will in a Connect packet's payload.
    pub fn binary_size(&self) -> (n: u32)
        requires
            self@.wf(),
        ensures
            n == self@.wire().len(),
            n <= VARIABLE_INTEGER_MAX + 4 + 2 * (MAX_STRING_LENGTH + 2),
    {
        self.properties.binary_size(PropertyScope::Will) + 2 + self.topic.len() as u32 + 2
            + self.payload.len() as u32
    }

    /// Appends the will to `buffer`, as it stands in a Connect packet's payload.
    pub fn write(&self, buffer: &mut Vec<u8>)
        requires
            self@.wf(),
        ensures
            final(buffer)@ == old(buffer)@ + self@.wire(),
    {
        self.properties.write(PropertyScope::Will, buffer);
        write_string(buffer, &self.topic);
        write_binary(buffer, &self.payload);
        assert(buffer@ =~= old(buffer)@ + self@.wire());
    }
}

/// The wire form of a will, followed by anything, decodes to the will.
pub proof fn lemma_will_write_then_parse(w: WillView, rest: Seq<u8>)
    requires
        w.wf(),
    ensures
        spec_parse_will(w.will_qos, w.will_retain, w.wire() + rest) == Some(
            (w, w.wire().len() as int),
        ),
{
    reveal(spec_parse_will);
    let props = spec_properties(w.properties);
    let topic = spec_string(w.topic);
    let payload = spec_binary(w.payload);
    let s = w.wire() + rest;
    let n = props.len() as int;
    let m = topic.len() as int;
    assert(spec_parse_properties(PropertyScope::Will, s) == Some((w.properties, n))) by {
        assert(s =~= props + (topic + payload + rest));
        lemma_properties_write_then_parse(PropertyScope::Will, w.properties, topic + payload + rest);
    }
    assert(spec_parse_string(s.skip(n)) == Some((w.topic, m))) by {
        assert(s.skip(n) =~= topic + (payload + rest));
        lemma_string_write_then_parse(w.topic, payload + rest);
    }
    assert(spec_parse_binary(s.skip(n + m)) == Some((w.payload, payload.len() as int))) by {
        assert(s.skip(n + m) =~= payload + rest);
        lemma_binary_write_then_parse(w.payload, rest);
    }
}

/// The first packet of a connection: who the client is and what it asks
/// of the session.
#[derive(Debug, Clone, PartialEq, Eq)]
pub struct MConnect {
    pub client_identifier: MqttString,
    pub username: Option<MqttString>,
    pub password: Option<MqttBytes>,
    pub clean_start: bool,
    pub will: Option<Will>,
    pub properties: Properties,
    pub keep_alive: u16,
}

/// A Connect packet as contracts see it.
pub struct MConnectView {
    pub client_identifier: Seq<u8>,
    pub username: Option<Seq<u8>>,
    pub password: Option<Seq<u8>>,
    pub clean_start: bool,
    pub will: Option<WillView>,
    pub properties: Seq<PropertyView>,
    pub keep_alive: u16,
}

/// The bytes of an optional string.
pub open spec fn spec_string_view(s: Option<MqttString>) -> Option<Seq<u8>> {
    match s {
        Some(s) => Some(s@),
        None => None,
    }
}

/// The bytes of optional binary data.
pub open spec fn spec_bytes_view(b: Option<MqttBytes>) -> Option<Seq<u8>> {
    match b {
        Some(b) => Some(b@),
        None => None,
    }
}

/// The view of an optional will.
pub open spec fn spec_will_view(w: Option<Will>) -> Option<WillView> {
    match w {
        Some(w) => Some(w@),
        None => None,
    }
}

impl View for MConnect {
    type V = MConnectView;

    open spec fn view(&self) -> MConnectView {
        MConnectView {
            client_identifier: self.client_identifier@,
            username: spec_string_view(self.username),
            password: spec_bytes_view(self.password),
            clean_start: self.clean_start,
            will: spec_will_view(self.will),
            properties: self.properties@,
            keep_alive: self.keep_alive,
        }
    }
}

impl MConnectView {
    /// The flags of the packet.
    pub open spec fn flags(self) -> ConnectFlags {
        ConnectFlags {
            username: self.username is Some,
            password: self.password is Some,
            will_retain: match self.will {
                Some(w) => w.will_retain,
                None => false,
            },
            will_qos: match self.will {
                Some(w) => w.will_qos,
                None => QualityOfService::AtMostOnce,
            },
            will: self.will is Some,
            clean_start: self.clean_start,
        }
    }

    /// The will on the wire, if there is one.
    pub open spec fn will_wire(self) -> Seq<u8> {
        match self.will {
            Some(w) => w.wire(),
            None => Seq::empty(),
        }
    }

    /// The user name on the wire, if there is one.
    pub open spec fn username_wire(self) -> Seq<u8> {
        match self.username {
            Some(u) => spec_string(u),
            None => Seq::empty(),
        }
    }

    /// The password on the wire, if there is one.
    pub open spec fn password_wire(self) -> Seq<u8> {
        match self.password {
            Some(p) => spec_binary(p),
            None => Seq::empty(),
        }
    }

    /// The variable header of the packet: protocol name and version, the
    /// flags, the keep-alive interval.
    pub open spec fn head(self) -> Seq<u8> {
        spec_protocol_header() + seq![self.flags().spec_byte()] + spec_u16(self.keep_alive)
    }

    /// The payload of the packet: the client identifier and then, each
    /// where there is one, the will, the user name and the password.
    pub open spec fn payload(self) -> Seq<u8> {
        spec_string(self.client_identifier) + self.will_wire() + self.username_wire()
            + self.password_wire()
    }

    /// The body of the packet on the wire, after the fixed header: the
    /// variable header, the properties, the payload.
    pub open spec fn body(self) -> Seq<u8> {
        self.head() + spec_properties(self.properties) + self.payload()
    }

    /// Each part of the payload can go on the wire.
    pub open spec fn payload_wf(self) -> bool {
        &&& spec_valid_mqtt_utf8(self.client_identifier)
        &&& (self.username matches Some(u) ==> spec_valid_mqtt_utf8(u))
        &&& (self.password matches Some(p) ==> p.len() <= MAX_STRING_LENGTH)
        &&& (self.will matches Some(w) ==> w.wf())
    }

    /// The packet can go on the wire.
    pub open spec fn wf(self) -> bool {
        &&& self.payload_wf()
        &&& spec_properties_wf(PropertyScope::Connect, self.properties)
        &&& self.body().len() <= VARIABLE_INTEGER_MAX
    }
}

/// Decoding of a will at the start of `s`, where the flags announce one.
pub open spec fn spec_parse_optional_will(flags: ConnectFlags, s: Seq<u8>) -> Option<
    (Option<WillView>, int),
> {
    if flags.will {
        match spec_parse_will(flags.will_qos, flags.will_retain, s) {
            Some((w, n)) => Some((Some(w), n)),
            None => None,
        }
    } else {
        Some((None, 0))
    }
}

/// Decoding of a string at the start of `s`, where `present` says there is one.
pub open spec fn spec_parse_optional_string(present: bool, s: Seq<u8>) -> Option<
    (Option<Seq<u8>>, int),
> {
    if present {
        match spec_parse_string(s) {
            Some((v, n)) => Some((Some(v), n)),
            None => None,
        }
    } else {
        Some((None, 0))
    }
}

/// Decoding of binary data at the start of `s`, where `present` says there is some.
pub open spec fn spec_parse_optional_binary(present: bool, s: Seq<u8>) -> Option<
    (Option<Seq<u8>>, int),
> {
    if present {
        match spec_parse_binary(s) {
            Some((v, n)) => Some((Some(v), n)),
            None => None,
        }
    } else {
        Some((None, 0))
    }
}

/// Decoding of the payload of a Connect packet, the whole of `s`, under
/// the flags of the packet: the client identifier, the will, the user
/// name, the password.
pub open spec fn spec_parse_connect_payload(flags: ConnectFlags, s: Seq<u8>) -> Option<
    (Seq<u8>, Option<WillView>, Option<Seq<u8>>, Option<Seq<u8>>),
> {
    match spec_parse_string(s) {
        Some((client_identifier, a)) => match spec_parse_optional_will(flags, s.skip(a)) {
            Some((will, b)) => match spec_parse_optional_string(flags.username, s.skip(a + b)) {
                Some((username, c)) => match spec_parse_optional_binary(
                    flags.password,
                    s.skip(a + b + c),
                ) {
                    Some((password, d)) => if a + b + c + d == s.len() {
                        Some((client_identifier, will, username, password))
                    } else {
                        None
                    },
                    None => None,
                },
                None => None,
            },
            None => None,
        },
        None => None,
    }
}

/// Decoding of the whole of `s` as the body of a Connect packet.
/// A body of more bytes than a fixed header can state is rejected.
#[verifier::opaque]
pub open spec fn spec_parse_connect(s: Seq<u8>) -> Option<MConnectView> {
    if s.len() > VARIABLE_INTEGER_MAX {
        None
    } else {
        if s.len() < 10 || s.subrange(0, 7) != spec_protocol_header() {
            None
        } else {
            match (
                ConnectFlags::spec_from_byte(s[7]),
                spec_parse_u16(s.skip(8)),
                spec_parse_properties(PropertyScope::Connect, s.skip(10)),
            ) {
                (Some(flags), Some((keep_alive, _)), Some((properties, n))) => {
                    match spec_parse_connect_payload(flags, s.skip(10 + n)) {
                        Some((client_identifier, will, username, password)) => Some(
                            MConnectView {
                                client_identifier,
                                username,
                                password,
                                clean_start: flags.clean_start,
                                will,
                                properties,
                                keep_alive,
                            },
                        ),
                        None => None,
                    }
                },
                _ => None,
            }
        }
    }
}

/// Tells whether `input` starts with the protocol name and version.
fn has_protocol_header(input: &[u8]) -> (r: bool)
    requires
        input@.len() >= 7,
    ensures
        r == (input@.subrange(0, 7) == spec_protocol_header()),
{
    let ghost head = input@.subrange(0, 7);
    assert(head[0] == input@[0] && head[1] == input@[1] && head[2] == input@[2] && head[3]
        == input@[3] && head[4] == input@[4] && head[5] == input@[5] && head[6] == input@[6]);
    let r = input[0] == 0 && input[1] == 4 && input[2] == 77 && input[3] == 81 && input[4] == 84
        && input[5] == 84 && input[6] == 5;
    if r {
        assert(head =~= spec_protocol_header());
    }
    r
}

impl MConnect {
    /// The flags of the packet.
    pub fn flags(&self) -> (r: ConnectFlags)
        ensures
            r == self@.flags(),
            r.consistent(),
    {
        let (will_retain, will_qos) = match &self.will {
            Some(w) => (w.will_retain, w.will_qos),
            None => (false, QualityOfService::AtMostOnce),
        };
        ConnectFlags {
            username: self.username.is_some(),
            password: self.password.is_some(),
            will_retain,
            will_qos,
            will: self.will.is_some(),
            clean_start: self.clean_start,
        }
    }

    /// Reads the whole of `input` as the payload of a Connect packet with
    /// the flags `flags`.
    fn parse_payload(flags: ConnectFlags, input: &[u8]) -> (r: Result<
        (MqttString, Option<Will>, Option<MqttString>, Option<MqttBytes>),
        ParseError,
    >)
        ensures
            match r {
                Ok((client_identifier, will, username, password)) => {
                    &&& spec_parse_connect_payload(flags, input@) == Some(
                        (
                            client_identifier@,
                            spec_will_view(will),
                            spec_string_view(username),
                            spec_bytes_view(password),
                        ),
                    )
                    &&& spec_valid_mqtt_utf8(client_identifier@)
                    &&& (will matches Some(w) ==> w@.wf() && w.will_qos == flags.will_qos
                        && w.will_retain == flags.will_retain)
                    &&& (will is Some) == flags.will
                    &&& (username is Some) == flags.username
                    &&& (password is Some) == flags.password
                    &&& (username matches Some(u) ==> spec_valid_mqtt_utf8(u@))
                    &&& (password matches Some(p) ==> p@.len() <= MAX_STRING_LENGTH)
                    &&& input@.len() == 2 + client_identifier@.len() + (match will {
                        Some(w) => w@.wire().len(),
                        None => 0,
                    }) + (match username {
                        Some(u) => 2 + u@.len(),
                        None => 0,
                    }) + (match password {
                        Some(p) => 2 + p@.len(),
                        None => 0,
                    })
                },
                Err(e) => spec_parse_connect_payload(flags, input@) is None && e
                    == ParseError::Malformed,
            },
    {
        let (client_identifier, a) = parse_string(input)?;
        let mut will: Option<Will> = None;
        let mut b: usize = 0;
        if flags.will {
            let (w, len) = Will::parse(
                flags.will_qos,
                flags.will_retain,
                slice_subrange(input, a, input.len()),
            )?;
            will = Some(w);
            b = len;
        }
        let mut username: Option<MqttString> = None;
        let mut c: usize = 0;
        if flags.username {
            let (u, len) = parse_string(slice_subrange(input, a + b, input.len()))?;
            username = Some(u);
            c = len;
        }
        let mut password: Option<MqttBytes> = None;
        let mut d: usize = 0;
        if flags.password {
            let (p, len) = parse_binary(slice_subrange(input, a + b + c, input.len()))?;
            password = Some(p);
            d = len;
        }
        if a + b + c + d != input.len() {
            return Err(ParseError::Malformed);
        }
        Ok((client_identifier, will, username, password))
    }

    /// Reads the whole of `input` as the body of a Connect packet.
    ///
    /// Fails where the protocol is not MQTT in version 5, where the flags
    /// are malformed, where a part that the flags announce is missing or
    /// malformed, and where bytes follow the last part.
    pub fn parse(input: &[u8]) -> (r: Result<MConnect, ParseError>)
        ensures
            match r {
                Ok(p) => spec_parse_connect(input@) == Some(p@) && p@.wf(),
                Err(e) => spec_parse_connect(input@) is None && e == ParseError::Malformed,
            },
    {
        proof {
            reveal(spec_parse_connect);
        }
        if input.len() > VARIABLE_INTEGER_MAX as usize {
            return Err(ParseError::Malformed);
        }
        if input.len() < 10 {
            return Err(ParseError::Malformed);
        }
        if !has_protocol_header(input) {
            return Err(ParseError::Malformed);
        }
        let flags = ConnectFlags::parse(input[7])?;
        let (keep_alive, _) = parse_u16(slice_subrange(input, 8, input.len()))?;
        let (properties, n) = Properties::parse(
            PropertyScope::Connect,
            slice_subrange(input, 10, input.len()),
        )?;
        let (client_identifier, will, username, password) = MConnect::parse_payload(
            flags,
            slice_subrange(input, 10 + n, input.len()),
        )?;
        let p = MConnect {
            client_identifier,
            username,
            password,
            clean_start: flags.clean_start,
            will,
            properties,
            keep_alive,
        };
        proof {
            assert(p@.flags() == flags);
            assert(p@.head().len() == 10);
            assert(p@.payload().len() == input@.len() - 10 - n);
        }
        Ok(p)
    }

    /// The number of bytes of the body of the packet, where the packet is
    /// in order but for its length; nothing where it is not.
    fn checked_size(&self) -> (r: Option<u64>)
        ensures
            match r {
                Some(n) => {
                    &&& self@.payload_wf()
                    &&& spec_properties_wf(PropertyScope::Connect, self@.properties)
                    &&& n == self@.body().len()
                },
                None => !self@.wf(),
            },
    {
        if !self.properties.is_valid(PropertyScope::Connect) {
            return None;
        }
        let will: u64 = match &self.will {
            Some(w) => {
                if !w.is_valid() {
                    return None;
                }
                w.binary_size() as u64
            },
            None => 0,
        };
        let username: u64 = match &self.username {
            Some(u) => 2 + u.len() as u64,
            None => 0,
        };
        let password: u64 = match &self.password {
            Some(p) => 2 + p.len() as u64,
            None => 0,
        };
        Some(
            10 + self.properties.binary_size(PropertyScope::Connect) as u64 + 2
                + self.client_identifier.len() as u64 + will + username + password,
        )
    }

    /// Tells whether the packet can go on the wire.
    pub fn is_valid(&self) -> (r: bool)
        ensures
            r == self@.wf(),
    {
        match self.checked_size() {
            Some(n) => n <= VARIABLE_INTEGER_MAX as u64,
            None => false,
        }
    }

    /// The number of bytes of the body of the packet.
    pub fn binary_size(&self) -> (n: u32)
        requires
            self@.wf(),
        ensures
            n == self@.body().len(),
    {
        match self.checked_size() {
            Some(n) => n as u32,
            None => 0,
        }
    }

    /// Appends the body of the packet to `buffer`.
    pub fn write(&self, buffer: &mut Vec<u8>)
        requires
            self@.wf(),
        ensures
            final(buffer)@ == old(buffer)@ + self@.body(),
    {
        buffer.push(0);
        buffer.push(4);
        buffer.push(77);
        buffer.push(81);
        buffer.push(84);
        buffer.push(84);
        buffer.push(5);
        buffer.push(self.flags().to_byte());
        write_u16(buffer, self.keep_alive);
        assert(buffer@ =~= old(buffer)@ + self@.head());
        self.properties.write(PropertyScope::Connect, buffer);
        write_string(buffer, &self.client_identifier);
        match &self.will {
            Some(w) => w.write(buffer),
            None => {},
        }
        match &self.username {
            Some(u) => write_string(buffer, u),
            None => {},
        }
        match &self.password {
            Some(p) => write_binary(buffer, p),
            None => {},
        }
        assert(buffer@ =~= old(buffer)@ + self@.body());
    }
}

/// An optional will on the wire, followed by anything, decodes to it.
pub proof fn lemma_optional_will_write_then_parse(p: MConnectView, rest: Seq<u8>)
    requires
        p.will matches Some(w) ==> w.wf(),
    ensures
        spec_parse_optional_will(p.flags(), p.will_wire() + rest) == Some(
            (p.will, p.will_wire().len() as int),
        ),
{
    match p.will {
        Some(w) => lemma_will_write_then_parse(w, rest),
        None => {},
    }
}

/// An optional user name on the wire, followed by anything, decodes to it.
pub proof fn lemma_optional_username_write_then_parse(p: MConnectView, rest: Seq<u8>)
    requires
        p.username matches Some(u) ==> spec_valid_mqtt_utf8(u),
    ensures
        spec_parse_optional_string(p.username is Some, p.username_wire() + rest) == Some(
            (p.username, p.username_wire().len() as int),
        ),
{
    match p.username {
        Some(u) => lemma_string_write_then_parse(u, rest),
        None => {},
    }
}

/// An optional password on the wire, followed by anything, decodes to it.
pub proof fn lemma_optional_password_write_then_parse(p: MConnectView, rest: Seq<u8>)
    requires
        p.password matches Some(w) ==> w.len() <= MAX_STRING_LENGTH,
    ensures
        spec_parse_optional_binary(p.password is Some, p.password_wire() + rest) == Some(
            (p.password, p.password_wire().len() as int),
        ),
{
    match p.password {
        Some(w) => lemma_binary_write_then_parse(w, rest),
        None => {},
    }
}

/// What is left of four pieces in a row after the first, the first two and
/// the first three of them.
proof fn lemma_four_pieces(a: Seq<u8>, b: Seq<u8>, c: Seq<u8>, d: Seq<u8>)
    ensures
        a + b + c + d == a + (b + c + d),
        (a + b + c + d).skip(a.len() as int) == b + (c + d),
        (a + b + c + d).skip((a.len() + b.len()) as int) == c + d,
        (a + b + c + d).skip((a.len() + b.len() + c.len()) as int) == d + Seq::<u8>::empty(),
        (a + b + c + d).len() == a.len() + b.len() + c.len() + d.len(),
{
    let s = a + b + c + d;
    assert(s =~= a + (b + c + d));
    assert(s.skip(a.len() as int) =~= b + (c + d));
    assert(s.skip((a.len() + b.len()) as int) =~= c + d);
    assert(s.skip((a.len() + b.len() + c.len()) as int) =~= d + Seq::<u8>::empty());
}

/// The payload of a Connect packet decodes, under the packet's flags, to
/// the parts it was made of.
pub proof fn lemma_connect_payload_write_then_parse(p: MConnectView)
    requires
        p.payload_wf(),
    ensures
        spec_parse_connect_payload(p.flags(), p.payload()) == Some(
            (p.client_identifier, p.will, p.username, p.password),
        ),
{
    let flags = p.flags();
    let id = spec_string(p.client_identifier);
    let will = p.will_wire();
    let user = p.username_wire();
    let pass = p.password_wire();
    let s = p.payload();
    let a = id.len() as int;
    let b = will.len() as int;
    let c = user.len() as int;
    let d = pass.len() as int;
    lemma_four_pieces(id, will, user, pass);
    assert(spec_parse_string(s) == Some((p.client_identifier, a))) by {
        lemma_string_write_then_parse(p.client_identifier, will + user + pass);
    }
    assert(spec_parse_optional_will(flags, s.skip(a)) == Some((p.will, b))) by {
        lemma_optional_will_write_then_parse(p, user + pass);
    }
    assert(spec_parse_optional_string(flags.username, s.skip(a + b)) == Some((p.username, c)))
        by {
        lemma_optional_username_write_then_parse(p, pass);
    }
    assert(spec_parse_optional_binary(flags.password, s.skip(a + b + c)) == Some((p.password, d)))
        by {
        lemma_optional_password_write_then_parse(p, Seq::empty());
    }
    assert(a + b + c + d == s.len());
}

/// The body of a Connect packet decodes to the packet.
pub proof fn lemma_connect_write_then_parse(p: MConnectView)
    requires
        p.wf(),
    ensures
        spec_parse_connect(p.body()) == Some(p),
{
    reveal(spec_parse_connect);
    let s = p.body();
    let props = spec_properties(p.properties);
    let payload = p.payload();
    let n = props.len() as int;
    assert(s =~= p.head() + (props + payload));
    assert(p.head().len() == 10);
    assert(s.subrange(0, 7) =~= spec_protocol_header());
    assert(s[7] == p.flags().spec_byte());
    lemma_connect_flags_round_trip(p.flags());
    assert(spec_parse_u16(s.skip(8)) == Some((p.keep_alive, 2int))) by {
        assert(s.skip(8) =~= spec_u16(p.keep_alive) + (props + payload));
        lemma_u16_write_then_parse(p.keep_alive, props + payload);
    }
    assert(spec_parse_properties(PropertyScope::Connect, s.skip(10)) == Some((p.properties, n)))
        by {
        assert(s.skip(10) =~= props + payload);
        lemma_properties_write_then_parse(PropertyScope::Connect, p.properties, payload);
    }
    assert(s.skip(10 + n) =~= payload);
    lemma_connect_payload_write_then_parse(p);
}

} // verus!
