//! The control packets of MQTT v5, and the packet as a whole: a fixed
//! header of one byte and a length, then the body of that length.

use vstd::prelude::*;
use vstd::slice::slice_subrange;

use crate::error::MqttWriteError;
use crate::error::ParseError;
use crate::integers::VARIABLE_INTEGER_MAX;
use crate::integers::lemma_variable_u32_write_then_parse;
use crate::integers::parse_variable_u32;
use crate::integers::spec_parse_variable_u32;
use crate::integers::spec_variable_u32;
use crate::integers::spec_variable_u32_incomplete;
use crate::integers::variable_u32_binary_size;
use crate::integers::write_variable_u32;
use crate::packets::auth::MAuth;
use crate::packets::auth::MAuthView;
use crate::packets::connack::MConnack;
use crate::packets::connack::MConnackView;
use crate::packets::connect::MConnect;
use crate::packets::connect::MConnectView;
use crate::packets::disconnect::MDisconnect;
use crate::packets::disconnect::MDisconnectView;
use crate::packets::ping::MPingreq;
use crate::packets::ping::MPingresp;
use crate::packets::puback::MPuback;
use crate::packets::puback::MPubackView;
use crate::packets::pubcomp::MPubcomp;
use crate::packets::pubcomp::MPubcompView;
use crate::packets::publish::MPublish;
use crate::packets::publish::MPublishView;
use crate::packets::pubrec::MPubrec;
use crate::packets::pubrec::MPubrecView;
use crate::packets::pubrel::MPubrel;
use crate::packets::pubrel::MPubrelView;
use crate::packets::suback::MSuback;
use crate::packets::suback::MSubackView;
use crate::packets::subscribe::MSubscribe;
use crate::packets::subscribe::MSubscribeView;
use crate::packets::unsuback::MUnsuback;
use crate::packets::unsuback::MUnsubackView;
use crate::packets::unsubscribe::MUnsubscribe;
use crate::packets::unsubscribe::MUnsubscribeView;

pub mod auth;
pub mod connack;
pub mod connect;
pub mod disconnect;
pub mod malformed;
pub mod ping;
pub mod puback;
pub mod pubcomp;
pub mod publish;
pub mod pubrec;
pub mod pubrel;
pub mod suback;
pub mod subscribe;
pub mod unsuback;
pub mod unsubscribe;

verus! {

/// A control packet.
#[derive(Debug, Clone, PartialEq, Eq)]
pub enum MqttPacket {
    Auth(MAuth),
    Connack(MConnack),
    Connect(MConnect),
    Disconnect(MDisconnect),
    Pingreq(MPingreq),
    Pingresp(MPingresp),
    Puback(MPuback),
    Pubcomp(MPubcomp),
    Publish(MPublish),
    Pubrec(MPubrec),
    Pubrel(MPubrel),
    Suback(MSuback),
    Subscribe(MSubscribe),
    Unsuback(MUnsuback),
    Unsubscribe(MUnsubscribe),
}

/// A control packet as contracts see it.
pub enum MqttPacketView {
    Auth(MAuthView),
    Connack(MConnackView),
    Connect(MConnectView),
    Disconnect(MDisconnectView),
    Pingreq,
    Pingresp,
    Puback(MPubackView),
    Pubcomp(MPubcompView),
    Publish(MPublishView),
    Pubrec(MPubrecView),
    Pubrel(MPubrelView),
    Suback(MSubackView),
    Subscribe(MSubscribeView),
    Unsuback(MUnsubackView),
    Unsubscribe(MUnsubscribeView),
}

impl View for MqttPacket {
    type V = MqttPacketView;

    open spec fn view(&self) -> MqttPacketView {
        match self {
            MqttPacket::Auth(p) => MqttPacketView::Auth(p@),
            MqttPacket::Connack(p) => MqttPacketView::Connack(p@),
            MqttPacket::Connect(p) => MqttPacketView::Connect(p@),
            MqttPacket::Disconnect(p) => MqttPacketView::Disconnect(p@),
            MqttPacket::Pingreq(_) => MqttPacketView::Pingreq,
            MqttPacket::Pingresp(_) => MqttPacketView::Pingresp,
            MqttPacket::Puback(p) => MqttPacketView::Puback(p@),
            MqttPacket::Pubcomp(p) => MqttPacketView::Pubcomp(p@),
            MqttPacket::Publish(p) => MqttPacketView::Publish(p@),
            MqttPacket::Pubrec(p) => MqttPacketView::Pubrec(p@),
            MqttPacket::Pubrel(p) => MqttPacketView::Pubrel(p@),
            MqttPacket::Suback(p) => MqttPacketView::Suback(p@),
            MqttPacket::Subscribe(p) => MqttPacketView::Subscribe(p@),
            MqttPacket::Unsuback(p) => MqttPacketView::Unsuback(p@),
            MqttPacket::Unsubscribe(p) => MqttPacketView::Unsubscribe(p@),
        }
    }
}

impl MqttPacketView {
    /// The first byte of the packet: the number of the packet's type in
    /// the high four bits, the flags in the low four. The flags are those
    /// of the packet for Publish, 2 for Pubrel, Subscribe and Unsubscribe,
    /// and 0 for the rest.
    pub open spec fn header(self) -> u8 {
        match self {
            MqttPacketView::Connect(_) => 0x10,
            MqttPacketView::Connack(_) => 0x20,
            MqttPacketView::Publish(p) => (0x30 + p.flags()) as u8,
            MqttPacketView::Puback(_) => 0x40,
            MqttPacketView::Pubrec(_) => 0x50,
            MqttPacketView::Pubrel(_) => 0x62,
            MqttPacketView::Pubcomp(_) => 0x70,
            MqttPacketView::Subscribe(_) => 0x82,
            MqttPacketView::Suback(_) => 0x90,
            MqttPacketView::Unsubscribe(_) => 0xA2,
            MqttPacketView::Unsuback(_) => 0xB0,
            MqttPacketView::Pingreq => 0xC0,
            MqttPacketView::Pingresp => 0xD0,
            MqttPacketView::Disconnect(_) => 0xE0,
            MqttPacketView::Auth(_) => 0xF0,
        }
    }

    /// The body of the packet: what follows the fixed header.
    pub open spec fn body(self) -> Seq<u8> {
        match self {
            MqttPacketView::Auth(p) => p.body(),
            MqttPacketView::Connack(p) => p.body(),
            MqttPacketView::Connect(p) => p.body(),
            MqttPacketView::Disconnect(p) => p.body(),
            MqttPacketView::Pingreq => Seq::empty(),
            MqttPacketView::Pingresp => Seq::empty(),
            MqttPacketView::Puback(p) => p.body(),
            MqttPacketView::Pubcomp(p) => p.body(),
            MqttPacketView::Publish(p) => p.body(),
            MqttPacketView::Pubrec(p) => p.body(),
            MqttPacketView::Pubrel(p) => p.body(),
            MqttPacketView::Suback(p) => p.body(),
            MqttPacketView::Subscribe(p) => p.body(),
            MqttPacketView::Unsuback(p) => p.body(),
            MqttPacketView::Unsubscribe(p) => p.body(),
        }
    }

    /// The packet can go on the wire: it is valid.
    pub open spec fn wf(self) -> bool {
        match self {
            MqttPacketView::Auth(p) => p.wf(),
            MqttPacketView::Connack(p) => p.wf(),
            MqttPacketView::Connect(p) => p.wf(),
            MqttPacketView::Disconnect(p) => p.wf(),
            MqttPacketView::Pingreq => true,
            MqttPacketView::Pingresp => true,
            MqttPacketView::Puback(p) => p.wf(),
            MqttPacketView::Pubcomp(p) => p.wf(),
            MqttPacketView::Publish(p) => p.wf(),
            MqttPacketView::Pubrec(p) => p.wf(),
            MqttPacketView::Pubrel(p) => p.wf(),
            MqttPacketView::Suback(p) => p.wf(),
            MqttPacketView::Subscribe(p) => p.wf(),
            MqttPacketView::Unsuback(p) => p.wf(),
            MqttPacketView::Unsubscribe(p) => p.wf(),
        }
    }

    /// The packet on the wire: the first byte, the length of the body as a
    /// variable-length integer, the body.
    pub open spec fn wire(self) -> Seq<u8> {
        seq![self.header()] + spec_variable_u32(self.body().len() as u32) + self.body()
    }

    /// The number of bytes of the packet on the wire.
    pub open spec fn binary_size(self) -> nat {
        self.wire().len()
    }
}

/// Decoding of the whole of `body` as the body of the packet whose first
/// byte is `header`. None where the byte names no type of packet, where
/// its flags are not those that the type demands, and where the body is
/// malformed.
pub open spec fn spec_parse_body(header: u8, body: Seq<u8>) -> Option<MqttPacketView> {
    let flags = header % 16;
    let kind = header / 16;
    if kind == 3 {
        match crate::packets::publish::spec_parse_publish(flags, body) {
            Some(p) => Some(MqttPacketView::Publish(p)),
            None => None,
        }
    } else if kind == 6 || kind == 8 || kind == 10 {
        if flags != 2 {
            None
        } else if kind == 6 {
            match crate::packets::pubrel::spec_parse_pubrel(body) {
                Some(p) => Some(MqttPacketView::Pubrel(p)),
                None => None,
            }
        } else if kind == 8 {
            match crate::packets::subscribe::spec_parse_subscribe(body) {
                Some(p) => Some(MqttPacketView::Subscribe(p)),
                None => None,
            }
        } else {
            match crate::packets::unsubscribe::spec_parse_unsubscribe(body) {
                Some(p) => Some(MqttPacketView::Unsubscribe(p)),
                None => None,
            }
        }
    } else if flags != 0 {
        None
    } else if kind == 1 {
        match crate::packets::connect::spec_parse_connect(body) {
            Some(p) => Some(MqttPacketView::Connect(p)),
            None => None,
        }
    } else if kind == 2 {
        match crate::packets::connack::spec_parse_connack(body) {
            Some(p) => Some(MqttPacketView::Connack(p)),
            None => None,
        }
    } else if kind == 4 {
        match crate::packets::puback::spec_parse_puback(body) {
            Some(p) => Some(MqttPacketView::Puback(p)),
            None => None,
        }
    } else if kind == 5 {
        match crate::packets::pubrec::spec_parse_pubrec(body) {
            Some(p) => Some(MqttPacketView::Pubrec(p)),
            None => None,
        }
    } else if kind == 7 {
        match crate::packets::pubcomp::spec_parse_pubcomp(body) {
            Some(p) => Some(MqttPacketView::Pubcomp(p)),
            None => None,
        }
    } else if kind == 9 {
        match crate::packets::suback::spec_parse_suback(body) {
            Some(p) => Some(MqttPacketView::Suback(p)),
            None => None,
        }
    } else if kind == 11 {
        match crate::packets::unsuback::spec_parse_unsuback(body) {
            Some(p) => Some(MqttPacketView::Unsuback(p)),
            None => None,
        }
    } else if kind == 12 {
        if crate::packets::ping::spec_parse_ping(body) {
            Some(MqttPacketView::Pingreq)
        } else {
            None
        }
    } else if kind == 13 {
        if crate::packets::ping::spec_parse_ping(body) {
            Some(MqttPacketView::Pingresp)
        } else {
            None
        }
    } else if kind == 14 {
        match crate::packets::disconnect::spec_parse_disconnect(body) {
            Some(p) => Some(MqttPacketView::Disconnect(p)),
            None => None,
        }
    } else if kind == 15 {
        match crate::packets::auth::spec_parse_auth(body) {
            Some(p) => Some(MqttPacketView::Auth(p)),
            None => None,
        }
    } else {
        None
    }
}

/// Where the first packet of `s` ends.
pub enum Frame {
    /// `s` ends before the length of the packet does.
    LengthIncomplete,
    /// The length of the packet is malformed.
    Malformed,
    /// The body of the packet starts at `start` and the packet ends before
    /// `end`, which may lie beyond the end of `s`.
    Packet { start: int, end: int },
}

/// Where the first packet of `s` ends, by its fixed header.
pub open spec fn spec_frame(s: Seq<u8>) -> Frame {
    if s.len() < 1 {
        Frame::LengthIncomplete
    } else {
        match spec_parse_variable_u32(s.skip(1)) {
            Some((len, n)) => Frame::Packet { start: 1 + n, end: 1 + n + len },
            None => if spec_variable_u32_incomplete(s.skip(1)) {
                Frame::LengthIncomplete
            } else {
                Frame::Malformed
            },
        }
    }
}

/// Decoding of the whole of `s` as one packet.
///
/// `Incomplete` where `s` ends before the packet does, with the number of
/// bytes that are missing, which is 1 as long as the length is not whole.
/// `Malformed` where the length is malformed, where bytes follow the
/// packet, and where the body is malformed for the packet's first byte.
pub open spec fn spec_parse_complete(s: Seq<u8>) -> Result<MqttPacketView, ParseError> {
    match spec_frame(s) {
        Frame::LengthIncomplete => Err(ParseError::Incomplete(Some(1usize))),
        Frame::Malformed => Err(ParseError::Malformed),
        Frame::Packet { start, end } => if s.len() < end {
            Err(ParseError::Incomplete(Some((end - s.len()) as usize)))
        } else if s.len() > end {
            Err(ParseError::Malformed)
        } else {
            match spec_parse_body(s[0], s.subrange(start, end)) {
                Some(p) => Ok(p),
                None => Err(ParseError::Malformed),
            }
        },
    }
}

/// Finds the end of the first packet of `input` by its fixed header: the
/// place where the body starts and the place where the packet ends, which
/// may lie beyond the end of `input`.
pub fn frame(input: &[u8]) -> (r: Result<(usize, usize), ParseError>)
    ensures
        match r {
            Ok((start, end)) => spec_frame(input@) == (Frame::Packet {
                start: start as int,
                end: end as int,
            }) && 2 <= start <= 5 && start <= input@.len() && start <= end && end - start
                <= VARIABLE_INTEGER_MAX,
            Err(ParseError::Incomplete(needed)) => spec_frame(input@) == Frame::LengthIncomplete
                && needed == Some(1usize),
            Err(ParseError::Malformed) => spec_frame(input@) == Frame::Malformed,
        },
{
    if input.len() < 1 {
        return Err(ParseError::Incomplete(Some(1)));
    }
    let (len, n) = parse_variable_u32(slice_subrange(input, 1, input.len()))?;
    Ok((1 + n, 1 + n + len as usize))
}

impl MqttPacket {
    /// Reads the whole of `body` as the body of the packet whose first
    /// byte is `header`.
    pub fn parse_body(header: u8, body: &[u8]) -> (r: Result<MqttPacket, ParseError>)
        ensures
            match r {
                Ok(p) => spec_parse_body(header, body@) == Some(p@) && p@.wf(),
                Err(e) => spec_parse_body(header, body@) is None && e == ParseError::Malformed,
            },
    {
        let flags = header % 16;
        let kind = header / 16;
        if kind == 3 {
            return Ok(MqttPacket::Publish(MPublish::parse(flags, body)?));
        }
        if kind == 6 || kind == 8 || kind == 10 {
            if flags != 2 {
                return Err(ParseError::Malformed);
            }
            if kind == 6 {
                return Ok(MqttPacket::Pubrel(MPubrel::parse(body)?));
            }
            if kind == 8 {
                return Ok(MqttPacket::Subscribe(MSubscribe::parse(body)?));
            }
            return Ok(MqttPacket::Unsubscribe(MUnsubscribe::parse(body)?));
        }
        if flags != 0 {
            return Err(ParseError::Malformed);
        }
        match kind {
            1 => Ok(MqttPacket::Connect(MConnect::parse(body)?)),
            2 => Ok(MqttPacket::Connack(MConnack::parse(body)?)),
            4 => Ok(MqttPacket::Puback(MPuback::parse(body)?)),
            5 => Ok(MqttPacket::Pubrec(MPubrec::parse(body)?)),
            7 => Ok(MqttPacket::Pubcomp(MPubcomp::parse(body)?)),
            9 => Ok(MqttPacket::Suback(MSuback::parse(body)?)),
            11 => Ok(MqttPacket::Unsuback(MUnsuback::parse(body)?)),
            12 => Ok(MqttPacket::Pingreq(MPingreq::parse(body)?)),
            13 => Ok(MqttPacket::Pingresp(MPingresp::parse(body)?)),
            14 => Ok(MqttPacket::Disconnect(MDisconnect::parse(body)?)),
            15 => Ok(MqttPacket::Auth(MAuth::parse(body)?)),
            _ => Err(ParseError::Malformed),
        }
    }

    /// Reads the whole of `input` as one packet.
    pub fn parse_complete(input: &[u8]) -> (r: Result<MqttPacket, ParseError>)
        ensures
            match r {
                Ok(p) => spec_parse_complete(input@) == Ok::<MqttPacketView, ParseError>(p@)
                    && p@.wf(),
                Err(e) => spec_parse_complete(input@) == Err::<MqttPacketView, ParseError>(e),
            },
    {
        let (start, end) = frame(input)?;
        if input.len() < end {
            return Err(ParseError::Incomplete(Some(end - input.len())));
        }
        if input.len() > end {
            return Err(ParseError::Malformed);
        }
        MqttPacket::parse_body(input[0], slice_subrange(input, start, end))
    }

    /// The first byte of the packet.
    pub fn header(&self) -> (r: u8)
        ensures
            r == self@.header(),
    {
        match self {
            MqttPacket::Connect(_) => 0x10,
            MqttPacket::Connack(_) => 0x20,
            MqttPacket::Publish(p) => 0x30 + p.flags(),
            MqttPacket::Puback(_) => 0x40,
            MqttPacket::Pubrec(_) => 0x50,
            MqttPacket::Pubrel(_) => 0x62,
            MqttPacket::Pubcomp(_) => 0x70,
            MqttPacket::Subscribe(_) => 0x82,
            MqttPacket::Suback(_) => 0x90,
            MqttPacket::Unsubscribe(_) => 0xA2,
            MqttPacket::Unsuback(_) => 0xB0,
            MqttPacket::Pingreq(_) => 0xC0,
            MqttPacket::Pingresp(_) => 0xD0,
            MqttPacket::Disconnect(_) => 0xE0,
            MqttPacket::Auth(_) => 0xF0,
        }
    }

    /// The name of the packet's type.
    pub fn mqtt_packet_type_name(&self) -> (r: &'static str)
        ensures
            r@ == match self {
                MqttPacket::Auth(_) => "Auth"@,
                MqttPacket::Connack(_) => "Connack"@,
                MqttPacket::Connect(_) => "Connect"@,
                MqttPacket::Disconnect(_) => "Disconnect"@,
                MqttPacket::Pingreq(_) => "Pingreq"@,
                MqttPacket::Pingresp(_) => "Pingresp"@,
                MqttPacket::Puback(_) => "Puback"@,
                MqttPacket::Pubcomp(_) => "Pubcomp"@,
                MqttPacket::Publish(_) => "Publish"@,
                MqttPacket::Pubrec(_) => "Pubrec"@,
                MqttPacket::Pubrel(_) => "Pubrel"@,
                MqttPacket::Suback(_) => "Suback"@,
                MqttPacket::Subscribe(_) => "Subscribe"@,
                MqttPacket::Unsuback(_) => "Unsuback"@,
                MqttPacket::Unsubscribe(_) => "Unsubscribe"@,
            },
    {
        match self {
            MqttPacket::Auth(_) => "Auth",
            MqttPacket::Connack(_) => "Connack",
            MqttPacket::Connect(_) => "Connect",
            MqttPacket::Disconnect(_) => "Disconnect",
            MqttPacket::Pingreq(_) => "Pingreq",
            MqttPacket::Pingresp(_) => "Pingresp",
            MqttPacket::Puback(_) => "Puback",
            MqttPacket::Pubcomp(_) => "Pubcomp",
            MqttPacket::Publish(_) => "Publish",
            MqttPacket::Pubrec(_) => "Pubrec",
            MqttPacket::Pubrel(_) => "Pubrel",
            MqttPacket::Suback(_) => "Suback",
            MqttPacket::Subscribe(_) => "Subscribe",
            MqttPacket::Unsuback(_) => "Unsuback",
            MqttPacket::Unsubscribe(_) => "Unsubscribe",
        }
    }

    /// Tells whether the packet can go on the wire.
    pub fn is_valid(&self) -> (r: bool)
        ensures
            r == self@.wf(),
    {
        match self {
            MqttPacket::Auth(p) => p.is_valid(),
            MqttPacket::Connack(p) => p.is_valid(),
            MqttPacket::Connect(p) => p.is_valid(),
            MqttPacket::Disconnect(p) => p.is_valid(),
            MqttPacket::Pingreq(_) => true,
            MqttPacket::Pingresp(_) => true,
            MqttPacket::Puback(p) => p.is_valid(),
            MqttPacket::Pubcomp(p) => p.is_valid(),
            MqttPacket::Publish(p) => p.is_valid(),
            MqttPacket::Pubrec(p) => p.is_valid(),
            MqttPacket::Pubrel(p) => p.is_valid(),
            MqttPacket::Suback(p) => p.is_valid(),
            MqttPacket::Subscribe(p) => p.is_valid(),
            MqttPacket::Unsuback(p) => p.is_valid(),
            MqttPacket::Unsubscribe(p) => p.is_valid(),
        }
    }

    /// The number of bytes of the body of the packet.
    pub fn body_size(&self) -> (n: u32)
        requires
            self@.wf(),
        ensures
            n == self@.body().len(),
            n <= VARIABLE_INTEGER_MAX,
    {
        match self {
            MqttPacket::Auth(p) => p.binary_size(),
            MqttPacket::Connack(p) => p.binary_size(),
            MqttPacket::Connect(p) => p.binary_size(),
            MqttPacket::Disconnect(p) => p.binary_size(),
            MqttPacket::Pingreq(p) => p.binary_size(),
            MqttPacket::Pingresp(p) => p.binary_size(),
            MqttPacket::Puback(p) => p.binary_size(),
            MqttPacket::Pubcomp(p) => p.binary_size(),
            MqttPacket::Publish(p) => p.binary_size(),
            MqttPacket::Pubrec(p) => p.binary_size(),
            MqttPacket::Pubrel(p) => p.binary_size(),
            MqttPacket::Suback(p) => p.binary_size(),
            MqttPacket::Subscribe(p) => p.binary_size(),
            MqttPacket::Unsuback(p) => p.binary_size(),
            MqttPacket::Unsubscribe(p) => p.binary_size(),
        }
    }

    /// The number of bytes of the packet on the wire.
    pub fn binary_size(&self) -> (n: u32)
        requires
            self@.wf(),
        ensures
            n == self@.binary_size(),
            n == self@.wire().len(),
    {
        let body = self.body_size();
        proof {
            lemma_variable_u32_write_then_parse(body, Seq::empty());
        }
        1 + variable_u32_binary_size(body) + body
    }

    /// Appends the packet to `buffer` as it goes on the wire.
    pub fn write(&self, buffer: &mut Vec<u8>)
        requires
            self@.wf(),
        ensures
            final(buffer)@ == old(buffer)@ + self@.wire(),
    {
        buffer.push(self.header());
        write_variable_u32(buffer, self.body_size());
        let ghost head = buffer@;
        match self {
            MqttPacket::Auth(p) => p.write(buffer),
            MqttPacket::Connack(p) => p.write(buffer),
            MqttPacket::Connect(p) => p.write(buffer),
            MqttPacket::Disconnect(p) => p.write(buffer),
            MqttPacket::Pingreq(_) => {},
            MqttPacket::Pingresp(_) => {},
            MqttPacket::Puback(p) => p.write(buffer),
            MqttPacket::Pubcomp(p) => p.write(buffer),
            MqttPacket::Publish(p) => p.write(buffer),
            MqttPacket::Pubrec(p) => p.write(buffer),
            MqttPacket::Pubrel(p) => p.write(buffer),
            MqttPacket::Suback(p) => p.write(buffer),
            MqttPacket::Subscribe(p) => p.write(buffer),
            MqttPacket::Unsuback(p) => p.write(buffer),
            MqttPacket::Unsubscribe(p) => p.write(buffer),
        }
        assert(buffer@ =~= head + self@.body());
        assert(buffer@ =~= old(buffer)@ + self@.wire());
    }

    /// The packet as it goes on the wire.
    ///
    /// Fails, with nothing written, exactly where the packet is not valid.
    pub fn encode(&self) -> (r: Result<Vec<u8>, MqttWriteError>)
        ensures
            match r {
                Ok(bytes) => self@.wf() && bytes@ == self@.wire(),
                Err(e) => !self@.wf() && e == MqttWriteError::Invariant,
            },
    {
        if !self.is_valid() {
            return Err(MqttWriteError::Invariant);
        }
        let mut bytes: Vec<u8> = Vec::new();
        self.write(&mut bytes);
        assert(bytes@ =~= self@.wire());
        Ok(bytes)
    }
}

/// Decodes the whole of `bytes` as one packet and writes the packet out
/// again.
///
/// The round trip of the codec, from the bytes: what comes back decodes
/// to the packet that `bytes` decode to, and has the length that the
/// parts of the packet add up to. An acknowledgement that left out its
/// reason code or its properties comes back in full.
pub fn reencode(bytes: &[u8]) -> (r: Result<Vec<u8>, ParseError>)
    ensures
        match r {
            Ok(again) => spec_parse_complete(bytes@) matches Ok(p) && p.wf() && again@ == p.wire()
                && spec_parse_complete(again@) == spec_parse_complete(bytes@) && again@.len()
                == p.binary_size(),
            Err(e) => spec_parse_complete(bytes@) == Err::<MqttPacketView, ParseError>(e),
        },
{
    let packet = MqttPacket::parse_complete(bytes)?;
    proof {
        lemma_packet_round_trip(packet@);
    }
    match packet.encode() {
        Ok(again) => Ok(again),
        Err(_) => Err(ParseError::Malformed),
    }
}

/// The body of a valid packet, under the packet's first byte, decodes to
/// the packet.
pub proof fn lemma_body_write_then_parse(p: MqttPacketView)
    requires
        p.wf(),
    ensures
        spec_parse_body(p.header(), p.body()) == Some(p),
        p.body().len() <= VARIABLE_INTEGER_MAX,
{
    match p {
        MqttPacketView::Auth(q) => crate::packets::auth::lemma_auth_write_then_parse(q),
        MqttPacketView::Connack(q) => crate::packets::connack::lemma_connack_write_then_parse(q),
        MqttPacketView::Connect(q) => crate::packets::connect::lemma_connect_write_then_parse(q),
        MqttPacketView::Disconnect(q) => {
            crate::packets::disconnect::lemma_disconnect_write_then_parse(q)
        },
        MqttPacketView::Pingreq => {},
        MqttPacketView::Pingresp => {},
        MqttPacketView::Puback(q) => crate::packets::puback::lemma_puback_write_then_parse(q),
        MqttPacketView::Pubcomp(q) => crate::packets::pubcomp::lemma_pubcomp_write_then_parse(q),
        MqttPacketView::Publish(q) => {
            crate::packets::publish::lemma_publish_write_then_parse(q);
            assert((0x30 + q.flags()) as u8 / 16 == 3);
            assert((0x30 + q.flags()) as u8 % 16 == q.flags());
        },
        MqttPacketView::Pubrec(q) => crate::packets::pubrec::lemma_pubrec_write_then_parse(q),
        MqttPacketView::Pubrel(q) => crate::packets::pubrel::lemma_pubrel_write_then_parse(q),
        MqttPacketView::Suback(q) => crate::packets::suback::lemma_suback_write_then_parse(q),
        MqttPacketView::Subscribe(q) => {
            crate::packets::subscribe::lemma_subscribe_write_then_parse(q)
        },
        MqttPacketView::Unsuback(q) => crate::packets::unsuback::lemma_unsuback_write_then_parse(q),
        MqttPacketView::Unsubscribe(q) => {
            crate::packets::unsubscribe::lemma_unsubscribe_write_then_parse(q)
        },
    }
}

/// The round trip of the codec: a valid packet, written out, decodes to
/// itself, and its wire form has the length that its parts add up to.
pub proof fn lemma_packet_round_trip(p: MqttPacketView)
    requires
        p.wf(),
    ensures
        spec_parse_complete(p.wire()) == Ok::<MqttPacketView, ParseError>(p),
        p.binary_size() == 1 + spec_variable_u32(p.body().len() as u32).len() + p.body().len(),
{
    lemma_body_write_then_parse(p);
    let body = p.body();
    let length = spec_variable_u32(body.len() as u32);
    let s = p.wire();
    assert(s[0] == p.header());
    assert(s.skip(1) =~= length + body);
    lemma_variable_u32_write_then_parse(body.len() as u32, body);
    let n = length.len() as int;
    assert(s.subrange(1 + n, 1 + n + body.len()) =~= body);
}

} // verus!
