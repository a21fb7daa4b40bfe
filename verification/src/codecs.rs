//! Framing: cutting the packets out of a buffer that fills up from a byte
//! stream, and writing packets out for one.

use tokio_util::bytes::BytesMut;
use vstd::prelude::*;

use crate::error::MqttWriteError;
use crate::error::ParseError;
use crate::packets::Frame;
use crate::packets::MqttPacket;
use crate::packets::MqttPacketView;
use crate::packets::frame;
use crate::packets::spec_frame;
use crate::packets::spec_parse_body;

verus! {

/// The byte buffer of the `bytes` crate, which `tokio_util` hands to a
/// decoder. Nothing of its inside is known here.
#[verifier::external_type_specification]
#[verifier::external_body]
pub struct ExBytesMut(BytesMut);

/// The bytes that a buffer holds, from its first to its last.
pub uninterp spec fn spec_buffer_bytes(buffer: BytesMut) -> Seq<u8>;

/// `BytesMut::len`: the number of bytes that the buffer holds.
#[verifier::external_body]
fn buffer_len(buffer: &BytesMut) -> (n: usize)
    ensures
        n == spec_buffer_bytes(*buffer).len(),
{
    buffer.len()
}

/// `BytesMut::as_ref`: the bytes that the buffer holds, as a slice.
#[verifier::external_body]
fn buffer_bytes(buffer: &BytesMut) -> (bytes: &[u8])
    ensures
        bytes@ == spec_buffer_bytes(*buffer),
{
    buffer.as_ref()
}

/// `BytesMut::split_to`: cuts the first `at` bytes off the buffer and
/// hands them out as a buffer of their own; the buffer keeps the rest.
/// It panics where `at` is beyond the end.
#[verifier::external_body]
fn buffer_split_to(buffer: &mut BytesMut, at: usize) -> (head: BytesMut)
    requires
        at <= spec_buffer_bytes(*old(buffer)).len(),
    ensures
        spec_buffer_bytes(head) == spec_buffer_bytes(*old(buffer)).take(at as int),
        spec_buffer_bytes(*final(buffer)) == spec_buffer_bytes(*old(buffer)).skip(at as int),
{
    buffer.split_to(at)
}

/// Why a packet could not be decoded or encoded.
#[derive(Debug, Clone, Copy, PartialEq, Eq)]
pub enum MqttPacketCodecError {
    /// The packet could not be written.
    Writer(MqttWriteError),
    /// The length of a packet is malformed: the stream is out of step.
    Protocol,
    /// A packet was cut out of the stream and is malformed.
    Parsing(ParseError),
}

/// What a look at the buffer gave.
#[derive(Debug, Clone, PartialEq, Eq)]
pub enum Decoded {
    /// A packet, which was cut off the buffer.
    Packet(MqttPacket),
    /// No packet yet: at least `missing` more bytes are needed.
    Incomplete { missing: usize },
}

/// What a look at the buffer gave, as contracts see it.
pub enum DecodedView {
    Packet(MqttPacketView),
    Incomplete { missing: usize },
}

impl View for Decoded {
    type V = DecodedView;

    open spec fn view(&self) -> DecodedView {
        match self {
            Decoded::Packet(p) => DecodedView::Packet(p@),
            Decoded::Incomplete { missing } => DecodedView::Incomplete { missing: *missing },
        }
    }
}

/// What a look at a buffer with the bytes `s` gives, and how many bytes
/// it cuts off the buffer.
///
/// Fewer than two bytes are no packet; nor are bytes that end inside the
/// length or before the end that the length states. They are left alone.
/// A malformed length is an error, and the bytes are left alone. Else the
/// packet is cut off, and it is decoded or found malformed.
pub open spec fn spec_decode(s: Seq<u8>) -> (Result<DecodedView, MqttPacketCodecError>, int) {
    if s.len() < 2 {
        (Ok(DecodedView::Incomplete { missing: (2 - s.len()) as usize }), 0)
    } else {
        match spec_frame(s) {
            Frame::LengthIncomplete => (Ok(DecodedView::Incomplete { missing: 1 }), 0),
            Frame::Malformed => (Err(MqttPacketCodecError::Protocol), 0),
            Frame::Packet { start, end } => if s.len() < end {
                (Ok(DecodedView::Incomplete { missing: (end - s.len()) as usize }), 0)
            } else {
                match spec_parse_body(s[0], s.subrange(start, end)) {
                    Some(p) => (Ok(DecodedView::Packet(p)), end),
                    None => (Err(MqttPacketCodecError::Parsing(ParseError::Malformed)), end),
                }
            },
        }
    }
}

/// Looks for a packet at the start of `src`, and cuts it off where one is there.
pub fn decode(src: &mut BytesMut) -> (r: Result<Decoded, MqttPacketCodecError>)
    ensures
        match r {
            Ok(d) => spec_decode(spec_buffer_bytes(*old(src))).0 == Ok::<
                DecodedView,
                MqttPacketCodecError,
            >(d@),
            Err(e) => spec_decode(spec_buffer_bytes(*old(src))).0 == Err::<
                DecodedView,
                MqttPacketCodecError,
            >(e),
        },
        spec_buffer_bytes(*final(src)) == spec_buffer_bytes(*old(src)).skip(
            spec_decode(spec_buffer_bytes(*old(src))).1,
        ),
        r matches Ok(Decoded::Packet(p)) ==> p@.wf(),
{
    let ghost s = spec_buffer_bytes(*src);
    assert(s.skip(0) =~= s);
    let len = buffer_len(src);
    if len < 2 {
        return Ok(Decoded::Incomplete { missing: 2 - len });
    }
    let (start, end) = match frame(buffer_bytes(src)) {
        Ok(x) => x,
        Err(ParseError::Incomplete(_)) => {
            return Ok(Decoded::Incomplete { missing: 1 });
        },
        Err(ParseError::Malformed) => {
            return Err(MqttPacketCodecError::Protocol);
        },
    };
    if len < end {
        return Ok(Decoded::Incomplete { missing: end - len });
    }
    let head = buffer_split_to(src, end);
    let bytes = buffer_bytes(&head);
    assert(bytes@.subrange(start as int, end as int) =~= s.subrange(start as int, end as int));
    match MqttPacket::parse_body(bytes[0], vstd::slice::slice_subrange(bytes, start, end)) {
        Ok(packet) => Ok(Decoded::Packet(packet)),
        Err(e) => Err(MqttPacketCodecError::Parsing(e)),
    }
}

/// Appends `packet` to `dst` as it goes on the wire.
///
/// Fails, with nothing written, exactly where the packet is not valid.
pub fn encode(packet: &MqttPacket, dst: &mut Vec<u8>) -> (r: Result<(), MqttPacketCodecError>)
    ensures
        match r {
            Ok(_) => packet@.wf() && final(dst)@ == old(dst)@ + packet@.wire(),
            Err(e) => !packet@.wf() && final(dst)@ == old(dst)@ && e
                == MqttPacketCodecError::Writer(MqttWriteError::Invariant),
        },
{
    if !packet.is_valid() {
        return Err(MqttPacketCodecError::Writer(MqttWriteError::Invariant));
    }
    packet.write(dst);
    Ok(())
}

} // verus!
