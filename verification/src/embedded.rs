//! The parts of the client for small devices that work without a socket:
//! the buffers that hold the packets on their way out.

use vstd::prelude::*;
use vstd::slice::slice_subrange;

use crate::error::MqttWriteError;
use crate::packets::MqttPacket;
use crate::packets::connect::MConnect;
use crate::packets::connect::MConnectView;
use crate::packets::publish::MPublish;
use crate::packets::publish::MPublishView;
use crate::property_set::Properties;
use crate::qos::QualityOfService;
use crate::strings::MqttString;
use crate::strings::MqttStringError;
use crate::strings::spec_check_mqtt_utf8;

verus! {

/// The number of bytes that a slot holds at the most.
pub const SLOT_SIZE: usize = 1024;

/// A subscription of the client, which is made when the client is made
/// and holds as long as the client lives.
#[derive(Debug, Clone, Copy, PartialEq, Eq)]
pub struct Subscription {
    pub topic: &'static str,
    pub qos: QualityOfService,
    pub retain: bool,
}

impl Subscription {
    /// The subscription to `topic`.
    pub fn new(topic: &'static str, qos: QualityOfService, retain: bool) -> (r: Subscription)
        ensures
            r.topic == topic,
            r.qos == qos,
            r.retain == retain,
    {
        Subscription { topic, qos, retain }
    }
}

/// The proof that the client was connected when the last operation ended.
/// An operation that needs a connection takes it, and gives a new one
/// back where the connection holds.
#[derive(Debug)]
pub struct ConnectedToken(pub(crate) ());

impl ConnectedToken {
    /// The token that the client hands out after a packet went out.
    pub fn new() -> ConnectedToken {
        ConnectedToken(())
    }
}

/// Why bytes did not go into a slot.
#[derive(Debug, Clone, Copy, PartialEq, Eq, Structural)]
pub enum MqttStackResourceWriteSlotError {
    /// The slot is full, or the packet cannot go on the wire.
    Invariant,
}

impl MqttStackResourceWriteSlotError {
    /// The error of the slot for an error of the codec.
    pub fn from(_value: MqttWriteError) -> (r: MqttStackResourceWriteSlotError)
        ensures
            r == MqttStackResourceWriteSlotError::Invariant,
    {
        MqttStackResourceWriteSlotError::Invariant
    }
}

/// All slots for packets on their way out are in use.
#[derive(Debug, Clone, Copy, PartialEq, Eq, Structural)]
pub struct BuffersFull;

/// A buffer of fixed size for one packet on its way out. The view is the
/// bytes written so far.
#[derive(Clone, Copy)]
pub struct MqttStackResourceWriteSlot {
    next_write_idx: usize,
    buf: [u8; 1024],
}

impl View for MqttStackResourceWriteSlot {
    type V = Seq<u8>;

    closed spec fn view(&self) -> Seq<u8> {
        self.buf@.take(self.next_write_idx as int)
    }
}

impl MqttStackResourceWriteSlot {
    #[verifier::type_invariant]
    closed spec fn inv(self) -> bool {
        self.next_write_idx <= SLOT_SIZE
    }

    /// An empty slot.
    pub fn new() -> (r: MqttStackResourceWriteSlot)
        ensures
            r@ == Seq::<u8>::empty(),
    {
        let r = MqttStackResourceWriteSlot { next_write_idx: 0, buf: [0; 1024] };
        assert(r@ =~= Seq::<u8>::empty());
        r
    }

    /// Empties the slot.
    pub fn clear(&mut self)
        ensures
            final(self)@ == Seq::<u8>::empty(),
    {
        self.next_write_idx = 0;
        assert(self@ =~= Seq::<u8>::empty());
    }

    /// The bytes written so far.
    pub fn as_slice(&self) -> (r: &[u8])
        ensures
            r@ == self@,
            r@.len() <= SLOT_SIZE,
    {
        proof {
            use_type_invariant(self);
        }
        slice_subrange(self.buf.as_slice(), 0, self.next_write_idx)
    }

    /// The number of bytes that the slot holds at the most.
    pub fn len(&self) -> (r: usize)
        ensures
            r == SLOT_SIZE,
    {
        SLOT_SIZE
    }

    /// Tells whether nothing is written to the slot.
    pub fn is_empty(&self) -> (r: bool)
        ensures
            r == (self@.len() == 0),
            self@.len() <= SLOT_SIZE,
    {
        proof {
            use_type_invariant(self);
        }
        self.next_write_idx == 0
    }

    /// Writes the byte `u` after the bytes written so far. Fails, with
    /// the slot as it was, where the slot is full.
    pub fn write_byte(&mut self, u: u8) -> (r: Result<(), MqttStackResourceWriteSlotError>)
        ensures
            match r {
                Ok(_) => old(self)@.len() < SLOT_SIZE && final(self)@ == old(self)@.push(u),
                Err(_) => old(self)@.len() == SLOT_SIZE && final(self)@ == old(self)@,
            },
    {
        proof {
            use_type_invariant(&*self);
        }
        if self.next_write_idx >= SLOT_SIZE {
            return Err(MqttStackResourceWriteSlotError::Invariant);
        }
        self.buf[self.next_write_idx] = u;
        self.next_write_idx = self.next_write_idx + 1;
        assert(self@ =~= old(self)@.push(u));
        Ok(())
    }

    /// Writes the bytes `u` after the bytes written so far. Fails, with
    /// the slot as it was, where they do not fit.
    pub fn write_slice(&mut self, u: &[u8]) -> (r: Result<(), MqttStackResourceWriteSlotError>)
        ensures
            match r {
                Ok(_) => old(self)@.len() + u@.len() <= SLOT_SIZE && final(self)@ == old(self)@
                    + u@,
                Err(_) => old(self)@.len() + u@.len() > SLOT_SIZE && final(self)@ == old(self)@,
            },
    {
        proof {
            use_type_invariant(&*self);
        }
        if u.len() > SLOT_SIZE - self.next_write_idx {
            return Err(MqttStackResourceWriteSlotError::Invariant);
        }
        let mut i: usize = 0;
        assert(self@ =~= old(self)@ + u@.take(0));
        while i < u.len()
            invariant
                0 <= i <= u@.len(),
                old(self)@.len() + u@.len() <= SLOT_SIZE,
                self@ == old(self)@ + u@.take(i as int),
            decreases u@.len() - i,
        {
            match self.write_byte(u[i]) {
                Ok(_) => {},
                Err(_) => {
                    assert(false);
                },
            }
            assert(self@ =~= old(self)@ + u@.take(i + 1));
            i = i + 1;
        }
        assert(u@.take(i as int) =~= u@);
        Ok(())
    }

    /// Writes `packet` into the slot as it goes on the wire. Fails, with
    /// the slot as it was, where the packet is not valid and where it
    /// does not fit.
    pub fn write_packet(&mut self, packet: &MqttPacket) -> (r: Result<
        (),
        MqttStackResourceWriteSlotError,
    >)
        ensures
            match r {
                Ok(_) => packet@.wf() && old(self)@.len() + packet@.wire().len() <= SLOT_SIZE
                    && final(self)@ == old(self)@ + packet@.wire(),
                Err(_) => (!packet@.wf() || old(self)@.len() + packet@.wire().len() > SLOT_SIZE)
                    && final(self)@ == old(self)@,
            },
    {
        match packet.encode() {
            Ok(bytes) => self.write_slice(bytes.as_slice()),
            Err(e) => Err(MqttStackResourceWriteSlotError::from(e)),
        }
    }
}

/// Why a packet was not made ready for sending.
#[derive(Debug, Clone, Copy, PartialEq, Eq, Structural)]
pub enum StageError {
    /// The packet did not go into the slot.
    WriteBuf(MqttStackResourceWriteSlotError),
    /// Every slot is in use.
    BuffersFull,
}

/// The client identifier of the client for small devices.
pub open spec fn spec_embedded_client_identifier() -> Seq<u8> {
    seq![99u8, 108u8, 111u8, 117u8, 100u8, 109u8, 113u8, 116u8, 116u8, 45u8, 48u8]
}

/// The Connect packet of the client for small devices: the client
/// identifier `cloudmqtt-0`, a clean start, no keep-alive, nothing else.
pub fn connect_packet() -> (r: MConnect)
    ensures
        r@ == (MConnectView {
            client_identifier: spec_embedded_client_identifier(),
            username: None,
            password: None,
            clean_start: true,
            will: None,
            properties: Seq::empty(),
            keep_alive: 0,
        }),
{
    let name: [u8; 11] = [99, 108, 111, 117, 100, 109, 113, 116, 116, 45, 48];
    let client_identifier = match MqttString::from_bytes(name.as_slice()) {
        Ok(s) => s,
        Err(_) => MqttString::empty(),
    };
    proof {
        assert(name@ =~= spec_embedded_client_identifier());
        lemma_client_identifier_is_text();
    }
    MConnect {
        client_identifier,
        username: None,
        password: None,
        clean_start: true,
        will: None,
        properties: Properties::new(),
        keep_alive: 0,
    }
}

/// The client identifier of the client for small devices is an MQTT string.
proof fn lemma_client_identifier_is_text()
    ensures
        spec_check_mqtt_utf8(spec_embedded_client_identifier()) is None,
{
    let s = spec_embedded_client_identifier();
    assert(vstd::utf8::valid_utf8(s)) by {
        lemma_ascii_is_utf8(s);
    }
}

/// Bytes below 128 are well-formed UTF-8.
pub proof fn lemma_ascii_is_utf8(s: Seq<u8>)
    requires
        forall|i: int| 0 <= i < s.len() ==> s[i] < 128,
    ensures
        vstd::utf8::valid_utf8(s),
    decreases s.len(),
{
    if s.len() > 0 {
        assert(vstd::utf8::is_leading_byte_width_1(s[0]));
        assert(vstd::utf8::valid_first_scalar(s));
        assert(vstd::utf8::pop_first_scalar(s) =~= s.subrange(1, s.len() as int));
        lemma_ascii_is_utf8(s.subrange(1, s.len() as int));
    }
}

/// The Publish packet of quality of service 0 for `payload` on `topic`.
///
/// Fails where `topic` is no MQTT string.
pub fn qos0_publish(topic: &str, payload: &[u8], retain: bool) -> (r: Result<
    MPublish,
    MqttStringError,
>)
    ensures
        match r {
            Ok(p) => p@ == (MPublishView {
                duplicate: false,
                quality_of_service: QualityOfService::AtMostOnce,
                retain,
                topic_name: vstd::utf8::encode_utf8(topic@),
                packet_identifier: None,
                properties: Seq::empty(),
                payload: payload@,
            }) && spec_check_mqtt_utf8(vstd::utf8::encode_utf8(topic@)) is None,
            Err(e) => spec_check_mqtt_utf8(vstd::utf8::encode_utf8(topic@)) == Some(e),
        },
{
    let topic_name = MqttString::from_str(topic)?;
    Ok(
        MPublish {
            duplicate: false,
            quality_of_service: QualityOfService::AtMostOnce,
            retain,
            topic_name,
            packet_identifier: None,
            properties: Properties::new(),
            payload: vstd::slice::slice_to_vec(payload),
        },
    )
}

/// The views of the slots `slots`.
pub open spec fn spec_slot_views(slots: Seq<MqttStackResourceWriteSlot>) -> Seq<Seq<u8>> {
    slots.map_values(|s: MqttStackResourceWriteSlot| s@)
}

/// The first `i` of `slots` are in use, and the next one is empty.
pub open spec fn spec_first_empty(slots: Seq<Seq<u8>>, i: int) -> bool {
    &&& 0 <= i < slots.len()
    &&& slots[i].len() == 0
    &&& forall|j: int| 0 <= j < i ==> slots[j].len() > 0
}

/// The buffers of a client: `SEND_BUF_SIZE` slots for packets on their
/// way out. The view is the sequence of the slots' views.
pub struct MqttStackResources<const RECV_BUF_SIZE: usize, const SEND_BUF_SIZE: usize> {
    recv_buf: [(); RECV_BUF_SIZE],
    send_buf: [MqttStackResourceWriteSlot; SEND_BUF_SIZE],
}

impl<const RECV_BUF_SIZE: usize, const SEND_BUF_SIZE: usize> View for MqttStackResources<
    RECV_BUF_SIZE,
    SEND_BUF_SIZE,
> {
    type V = Seq<Seq<u8>>;

    closed spec fn view(&self) -> Seq<Seq<u8>> {
        spec_slot_views(self.send_buf@)
    }
}

impl<const RECV_BUF_SIZE: usize, const SEND_BUF_SIZE: usize> MqttStackResources<
    RECV_BUF_SIZE,
    SEND_BUF_SIZE,
> {
    /// Buffers with all slots empty.
    pub fn new() -> (r: Self)
        ensures
            r@.len() == SEND_BUF_SIZE,
            forall|i: int| 0 <= i < r@.len() ==> (#[trigger] r@[i]).len() == 0,
    {
        MqttStackResources {
            recv_buf: [(); RECV_BUF_SIZE],
            send_buf: [MqttStackResourceWriteSlot::new(); SEND_BUF_SIZE],
        }
    }

    /// The place of the first slot that is empty; nothing where every
    /// slot is in use.
    pub fn first_empty(&self) -> (r: Option<usize>)
        ensures
            match r {
                Some(i) => spec_first_empty(self@, i as int),
                None => forall|i: int| 0 <= i < self@.len() ==> (#[trigger] self@[i]).len() > 0,
            },
    {
        let mut i: usize = 0;
        while i < SEND_BUF_SIZE
            invariant
                0 <= i <= self.send_buf@.len(),
                forall|j: int| 0 <= j < i ==> (#[trigger] self@[j]).len() > 0,
            decreases self.send_buf@.len() - i,
        {
            if self.send_buf[i].is_empty() {
                assert(self@[i as int] == self.send_buf@[i as int]@);
                return Some(i);
            }
            i = i + 1;
        }
        None
    }

    /// Makes `packet` ready for sending: writes it into the first slot
    /// that is empty, and tells the place of that slot. The caller sends
    /// the bytes of the slot and empties it.
    ///
    /// Fails, with the slots as they were, where every slot is in use,
    /// where the packet is not valid, and where it does not fit a slot.
    pub fn stage(&mut self, packet: &MqttPacket) -> (r: Result<usize, StageError>)
        ensures
            match r {
                Ok(i) => {
                    &&& spec_first_empty(old(self)@, i as int)
                    &&& packet@.wf()
                    &&& packet@.wire().len() <= SLOT_SIZE
                    &&& final(self)@ == old(self)@.update(i as int, packet@.wire())
                },
                Err(StageError::BuffersFull) => final(self)@ == old(self)@ && forall|i: int|
                    0 <= i < old(self)@.len() ==> (#[trigger] old(self)@[i]).len() > 0,
                Err(StageError::WriteBuf(_)) => final(self)@ == old(self)@ && (exists|i: int|
                    spec_first_empty(old(self)@, i)) && (!packet@.wf() || packet@.wire().len()
                    > SLOT_SIZE),
            },
    {
        let i = match self.first_empty() {
            Some(i) => i,
            None => {
                return Err(StageError::BuffersFull);
            },
        };
        assert(self@[i as int] == self.send_buf@[i as int]@);
        match self.send_buf[i].write_packet(packet) {
            Ok(_) => {
                proof {
                    assert(self.send_buf@[i as int]@ =~= packet@.wire());
                    assert(self@ =~= old(self)@.update(i as int, packet@.wire()));
                }
                Ok(i)
            },
            Err(e) => {
                proof {
                    assert(self@ =~= old(self)@);
                }
                Err(StageError::WriteBuf(e))
            },
        }
    }

    /// The bytes in the slot at the place `i`; nothing where there is no
    /// such slot.
    pub fn staged(&self, i: usize) -> (r: Option<&[u8]>)
        ensures
            match r {
                Some(bytes) => i < self@.len() && bytes@ == self@[i as int],
                None => i >= self@.len(),
            },
    {
        if i < SEND_BUF_SIZE {
            Some(self.send_buf[i].as_slice())
        } else {
            None
        }
    }

    /// Empties the slot at the place `i`, and tells whether there is such a slot.
    pub fn release(&mut self, i: usize) -> (r: bool)
        ensures
            r == (i < old(self)@.len()),
            final(self)@ == if r {
                old(self)@.update(i as int, Seq::empty())
            } else {
                old(self)@
            },
    {
        if i < SEND_BUF_SIZE {
            self.send_buf[i].clear();
            assert(self@ =~= old(self)@.update(i as int, Seq::empty()));
            true
        } else {
            false
        }
    }

    /// The first slot that is empty, to be written to.
    ///
    /// Fails where every slot is in use.
    pub fn get_next_send_buf_mut(&mut self) -> (r: Result<
        &mut MqttStackResourceWriteSlot,
        BuffersFull,
    >)
        ensures
            match r {
                Ok(slot) => exists|i: int|
                    {
                        &&& #[trigger] spec_first_empty(old(self)@, i)
                        &&& slot@ == old(self)@[i]
                        &&& final(self)@ == old(self)@.update(i, final(slot)@)
                    },
                Err(_) => final(self)@ == old(self)@ && forall|i: int|
                    0 <= i < old(self)@.len() ==> (#[trigger] old(self)@[i]).len() > 0,
            },
    {
        let mut i: usize = 0;
        while i < SEND_BUF_SIZE
            invariant
                0 <= i <= self.send_buf@.len(),
                self.send_buf@.len() == SEND_BUF_SIZE,
                self.send_buf@ == old(self).send_buf@,
                forall|j: int| 0 <= j < i ==> (#[trigger] self@[j]).len() > 0,
            decreases self.send_buf@.len() - i,
        {
            if self.send_buf[i].is_empty() {
                proof {
                    assert(self@ == old(self)@);
                    assert(self@[i as int] == self.send_buf@[i as int]@);
                    assert(spec_first_empty(old(self)@, i as int));
                }
                let slot = &mut self.send_buf[i];
                proof {
                    assert(spec_slot_views(old(self).send_buf@.update(i as int, *final(slot)))
                        =~= old(self)@.update(i as int, final(slot)@));
                }
                return Ok(slot);
            }
            i = i + 1;
        }
        proof {
            assert(self@ == old(self)@);
            assert(self@.len() == SEND_BUF_SIZE);
        }
        Err(BuffersFull)
    }
}

} // verus!
