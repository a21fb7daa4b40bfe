//! The allocation of packet identifiers.

use std::collections::BTreeSet;

use vstd::prelude::*;

use crate::key_order::lemma_u16_keys_are_ordered;
use crate::outstanding::OutstandingPackets;
use crate::variable_header::PacketIdentifier;
use crate::variable_header::spec_successor;

verus! {

broadcast use vstd::std_specs::btree::group_btree_axioms;

/// No packet identifier is free.
#[derive(Debug, Clone, Copy, PartialEq, Eq, Structural)]
pub struct PacketIdentifierExhausted;

impl PacketIdentifierExhausted {
    /// What the error says to a reader.
    pub fn message(&self) -> (r: &'static str)
        ensures
            r@ == "No free packet identifiers available"@,
    {
        "No free packet identifiers available"
    }
}

/// The identifiers of the messages of quality of service 2 that were
/// received and not released yet. The view is the set of their values.
pub struct ReceivedIdentifiers {
    ids: BTreeSet<u16>,
}

impl View for ReceivedIdentifiers {
    type V = Set<u16>;

    closed spec fn view(&self) -> Set<u16> {
        self.ids@
    }
}

impl ReceivedIdentifiers {
    /// The empty set.
    pub fn new() -> (r: ReceivedIdentifiers)
        ensures
            r@ == Set::<u16>::empty(),
    {
        ReceivedIdentifiers { ids: BTreeSet::new() }
    }

    /// Tells whether the set holds `id`.
    pub fn contains(&self, id: PacketIdentifier) -> (r: bool)
        ensures
            r == self@.contains(id@),
    {
        proof {
            lemma_u16_keys_are_ordered();
        }
        let key = id.get();
        self.ids.contains(&key)
    }

    /// Puts `id` into the set, and tells whether the set did not hold it before.
    pub fn insert(&mut self, id: PacketIdentifier) -> (r: bool)
        ensures
            final(self)@ == old(self)@.insert(id@),
            r == !old(self)@.contains(id@),
    {
        proof {
            lemma_u16_keys_are_ordered();
        }
        self.ids.insert(id.get())
    }

    /// Takes `id` out of the set, and tells whether the set held it.
    pub fn remove(&mut self, id: PacketIdentifier) -> (r: bool)
        ensures
            final(self)@ == old(self)@.remove(id@),
            r == old(self)@.contains(id@),
    {
        proof {
            lemma_u16_keys_are_ordered();
        }
        let key = id.get();
        self.ids.remove(&key)
    }
}

/// The identifier `id` is in use: a packet awaits its acknowledgement
/// under it, or a received message waits under it for its release.
pub open spec fn spec_in_use(
    id: u16,
    outstanding_packets: &OutstandingPackets,
    received: &ReceivedIdentifiers,
) -> bool {
    outstanding_packets.spec_contains(id) || received@.contains(id)
}

/// The identifier reached from `start` in `steps` steps round the identifiers.
pub open spec fn spec_advance(start: u16, steps: nat) -> u16
    decreases steps,
{
    if steps == 0 {
        start
    } else {
        spec_successor(spec_advance(start, (steps - 1) as nat))
    }
}

/// The steps round the identifiers in one formula: the identifiers 1 to
/// 65535 stand in a ring.
pub proof fn lemma_advance_ring(start: u16, steps: nat)
    requires
        start != 0,
    ensures
        spec_advance(start, steps) == (start - 1 + steps) % 65_535 + 1,
    decreases steps,
{
    if steps > 0 {
        lemma_advance_ring(start, (steps - 1) as nat);
    }
}

/// Every identifier is reached from `start` in fewer than 65535 steps.
pub proof fn lemma_advance_reaches(start: u16, id: u16)
    requires
        start != 0,
        id != 0,
    ensures
        spec_advance(start, ((id - start + 65_535) % 65_535) as nat) == id,
        (id - start + 65_535) % 65_535 < 65_535,
{
    lemma_advance_ring(start, ((id - start + 65_535) % 65_535) as nat);
}

/// The next free packet identifier: the first one, from `next_packet_ident`
/// on and round the ring of the identifiers, that is not in use. The cursor
/// `next_packet_ident` moves to it.
///
/// Fails where all 65535 identifiers are in use; the cursor then stands
/// where it stood before.
pub fn get_next_packet_ident(
    next_packet_ident: &mut PacketIdentifier,
    outstanding_packets: &OutstandingPackets,
    received: &ReceivedIdentifiers,
) -> (r: Result<PacketIdentifier, PacketIdentifierExhausted>)
    ensures
        match r {
            Ok(id) => {
                &&& id@ != 0
                &&& !spec_in_use(id@, outstanding_packets, received)
                &&& final(next_packet_ident)@ == id@
                &&& exists|steps: nat|
                    {
                        &&& steps < 65_535
                        &&& id@ == #[trigger] spec_advance(old(next_packet_ident)@, steps)
                        &&& forall|earlier: nat|
                            earlier < steps ==> spec_in_use(
                                #[trigger] spec_advance(old(next_packet_ident)@, earlier),
                                outstanding_packets,
                                received,
                            )
                    }
            },
            Err(_) => {
                &&& forall|id: u16| id != 0 ==> spec_in_use(id, outstanding_packets, received)
                &&& final(next_packet_ident)@ == old(next_packet_ident)@
            },
        },
{
    let start = *next_packet_ident;
    let start_value = start.get();
    let ghost mut steps: nat = 0;
    loop
        invariant
            start@ == old(next_packet_ident)@,
            start_value == start@,
            start@ != 0,
            steps < 65_535,
            next_packet_ident@ == spec_advance(start@, steps),
            forall|earlier: nat|
                earlier < steps ==> spec_in_use(
                    #[trigger] spec_advance(start@, earlier),
                    outstanding_packets,
                    received,
                ),
        decreases 65_535 - steps,
    {
        let next = *next_packet_ident;
        if !outstanding_packets.exists_outstanding_packet(next) && !received.contains(next) {
            let _ = next.get();
            return Ok(next);
        }
        *next_packet_ident = next.successor();
        proof {
            steps = steps + 1;
            lemma_advance_ring(start@, steps);
        }
        if start_value == next_packet_ident.get() {
            proof {
                assert(steps == 65_535);
                assert forall|id: u16| id != 0 implies spec_in_use(
                    id,
                    outstanding_packets,
                    received,
                ) by {
                    lemma_advance_reaches(start@, id);
                }
            }
            return Err(PacketIdentifierExhausted);
        }
    }
}

/// An identifier that was allocated differs from each identifier in use:
/// no two packets in flight share an identifier.
pub proof fn lemma_fresh_identifier_is_unique(
    id: u16,
    outstanding_packets: &OutstandingPackets,
    received: &ReceivedIdentifiers,
)
    requires
        outstanding_packets.wf(),
        id != 0,
        !spec_in_use(id, outstanding_packets, received),
    ensures
        forall|i: int|
            0 <= i < outstanding_packets.order().len() ==> id
                != #[trigger] outstanding_packets.order()[i],
        forall|other: u16| received@.contains(other) ==> id != other,
        1 <= id <= 65_535,
{
    assert forall|i: int| 0 <= i < outstanding_packets.order().len() implies id
        != #[trigger] outstanding_packets.order()[i] by {
        assert(outstanding_packets.order().contains(outstanding_packets.order()[i]));
    }
}

} // verus!
