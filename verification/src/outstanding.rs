//! The packets that await an acknowledgement, and the identifiers that
//! tell them apart.

use std::collections::BTreeMap;

use vstd::prelude::*;

use crate::key_order::lemma_u16_keys_are_ordered;
use crate::packets::MqttPacket;
use crate::packets::MqttPacketView;
use crate::variable_header::PacketIdentifier;

verus! {

broadcast use vstd::std_specs::btree::group_btree_axioms;

/// The values of the identifiers `ids`.
pub open spec fn spec_identifier_values(ids: Seq<PacketIdentifier>) -> Seq<u16> {
    ids.map_values(|id: PacketIdentifier| id@)
}

/// A sequence without duplicates stays so with one more value that it did
/// not hold, and then holds that value and those it held.
pub proof fn lemma_push_fresh(s: Seq<u16>, x: u16)
    requires
        s.no_duplicates(),
        !s.contains(x),
    ensures
        s.push(x).no_duplicates(),
        forall|y: u16| s.push(x).contains(y) <==> (y == x || s.contains(y)),
{
    let t = s.push(x);
    assert forall|i: int, j: int| 0 <= i < t.len() && 0 <= j < t.len() && i != j implies t[i]
        != t[j] by {
        if i < s.len() {
            assert(s.contains(t[i]));
        }
        if j < s.len() {
            assert(s.contains(t[j]));
        }
    }
    assert forall|y: u16| t.contains(y) <==> (y == x || s.contains(y)) by {
        if t.contains(y) {
            let j = choose|j: int| 0 <= j < t.len() && t[j] == y;
            if j < s.len() {
                assert(s[j] == y);
            }
        }
        if s.contains(y) {
            let j = choose|j: int| 0 <= j < s.len() && s[j] == y;
            assert(t[j] == y);
        }
        assert(t[s.len() as int] == x);
    }
}

/// The test that a value is another one than `id`.
pub open spec fn spec_other_than(id: u16) -> spec_fn(u16) -> bool {
    |x: u16| x != id
}

/// A sequence without duplicates, with the value `id` taken out, is
/// without duplicates and holds the other values that it held.
pub proof fn lemma_without_value(order: Seq<u16>, id: u16)
    requires
        order.no_duplicates(),
    ensures
        order.filter(spec_other_than(id)).no_duplicates(),
        forall|x: u16|
            order.filter(spec_other_than(id)).contains(x) <==> (x != id && order.contains(x)),
    decreases order.len(),
{
    reveal(Seq::filter);
    let pred = spec_other_than(id);
    let all = order.filter(pred);
    if order.len() > 0 {
        let rest = order.drop_last();
        let last = order.last();
        assert(order =~= rest.push(last));
        assert(rest.no_duplicates());
        assert(!rest.contains(last)) by {
            if rest.contains(last) {
                let i = choose|i: int| 0 <= i < rest.len() && rest[i] == last;
                assert(order[i] == order[order.len() - 1]);
            }
        }
        lemma_without_value(rest, id);
        lemma_push_fresh(rest, last);
        let kept = rest.filter(pred);
        assert(pred(last) == (last != id));
        if last != id {
            assert(!kept.contains(last));
            lemma_push_fresh(kept, last);
            assert(all == kept.push(last));
        } else {
            assert(all == kept);
        }
        assert forall|x: u16| all.contains(x) <==> (x != id && order.contains(x)) by {
            assert(order.contains(x) <==> (x == last || rest.contains(x)));
            assert(kept.contains(x) <==> (x != id && rest.contains(x)));
            if last != id {
                assert(all.contains(x) <==> (x == last || kept.contains(x)));
            }
        }
    } else {
        assert(all == order);
        assert forall|x: u16| all.contains(x) <==> (x != id && order.contains(x)) by {
            if all.contains(x) {
                let i = choose|i: int| 0 <= i < all.len() && all[i] == x;
            }
        }
    }
}

/// The packets that were sent and await an acknowledgement, each under its
/// packet identifier, with the order in which they were first sent.
pub struct OutstandingPackets {
    packet_ident_order: Vec<PacketIdentifier>,
    outstanding_packets: BTreeMap<u16, MqttPacket>,
}

impl OutstandingPackets {
    /// The identifiers of the packets, in the order in which the packets
    /// were first sent.
    pub closed spec fn order(&self) -> Seq<u16> {
        spec_identifier_values(self.packet_ident_order@)
    }

    /// The packets, each under its identifier.
    pub closed spec fn packets(&self) -> Map<u16, MqttPacketView> {
        Map::new(
            |id: u16| self.outstanding_packets@.contains_key(id),
            |id: u16| self.outstanding_packets@[id]@,
        )
    }

    /// The table holds the packet identifier `id`.
    pub open spec fn spec_contains(&self, id: u16) -> bool {
        self.packets().contains_key(id)
    }

    /// The two parts of the table agree: no identifier occurs twice in the
    /// order, the identifiers of the order are the keys of the packets,
    /// and none of them is 0.
    pub open spec fn wf(&self) -> bool {
        &&& self.order().no_duplicates()
        &&& forall|id: u16| self.order().contains(id) <==> self.packets().contains_key(id)
        &&& forall|i: int| 0 <= i < self.order().len() ==> self.order()[i] != 0
        &&& self.packets().dom().finite()
    }

    /// The table without a packet.
    pub fn empty() -> (r: OutstandingPackets)
        ensures
            r.wf(),
            r.order() == Seq::<u16>::empty(),
            r.packets() == Map::<u16, MqttPacketView>::empty(),
    {
        let r = OutstandingPackets {
            packet_ident_order: Vec::new(),
            outstanding_packets: BTreeMap::new(),
        };
        assert(r.order() =~= Seq::<u16>::empty());
        assert(r.packets() =~= Map::<u16, MqttPacketView>::empty());
        r
    }

    /// Puts `packet` into the table under `ident`, as the packet that was
    /// sent last. The table must not hold `ident` yet.
    pub fn insert(&mut self, ident: PacketIdentifier, packet: MqttPacket)
        requires
            old(self).wf(),
            !old(self).spec_contains(ident@),
        ensures
            final(self).wf(),
            final(self).order() == old(self).order().push(ident@),
            final(self).packets() == old(self).packets().insert(ident@, packet@),
    {
        proof {
            lemma_u16_keys_are_ordered();
        }
        let key = ident.get();
        self.packet_ident_order.push(ident);
        let _ = self.outstanding_packets.insert(key, packet);
        proof {
            assert(self.order() =~= old(self).order().push(ident@));
            assert(self.packets() =~= old(self).packets().insert(ident@, packet@));
            lemma_push_fresh(old(self).order(), ident@);
            assert forall|id: u16| self.order().contains(id) <==> self.packets().contains_key(
                id,
            ) by {
                assert(self.order().contains(id) <==> (id == ident@ || old(self).order().contains(
                    id,
                )));
            }
            assert forall|i: int| 0 <= i < self.order().len() implies self.order()[i] != 0 by {
                if i < old(self).order().len() {
                    assert(old(self).order()[i] != 0);
                }
            }
            assert(self.packets().dom().finite());
        }
    }

    /// Puts `packet` in the place of the packet that the table holds under
    /// `ident`, which keeps its place in the order. The table must hold `ident`.
    pub fn update_by_id(&mut self, ident: PacketIdentifier, packet: MqttPacket)
        requires
            old(self).wf(),
            old(self).spec_contains(ident@),
        ensures
            final(self).wf(),
            final(self).order() == old(self).order(),
            final(self).packets() == old(self).packets().insert(ident@, packet@),
    {
        proof {
            lemma_u16_keys_are_ordered();
        }
        let _ = self.outstanding_packets.insert(ident.get(), packet);
        proof {
            assert(self.packets() =~= old(self).packets().insert(ident@, packet@));
        }
    }

    /// Tells whether the table holds a packet under `ident`.
    pub fn exists_outstanding_packet(&self, ident: PacketIdentifier) -> (r: bool)
        ensures
            r == self.spec_contains(ident@),
    {
        proof {
            lemma_u16_keys_are_ordered();
        }
        let key = ident.get();
        self.outstanding_packets.contains_key(&key)
    }

    /// Tells whether the table holds a packet under the identifier with the value `id`.
    pub fn contains_value(&self, id: u16) -> (r: bool)
        ensures
            r == self.spec_contains(id),
    {
        proof {
            lemma_u16_keys_are_ordered();
        }
        self.outstanding_packets.contains_key(&id)
    }

    /// The packet that the table holds under `ident`, if it holds one.
    pub fn get(&self, ident: PacketIdentifier) -> (r: Option<&MqttPacket>)
        ensures
            match r {
                Some(p) => self.spec_contains(ident@) && self.packets()[ident@] == p@,
                None => !self.spec_contains(ident@),
            },
    {
        proof {
            lemma_u16_keys_are_ordered();
        }
        let key = ident.get();
        self.outstanding_packets.get(&key)
    }

    /// The number of packets in the table.
    pub fn len(&self) -> (n: usize)
        ensures
            n == self.order().len(),
    {
        self.packet_ident_order.len()
    }

    /// The packets with their identifiers, in the order in which they were
    /// first sent.
    pub fn iter_in_send_order(&self) -> (r: Vec<(PacketIdentifier, &MqttPacket)>)
        requires
            self.wf(),
        ensures
            r@.len() == self.order().len(),
            forall|i: int|
                0 <= i < r@.len() ==> (#[trigger] r@[i]).0@ == self.order()[i] && r@[i].1@
                    == self.packets()[self.order()[i]],
    {
        proof {
            lemma_u16_keys_are_ordered();
        }
        let mut r: Vec<(PacketIdentifier, &MqttPacket)> = Vec::new();
        let mut i: usize = 0;
        while i < self.packet_ident_order.len()
            invariant
                self.wf(),
                0 <= i <= self.packet_ident_order@.len(),
                r@.len() == i,
                forall|j: int|
                    0 <= j < i ==> (#[trigger] r@[j]).0@ == self.order()[j] && r@[j].1@
                        == self.packets()[self.order()[j]],
            decreases self.packet_ident_order@.len() - i,
        {
            let ident = self.packet_ident_order[i];
            let key = ident.get();
            proof {
                lemma_u16_keys_are_ordered();
            }
            assert(self.order()[i as int] == key);
            assert(self.order().contains(key));
            match self.outstanding_packets.get(&key) {
                Some(packet) => {
                    r.push((ident, packet));
                },
                None => {
                    assert(false);
                },
            }
            i = i + 1;
        }
        r
    }

    /// Takes the packet under `id` out of the table, if it holds one. The
    /// other packets keep their order.
    pub fn remove_by_id(&mut self, id: PacketIdentifier)
        requires
            old(self).wf(),
        ensures
            final(self).wf(),
            final(self).order() == old(self).order().filter(spec_other_than(id@)),
            final(self).packets() == old(self).packets().remove(id@),
    {
        proof {
            lemma_u16_keys_are_ordered();
        }
        let key = id.get();
        let ghost pred = spec_other_than(id@);
        let ghost before = self.order();
        let mut kept: Vec<PacketIdentifier> = Vec::new();
        let mut i: usize = 0;
        proof {
            reveal(Seq::filter);
            assert(before.take(0) =~= Seq::<u16>::empty());
            assert(spec_identifier_values(kept@) =~= before.take(0).filter(pred));
        }
        while i < self.packet_ident_order.len()
            invariant
                before == spec_identifier_values(self.packet_ident_order@),
                before.no_duplicates(),
                pred == spec_other_than(id@),
                key == id@,
                0 <= i <= self.packet_ident_order@.len(),
                spec_identifier_values(kept@) == before.take(i as int).filter(pred),
                spec_identifier_values(kept@).no_duplicates(),
                forall|j: int|
                    0 <= j < kept@.len() ==> (#[trigger] spec_identifier_values(kept@)[j]) != 0,
                forall|x: u16| #[trigger]
                    spec_identifier_values(kept@).contains(x) <==> (x != id@ && before.take(
                        i as int,
                    ).contains(x)),
            decreases self.packet_ident_order@.len() - i,
        {
            let ident = self.packet_ident_order[i];
            let value = ident.get();
            let ghost done = spec_identifier_values(kept@);
            let ghost t0 = before.take(i as int);
            let ghost t1 = before.take(i + 1);
            proof {
                reveal(Seq::filter);
                assert(t1.drop_last() =~= t0);
                assert(t1.last() == ident@);
                assert(t1.filter(pred) == if pred(ident@) {
                    t0.filter(pred).push(ident@)
                } else {
                    t0.filter(pred)
                });
                assert(!t0.contains(ident@)) by {
                    if t0.contains(ident@) {
                        let j = choose|j: int| 0 <= j < t0.len() && t0[j] == ident@;
                        assert(before[j] == before[i as int]);
                    }
                }
                assert(t1 =~= t0.push(ident@));
                lemma_push_fresh(t0, ident@);
                assert(!done.contains(ident@));
            }
            if value != key {
                kept.push(ident);
                proof {
                    assert(spec_identifier_values(kept@) =~= done.push(ident@));
                    lemma_push_fresh(done, ident@);
                }
            }
            proof {
                let now = spec_identifier_values(kept@);
                assert forall|x: u16| #[trigger] now.contains(x) <==> (x != id@ && t1.contains(
                    x,
                )) by {
                    assert(t1.contains(x) <==> (x == ident@ || t0.contains(x)));
                    assert(done.contains(x) <==> (x != id@ && t0.contains(x)));
                    if value != key {
                        assert(now.contains(x) <==> (x == ident@ || done.contains(x)));
                    }
                }
            }
            i = i + 1;
        }
        proof {
            assert(before.take(i as int) =~= before);
        }
        self.packet_ident_order = kept;
        let _ = self.outstanding_packets.remove(&key);
        proof {
            assert(self.packets() =~= old(self).packets().remove(id@));
        }
    }
}

/// The coherence of the table: the order and the packets hold the same
/// number of entries, and each identifier of the order is a key of the packets.
pub proof fn lemma_outstanding_packets_coherent(table: &OutstandingPackets)
    requires
        table.wf(),
    ensures
        table.order().len() == table.packets().dom().len(),
        forall|i: int|
            0 <= i < table.order().len() ==> table.packets().contains_key(
                #[trigger] table.order()[i],
            ),
{
    let order = table.order();
    order.unique_seq_to_set();
    assert(order.to_set() =~= table.packets().dom());
    assert forall|i: int| 0 <= i < order.len() implies table.packets().contains_key(
        #[trigger] order[i],
    ) by {
        assert(order.contains(order[i]));
    }
}

/// The identifiers in use are told apart: two places of the order hold
/// two identifiers, each between 1 and 65535.
pub proof fn lemma_outstanding_identifiers_unique(table: &OutstandingPackets, i: int, j: int)
    requires
        table.wf(),
        0 <= i < table.order().len(),
        0 <= j < table.order().len(),
        i != j,
    ensures
        table.order()[i] != table.order()[j],
        1 <= table.order()[i] <= 65_535,
{
}

} // verus!
