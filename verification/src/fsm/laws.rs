//! What holds of the engine's rules in every state.

use vstd::prelude::*;

use crate::fsm::action::ActionView;
use crate::fsm::action::MqttInstant;
use crate::fsm::state::ConnectionPhase;
use crate::fsm::state::FsmState;
use crate::fsm::state::spec_replay;
use crate::packets::MqttPacketView;
use crate::fsm::state::spec_pubrel;
use crate::packets::connack::MConnackView;
use crate::packets::connect::MConnectView;
use crate::packets::publish::MPublishView;
use crate::qos::QualityOfService;
use crate::reason_code::ConnectReasonCode;

verus! {

/// The packet that replay sends for the stored Publish packet `p`: `p`
/// marked as a duplicate.
pub open spec fn spec_resent(p: MPublishView) -> ActionView {
    ActionView::SendPacket(MqttPacketView::Publish(MPublishView { duplicate: true, ..p }))
}

/// Session replay: a client that did not ask for a clean start, and whose
/// server holds the client's session, sends the packets in flight again
/// when the server accepts the connection, and sends nothing else.
pub proof fn lemma_session_replay(state: FsmState, now: MqttInstant, p: MConnackView)
    requires
        state.phase == ConnectionPhase::Connecting || state.phase
            == ConnectionPhase::Authenticating,
        !state.clean_start,
        p.session_present,
        p.reason_code == ConnectReasonCode::Success,
        state.client_identifier is Some,
        state.session_identifier(p.properties) == state.client_identifier,
    ensures
        state.handle_packet(now, MqttPacketView::Connack(p)).1 == spec_replay(
            state.order,
            state.packets,
        ),
        state.handle_packet(now, MqttPacketView::Connack(p)).0.phase == ConnectionPhase::Connected,
        state.handle_packet(now, MqttPacketView::Connack(p)).0.order == state.order,
        state.handle_packet(now, MqttPacketView::Connack(p)).0.packets == state.packets,
{
}

/// Replay goes by the order of sending: the replay of packets with one
/// more Publish packet, sent last, is the replay of the packets and then
/// that packet, marked as a duplicate.
pub proof fn lemma_replay_ends_with_last_publish(
    order: Seq<u16>,
    packets: Map<u16, MqttPacketView>,
    id: u16,
    p: MPublishView,
)
    requires
        !order.contains(id),
    ensures
        spec_replay(order.push(id), packets.insert(id, MqttPacketView::Publish(p))) == spec_replay(
            order,
            packets,
        ).push(spec_resent(p)),
{
    assert(order.push(id).drop_last() =~= order);
    lemma_replay_ignores_other_packets(order, packets, id, MqttPacketView::Publish(p));
}

/// The replay of packets does not depend on a packet whose identifier is
/// not among those in flight.
pub proof fn lemma_replay_ignores_other_packets(
    order: Seq<u16>,
    packets: Map<u16, MqttPacketView>,
    id: u16,
    packet: MqttPacketView,
)
    requires
        !order.contains(id),
    ensures
        spec_replay(order, packets.insert(id, packet)) == spec_replay(order, packets),
    decreases order.len(),
{
    if order.len() > 0 {
        let rest = order.drop_last();
        assert(!rest.contains(id)) by {
            if rest.contains(id) {
                let i = choose|i: int| 0 <= i < rest.len() && rest[i] == id;
                assert(order[i] == id);
            }
        }
        assert(order.last() != id) by {
            assert(order[order.len() - 1] == order.last());
        }
        lemma_replay_ignores_other_packets(rest, packets, id, packet);
    }
}

/// Ordering: two messages that the engine took one after the other are in
/// flight in that order, and a replay sends them in that order.
pub proof fn lemma_publishes_keep_their_order(
    state: FsmState,
    first: u16,
    p1: MPublishView,
    second: u16,
    p2: MPublishView,
)
    requires
        state.wf(),
        !state.packets.contains_key(first),
        !state.packets.contains_key(second),
        first != second,
    ensures
        ({
            let after = state.with_packet(first, MqttPacketView::Publish(p1)).with_packet(
                second,
                MqttPacketView::Publish(p2),
            );
            &&& after.order == state.order.push(first).push(second)
            &&& spec_replay(after.order, after.packets) == spec_replay(
                state.order,
                state.packets,
            ).push(spec_resent(p1)).push(spec_resent(p2))
        }),
{
    let one = state.with_packet(first, MqttPacketView::Publish(p1));
    assert(!state.order.contains(first));
    assert(!state.order.contains(second));
    assert(!one.order.contains(second)) by {
        if one.order.contains(second) {
            let i = choose|i: int| 0 <= i < one.order.len() && one.order[i] == second;
            if i < state.order.len() {
                assert(state.order[i] == second);
            }
        }
    }
    lemma_replay_ends_with_last_publish(state.order, state.packets, first, p1);
    lemma_replay_ends_with_last_publish(one.order, one.packets, second, p2);
}

/// Identifier uniqueness: a packet put in flight under an identifier that
/// is not 0 and not in use leaves the bookkeeping coherent, so that no two
/// packets in flight share an identifier.
pub proof fn lemma_with_packet_keeps_coherence(state: FsmState, id: u16, packet: MqttPacketView)
    requires
        state.wf(),
        id != 0,
        !state.in_use(id),
    ensures
        state.with_packet(id, packet).wf(),
        forall|i: int, j: int|
            0 <= i < j < state.with_packet(id, packet).order.len() ==> state.with_packet(
                id,
                packet,
            ).order[i] != state.with_packet(id, packet).order[j],
{
    let next = state.with_packet(id, packet);
    assert(!state.order.contains(id));
    crate::outstanding::lemma_push_fresh(state.order, id);
    assert forall|i: int| 0 <= i < next.order.len() implies next.order[i] != 0 by {
        if i < state.order.len() {
            assert(state.order[i] != 0);
        }
    }
    assert(next.packets.dom() =~= state.packets.dom().insert(id));
    assert forall|x: u16| next.order.contains(x) <==> next.packets.contains_key(x) by {
        assert(next.order.contains(x) <==> (x == id || state.order.contains(x)));
        assert(state.order.contains(x) <==> state.packets.contains_key(x));
    }
    assert(next.order.no_duplicates());
}

/// Outstanding-table coherence: the release of a packet leaves the
/// bookkeeping coherent.
pub proof fn lemma_without_packet_keeps_coherence(state: FsmState, id: u16)
    requires
        state.wf(),
    ensures
        state.without_packet(id).wf(),
{
    let kept = state.order.filter(crate::outstanding::spec_other_than(id));
    crate::outstanding::lemma_without_value(state.order, id);
    assert forall|i: int| 0 <= i < kept.len() implies kept[i] != 0 by {
        assert(kept.contains(kept[i]));
        assert(state.order.contains(kept[i]));
        let j = choose|j: int| 0 <= j < state.order.len() && state.order[j] == kept[i];
        assert(state.order[j] != 0);
    }
    let next = state.without_packet(id);
    assert(next.order == kept);
    assert forall|x: u16| next.order.contains(x) <==> next.packets.contains_key(x) by {
        assert(kept.contains(x) <==> (x != id && state.order.contains(x)));
        assert(state.order.contains(x) <==> state.packets.contains_key(x));
    }
    assert(next.packets.dom() =~= state.packets.dom().remove(id));
}

/// Outstanding-table coherence: every packet of the server leaves the
/// bookkeeping coherent.
pub proof fn lemma_handle_packet_keeps_coherence(
    state: FsmState,
    now: MqttInstant,
    packet: MqttPacketView,
)
    requires
        state.wf(),
    ensures
        state.handle_packet(now, packet).0.wf(),
{
    assert forall|id: u16| #[trigger] state.without_packet(id).wf() by {
        lemma_without_packet_keeps_coherence(state, id);
    }
    assert(state.without_session().wf());
    assert(state.disconnected().wf());
    match packet {
        MqttPacketView::Pubrec(p) => {
            let id = p.packet_identifier;
            if state.phase == ConnectionPhase::Connected && state.awaits_publish_ack(
                id,
                QualityOfService::ExactlyOnce,
            ) && p.reason.spec_is_success() {
                assert(state.packets.insert(id, spec_pubrel(id)).dom() =~= state.packets.dom());
            }
        },
        _ => {},
    }
}

/// Outstanding-table coherence: bytes of the server, the passing of time,
/// a new connection and the end of one leave the bookkeeping coherent.
pub proof fn lemma_events_keep_coherence(
    state: FsmState,
    now: MqttInstant,
    bytes: Seq<u8>,
    connect: MConnectView,
    deadline: Option<MqttInstant>,
)
    requires
        state.wf(),
    ensures
        state.handle_incoming(now, bytes).0.wf(),
        state.poll(now).0.wf(),
        state.connect(now, connect, deadline).wf(),
        state.disconnected().wf(),
        state.torn_down().wf(),
        FsmState::initial().wf(),
{
    assert(state.without_session().wf());
    assert(state.disconnected().wf());
    match crate::packets::spec_parse_complete(bytes) {
        Ok(packet) => lemma_handle_packet_keeps_coherence(state, now, packet),
        Err(_) => {},
    }
}

/// What can happen to an engine.
pub enum Step {
    /// The application asks for a connection.
    Connect(MqttInstant, MConnectView, Option<MqttInstant>),
    /// A packet of the server comes in.
    Packet(MqttInstant, MqttPacketView),
    /// Bytes of the server come in.
    Bytes(MqttInstant, Seq<u8>),
    /// Time passes.
    Poll(MqttInstant),
    /// The engine takes a message or a request of the application, and
    /// puts the packet in flight under the identifier that it allocated.
    PutInFlight(u16, MqttPacketView),
    /// The application takes back a packet that could not be sent.
    Abandon(u16),
    /// The transport closes.
    TransportClosed,
    /// The application makes an end of session and connection.
    Teardown,
}

/// The state after `step` happened in `state`. An identifier is allocated
/// only where it is not 0 and not in use.
pub open spec fn spec_step(state: FsmState, step: Step) -> FsmState {
    match step {
        Step::Connect(now, connect, deadline) => state.connect(now, connect, deadline),
        Step::Packet(now, packet) => state.handle_packet(now, packet).0,
        Step::Bytes(now, bytes) => state.handle_incoming(now, bytes).0,
        Step::Poll(now) => state.poll(now).0,
        Step::PutInFlight(id, packet) => if id != 0 && !state.in_use(id) {
            state.with_packet(id, packet)
        } else {
            state
        },
        Step::Abandon(id) => state.released(id, state.packets.contains_key(id)).0,
        Step::TransportClosed => state.disconnected(),
        Step::Teardown => state.torn_down(),
    }
}

/// The state of an engine after `steps` happened to it, one after the
/// other, since it was made.
pub open spec fn spec_run(steps: Seq<Step>) -> FsmState
    decreases steps.len(),
{
    if steps.len() == 0 {
        FsmState::initial()
    } else {
        spec_step(spec_run(steps.drop_last()), steps.last())
    }
}

/// Whatever happens to an engine, in whatever order: its bookkeeping is
/// coherent, no two packets in flight share an identifier, each
/// identifier in flight lies between 1 and 65535, and the order and the
/// packets hold the same number of entries.
pub proof fn lemma_every_run_is_coherent(steps: Seq<Step>)
    ensures
        spec_run(steps).wf(),
        forall|i: int, j: int|
            0 <= i < j < spec_run(steps).order.len() ==> spec_run(steps).order[i] != spec_run(
                steps,
            ).order[j],
        forall|i: int|
            0 <= i < spec_run(steps).order.len() ==> 1 <= #[trigger] spec_run(steps).order[i]
                <= 65_535 && spec_run(steps).packets.contains_key(spec_run(steps).order[i]),
        spec_run(steps).order.len() == spec_run(steps).packets.dom().len(),
    decreases steps.len(),
{
    let last = spec_run(steps);
    if steps.len() > 0 {
        let before = spec_run(steps.drop_last());
        lemma_every_run_is_coherent(steps.drop_last());
        match steps.last() {
            Step::Connect(now, connect, deadline) => {
                lemma_events_keep_coherence(before, now, Seq::empty(), connect, deadline);
            },
            Step::Packet(now, packet) => lemma_handle_packet_keeps_coherence(before, now, packet),
            Step::Bytes(now, bytes) => {
                lemma_events_keep_coherence(before, now, bytes, arbitrary(), None);
            },
            Step::Poll(now) => {
                lemma_events_keep_coherence(before, now, Seq::empty(), arbitrary(), None);
            },
            Step::PutInFlight(id, packet) => {
                if id != 0 && !before.in_use(id) {
                    lemma_with_packet_keeps_coherence(before, id, packet);
                }
            },
            Step::Abandon(id) => lemma_without_packet_keeps_coherence(before, id),
            Step::TransportClosed => {
                lemma_events_keep_coherence(before, arbitrary(), Seq::empty(), arbitrary(), None);
            },
            Step::Teardown => {
                lemma_events_keep_coherence(before, arbitrary(), Seq::empty(), arbitrary(), None);
            },
        }
    }
    assert(last.wf());
    last.order.unique_seq_to_set();
    assert(last.order.to_set() =~= last.packets.dom());
    assert forall|i: int| 0 <= i < last.order.len() implies 1 <= #[trigger] last.order[i]
        <= 65_535 && last.packets.contains_key(last.order[i]) by {
        assert(last.order.contains(last.order[i]));
    }
}

} // verus!
