use cloudmqtt::identifier::get_next_packet_ident;
use cloudmqtt::identifier::PacketIdentifierExhausted;
use cloudmqtt::identifier::ReceivedIdentifiers;
use cloudmqtt::outstanding::OutstandingPackets;
use cloudmqtt::packets::ping::MPingreq;
use cloudmqtt::packets::MqttPacket;
use cloudmqtt::variable_header::PacketIdentifier;

fn id(value: u16) -> PacketIdentifier {
    PacketIdentifier::new(value).unwrap()
}

#[test]
fn identifier_wrap() {
    let mut table = OutstandingPackets::empty();
    let received = ReceivedIdentifiers::new();
    let mut cursor = PacketIdentifier::first();
    for expected in 1..=65_535u16 {
        let next = get_next_packet_ident(&mut cursor, &table, &received).unwrap();
        assert_eq!(next.get(), expected);
        table.insert(next, MqttPacket::Pingreq(MPingreq));
    }
    assert_eq!(
        get_next_packet_ident(&mut cursor, &table, &received),
        Err(PacketIdentifierExhausted)
    );
    assert_eq!(cursor.get(), 65_535);
    table.remove_by_id(id(42));
    assert_eq!(
        get_next_packet_ident(&mut cursor, &table, &received),
        Ok(id(42))
    );
    assert_eq!(cursor.get(), 42);
}

#[test]
fn identifiers_of_received_messages_are_passed_over() {
    let table = OutstandingPackets::empty();
    let mut received = ReceivedIdentifiers::new();
    assert!(received.insert(id(1)));
    assert!(!received.insert(id(1)));
    assert!(received.insert(id(2)));
    let mut cursor = PacketIdentifier::first();
    assert_eq!(
        get_next_packet_ident(&mut cursor, &table, &received),
        Ok(id(3))
    );
    assert!(received.remove(id(1)));
    assert!(!received.contains(id(1)));
}

#[test]
fn zero_is_no_identifier() {
    assert_eq!(PacketIdentifier::new(0), None);
    assert_eq!(id(65_535).successor(), id(1));
    assert_eq!(id(7).successor(), id(8));
}

#[test]
fn outstanding_packets_keep_the_order_of_sending() {
    let mut table = OutstandingPackets::empty();
    table.insert(id(5), MqttPacket::Pingreq(MPingreq));
    table.insert(id(2), MqttPacket::Pingreq(MPingreq));
    table.insert(id(9), MqttPacket::Pingreq(MPingreq));
    table.update_by_id(id(2), MqttPacket::Pingreq(MPingreq));
    let order: Vec<u16> = table
        .iter_in_send_order()
        .into_iter()
        .map(|(id, _)| id.get())
        .collect();
    assert_eq!(order, vec![5, 2, 9]);
    table.remove_by_id(id(2));
    table.remove_by_id(id(4));
    let order: Vec<u16> = table
        .iter_in_send_order()
        .into_iter()
        .map(|(id, _)| id.get())
        .collect();
    assert_eq!(order, vec![5, 9]);
    assert_eq!(table.len(), 2);
    assert!(table.exists_outstanding_packet(id(9)));
    assert!(!table.exists_outstanding_packet(id(2)));
}
