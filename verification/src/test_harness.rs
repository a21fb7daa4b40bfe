//! What a test harness asks of the packets that a broker received from a
//! client.

use vstd::prelude::*;
use vstd::utf8::encode_utf8;
use vstd::utf8::valid_utf8;

use crate::packets::MqttPacket;
use crate::packets::MqttPacketView;
use crate::strings::bytes_equal;
use crate::strings::str_from_utf8;

verus! {

/// What went wrong in a test.
#[derive(Debug, Clone, PartialEq, Eq)]
pub enum TestHarnessError {
    BrokerNotFound(String),
    ClientNotFound(String),
    Channel,
    StreamClosed(String),
    PacketNotExpected { got: MqttPacket },
    UnexpectedClientIdentifier { got: String, expected: String },
    PacketNotReceived(String),
    UnexpectedTopic { expected: String, found: String },
    UnexpectedPacketType { expected: String, found: MqttPacket },
    PayloadNotUtf8,
}

/// Checks a packet that a broker received against the Publish packet that
/// a test expects on `expected_topic`.
///
/// A packet that is no Publish packet is not the one: `false`. A Publish
/// packet on another topic is an error, and so is one whose payload is no
/// text. Else the packet is the one: `true`.
pub fn check_for_publish(packet: &MqttPacket, expected_topic: &str) -> (r: Result<
    bool,
    TestHarnessError,
>)
    ensures
        match packet@ {
            MqttPacketView::Publish(p) => if p.topic_name != encode_utf8(expected_topic@) {
                r matches Err(TestHarnessError::UnexpectedTopic { expected, found })
                    && expected@ == expected_topic@ && encode_utf8(found@) == p.topic_name
            } else if !valid_utf8(p.payload) {
                r == Err::<bool, TestHarnessError>(TestHarnessError::PayloadNotUtf8)
            } else {
                r == Ok::<bool, TestHarnessError>(true)
            },
            _ => r == Ok::<bool, TestHarnessError>(false),
        },
{
    match packet {
        MqttPacket::Publish(p) => {
            if !bytes_equal(p.topic_name.as_bytes(), expected_topic.as_bytes()) {
                return Err(
                    TestHarnessError::UnexpectedTopic {
                        expected: expected_topic.to_owned(),
                        found: p.topic_name.as_str().to_owned(),
                    },
                );
            }
            if str_from_utf8(p.payload.as_slice()).is_none() {
                return Err(TestHarnessError::PayloadNotUtf8);
            }
            Ok(true)
        },
        _ => Ok(false),
    }
}

/// Checks a packet that a broker received against the Connect packet that
/// a test expects from the client `client_identifier`.
///
/// A packet that is no Connect packet is not the one: `false`. A Connect
/// packet of another client is an error. Else the packet is the one: `true`.
pub fn check_for_connect(packet: &MqttPacket, client_identifier: &str) -> (r: Result<
    bool,
    TestHarnessError,
>)
    ensures
        match packet@ {
            MqttPacketView::Connect(p) => if p.client_identifier != encode_utf8(
                client_identifier@,
            ) {
                r matches Err(TestHarnessError::UnexpectedClientIdentifier { got, expected })
                    && expected@ == client_identifier@ && encode_utf8(got@)
                    == p.client_identifier
            } else {
                r == Ok::<bool, TestHarnessError>(true)
            },
            _ => r == Ok::<bool, TestHarnessError>(false),
        },
{
    match packet {
        MqttPacket::Connect(p) => {
            if !bytes_equal(p.client_identifier.as_bytes(), client_identifier.as_bytes()) {
                return Err(
                    TestHarnessError::UnexpectedClientIdentifier {
                        got: p.client_identifier.as_str().to_owned(),
                        expected: client_identifier.to_owned(),
                    },
                );
            }
            Ok(true)
        },
        _ => Ok(false),
    }
}

} // verus!
