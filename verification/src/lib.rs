//! An MQTT v5 client stack: a bit-exact packet codec and a sans-I/O client
//! protocol engine, with the bookkeeping both embodiments of the client share.

pub mod client;
pub mod codecs;
pub mod embedded;
pub mod error;
pub mod fsm;
pub mod identifier;
pub mod integers;
pub mod key_order;
pub mod outstanding;
pub mod packets;
pub mod properties;
pub mod property_id;
pub mod property_set;
pub mod qos;
pub mod reason_code;
pub mod strings;
pub mod test_harness;
pub mod topic;
pub mod user_properties;
pub mod variable_header;
