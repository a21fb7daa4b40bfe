//! Errors of the wire codec.

use vstd::prelude::*;

verus! {

/// Why a byte sequence could not be turned into a value.
#[derive(Debug, Clone, Copy, PartialEq, Eq)]
pub enum ParseError {
    /// The input ends before the value does. The number is the count of
    /// further bytes that is known to be needed, if any is known.
    Incomplete(Option<usize>),
    /// The input breaks the grammar of MQTT v5.
    Malformed,
}

/// Why a value could not be written out.
#[derive(Debug, Clone, Copy, PartialEq, Eq)]
pub enum MqttWriteError {
    /// The value breaks a rule of the wire format: a string or a packet that
    /// is too long, a property that the packet may not carry, and the like.
    Invariant,
}

} // verus!
