//! The Pingreq and Pingresp packets, which keep a connection alive.

use vstd::prelude::*;

use crate::error::ParseError;

verus! {

/// The client's request for a sign of life.
#[derive(Debug, Clone, Copy, PartialEq, Eq, Structural)]
pub struct MPingreq;

/// The server's answer to a Pingreq packet.
#[derive(Debug, Clone, Copy, PartialEq, Eq, Structural)]
pub struct MPingresp;

/// Decoding of the whole of `s` as the body of a Pingreq or Pingresp
/// packet: the body is empty.
pub open spec fn spec_parse_ping(s: Seq<u8>) -> bool {
    s.len() == 0
}

impl MPingreq {
    /// Reads the whole of `input` as the body of a Pingreq packet.
    pub fn parse(input: &[u8]) -> (r: Result<MPingreq, ParseError>)
        ensures
            match r {
                Ok(_) => spec_parse_ping(input@),
                Err(e) => !spec_parse_ping(input@) && e == ParseError::Malformed,
            },
    {
        if input.len() == 0 {
            Ok(MPingreq)
        } else {
            Err(ParseError::Malformed)
        }
    }

    /// The number of bytes of the body of the packet: none.
    pub fn binary_size(&self) -> (n: u32)
        ensures
            n == 0,
    {
        0
    }
}

impl MPingresp {
    /// Reads the whole of `input` as the body of a Pingresp packet.
    pub fn parse(input: &[u8]) -> (r: Result<MPingresp, ParseError>)
        ensures
            match r {
                Ok(_) => spec_parse_ping(input@),
                Err(e) => !spec_parse_ping(input@) && e == ParseError::Malformed,
            },
    {
        if input.len() == 0 {
            Ok(MPingresp)
        } else {
            Err(ParseError::Malformed)
        }
    }

    /// The number of bytes of the body of the packet: none.
    pub fn binary_size(&self) -> (n: u32)
        ensures
            n == 0,
    {
        0
    }
}

} // verus!
