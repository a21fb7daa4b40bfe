//! Integers on the wire: the variable-length integer of one to four bytes and
//! the big-endian integers of two and four bytes.

use vstd::prelude::*;

use crate::error::ParseError;

verus! {

/// The largest value that a variable-length integer can carry.
pub const VARIABLE_INTEGER_MAX: u32 = 268_435_455;

/// The number of bytes that the variable-length encoding of `v` takes.
pub open spec fn spec_variable_u32_size(v: u32) -> nat {
    if v < 128 {
        1
    } else if v < 16_384 {
        2
    } else if v < 2_097_152 {
        3
    } else {
        4
    }
}

/// The variable-length encoding of `v`: seven bits a byte, the low bits first,
/// the high bit set on every byte but the last.
pub open spec fn spec_variable_u32(v: u32) -> Seq<u8>
    recommends
        v <= VARIABLE_INTEGER_MAX,
{
    if v < 128 {
        seq![v as u8]
    } else if v < 16_384 {
        seq![(v % 128 + 128) as u8, (v / 128) as u8]
    } else if v < 2_097_152 {
        seq![(v % 128 + 128) as u8, (v / 128 % 128 + 128) as u8, (v / 16_384) as u8]
    } else {
        seq![
            (v % 128 + 128) as u8,
            (v / 128 % 128 + 128) as u8,
            (v / 16_384 % 128 + 128) as u8,
            (v / 2_097_152) as u8,
        ]
    }
}

/// The value that the first `n` bytes of `s` carry, seven bits a byte, the
/// low bits first.
pub open spec fn spec_variable_u32_value(s: Seq<u8>, n: int) -> int
    recommends
        1 <= n <= 4,
        n <= s.len(),
{
    if n <= 1 {
        (s[0] % 128) as int
    } else if n == 2 {
        s[0] % 128 + s[1] % 128 * 128
    } else if n == 3 {
        s[0] % 128 + s[1] % 128 * 128 + s[2] % 128 * 16_384
    } else {
        s[0] % 128 + s[1] % 128 * 128 + s[2] % 128 * 16_384 + s[3] % 128 * 2_097_152
    }
}

/// The number of bytes of the variable-length integer at the start of `s`:
/// the position of the first byte without the continuation bit, plus one.
/// `None` where none of the first four bytes ends the integer.
pub open spec fn spec_variable_u32_end(s: Seq<u8>) -> Option<int> {
    if s.len() >= 1 && s[0] < 128 {
        Some(1)
    } else if s.len() >= 2 && s[1] < 128 {
        Some(2)
    } else if s.len() >= 3 && s[2] < 128 {
        Some(3)
    } else if s.len() >= 4 && s[3] < 128 {
        Some(4)
    } else {
        None
    }
}

/// Decoding of a variable-length integer at the start of `s`: the value and
/// the number of bytes it took. `None` where `s` does not start with a whole
/// integer in its shortest encoding.
pub open spec fn spec_parse_variable_u32(s: Seq<u8>) -> Option<(u32, int)> {
    match spec_variable_u32_end(s) {
        Some(n) => if n > 1 && s[n - 1] == 0 {
            None
        } else {
            Some((spec_variable_u32_value(s, n) as u32, n))
        },
        None => None,
    }
}

/// `s` is the beginning of a variable-length integer that has not ended yet:
/// fewer than four bytes, each with the continuation bit.
pub open spec fn spec_variable_u32_incomplete(s: Seq<u8>) -> bool {
    s.len() < 4 && forall|i: int| 0 <= i < s.len() ==> s[i] >= 128
}

/// The number of bytes that the variable-length encoding of `v` takes.
pub fn variable_u32_binary_size(v: u32) -> (n: u32)
    ensures
        n == spec_variable_u32_size(v),
        v <= VARIABLE_INTEGER_MAX ==> n == spec_variable_u32(v).len(),
{
    if v < 128 {
        1
    } else if v < 16_384 {
        2
    } else if v < 2_097_152 {
        3
    } else {
        4
    }
}

/// Appends the variable-length encoding of `v` to `buffer`.
pub fn write_variable_u32(buffer: &mut Vec<u8>, v: u32)
    requires
        v <= VARIABLE_INTEGER_MAX,
    ensures
        final(buffer)@ == old(buffer)@ + spec_variable_u32(v),
{
    if v < 128 {
        buffer.push(v as u8);
    } else if v < 16_384 {
        buffer.push((v % 128 + 128) as u8);
        buffer.push((v / 128) as u8);
    } else if v < 2_097_152 {
        buffer.push((v % 128 + 128) as u8);
        buffer.push((v / 128 % 128 + 128) as u8);
        buffer.push((v / 16_384) as u8);
    } else {
        buffer.push((v % 128 + 128) as u8);
        buffer.push((v / 128 % 128 + 128) as u8);
        buffer.push((v / 16_384 % 128 + 128) as u8);
        buffer.push((v / 2_097_152) as u8);
    }
    assert(buffer@ =~= old(buffer)@ + spec_variable_u32(v));
}

/// Reads a variable-length integer from the start of `input`.
///
/// Fails with `Incomplete` where the input ends inside the integer, and with
/// `Malformed` where a fifth byte would be needed or the encoding is not the
/// shortest one.
pub fn parse_variable_u32(input: &[u8]) -> (r: Result<(u32, usize), ParseError>)
    ensures
        match r {
            Ok((v, n)) => spec_parse_variable_u32(input@) == Some((v, n as int)) && v
                <= VARIABLE_INTEGER_MAX && 1 <= n <= 4 && n <= input@.len(),
            Err(ParseError::Incomplete(needed)) => spec_variable_u32_incomplete(input@) && needed
                == Some(1usize),
            Err(ParseError::Malformed) => spec_parse_variable_u32(input@) is None
                && !spec_variable_u32_incomplete(input@),
        },
{
    let len = input.len();
    if len < 1 {
        return Err(ParseError::Incomplete(Some(1)));
    }
    let b0 = input[0];
    if b0 < 128 {
        return Ok((b0 as u32, 1));
    }
    let low: u32 = (b0 % 128) as u32;
    if len < 2 {
        return Err(ParseError::Incomplete(Some(1)));
    }
    let b1 = input[1];
    if b1 < 128 {
        if b1 == 0 {
            return Err(ParseError::Malformed);
        }
        return Ok((low + (b1 as u32) * 128, 2));
    }
    let low: u32 = low + ((b1 % 128) as u32) * 128;
    if len < 3 {
        return Err(ParseError::Incomplete(Some(1)));
    }
    let b2 = input[2];
    if b2 < 128 {
        if b2 == 0 {
            return Err(ParseError::Malformed);
        }
        return Ok((low + (b2 as u32) * 16_384, 3));
    }
    let low: u32 = low + ((b2 % 128) as u32) * 16_384;
    if len < 4 {
        return Err(ParseError::Incomplete(Some(1)));
    }
    let b3 = input[3];
    if b3 < 128 {
        if b3 == 0 {
            return Err(ParseError::Malformed);
        }
        return Ok((low + (b3 as u32) * 2_097_152, 4));
    }
    Err(ParseError::Malformed)
}

/// A value below 128 to the fourth is the sum of its four digits to the base 128.
proof fn lemma_base_128(v: int)
    requires
        0 <= v <= VARIABLE_INTEGER_MAX,
    ensures
        v == v % 128 + (v / 128 % 128) * 128 + (v / 16_384 % 128) * 16_384 + (v / 2_097_152)
            * 2_097_152,
        v / 2_097_152 < 128,
{
}

/// Four digits to the base 128 are the digits of their sum.
proof fn lemma_digits_128(a: int, b: int, c: int, d: int)
    requires
        0 <= a < 128,
        0 <= b < 128,
        0 <= c < 128,
        0 <= d < 128,
    ensures
        ({
            let v = a + b * 128 + c * 16_384 + d * 2_097_152;
            &&& 0 <= v <= VARIABLE_INTEGER_MAX
            &&& v % 128 == a
            &&& v / 128 % 128 == b
            &&& v / 16_384 % 128 == c
            &&& v / 2_097_152 == d
        }),
{
}

/// A decoded variable-length integer, written out again, gives the bytes it
/// was read from; and it is at most `VARIABLE_INTEGER_MAX`.
pub proof fn lemma_variable_u32_parse_then_write(s: Seq<u8>)
    requires
        spec_parse_variable_u32(s) is Some,
    ensures
        ({
            let (v, n) = spec_parse_variable_u32(s).unwrap();
            &&& v <= VARIABLE_INTEGER_MAX
            &&& 1 <= n <= 4
            &&& n <= s.len()
            &&& s.subrange(0, n) == spec_variable_u32(v)
        }),
{
    let (v, n) = spec_parse_variable_u32(s).unwrap();
    let a = s[0] % 128;
    let b = if n >= 2 { s[1] % 128 } else { 0 };
    let c = if n >= 3 { s[2] % 128 } else { 0 };
    let d = if n >= 4 { s[3] % 128 } else { 0 };
    lemma_digits_128(a as int, b as int, c as int, d as int);
    assert(v == a + b * 128 + c * 16_384 + d * 2_097_152);
    assert(s.subrange(0, n) =~= spec_variable_u32(v));
}

/// The encoding of a value, followed by anything, decodes to that value.
pub proof fn lemma_variable_u32_write_then_parse(v: u32, rest: Seq<u8>)
    requires
        v <= VARIABLE_INTEGER_MAX,
    ensures
        spec_parse_variable_u32(spec_variable_u32(v) + rest) == Some(
            (v, spec_variable_u32(v).len() as int),
        ),
        spec_variable_u32(v).len() == spec_variable_u32_size(v),
{
    lemma_base_128(v as int);
    let w = spec_variable_u32(v);
    let s = w + rest;
    assert(forall|i: int| 0 <= i < w.len() ==> s[i] == w[i]);
    let n = w.len() as int;
    assert(spec_variable_u32_end(s) == Some(n));
    assert(spec_variable_u32_value(s, n) == v);
}

/// The two bytes of `v`, the high byte first.
pub open spec fn spec_u16(v: u16) -> Seq<u8> {
    seq![(v / 256) as u8, (v % 256) as u8]
}

/// Decoding of a big-endian integer of two bytes at the start of `s`.
pub open spec fn spec_parse_u16(s: Seq<u8>) -> Option<(u16, int)> {
    if s.len() < 2 {
        None
    } else {
        Some(((s[0] * 256 + s[1]) as u16, 2))
    }
}

/// Appends the two bytes of `v` to `buffer`, the high byte first.
pub fn write_u16(buffer: &mut Vec<u8>, v: u16)
    ensures
        final(buffer)@ == old(buffer)@ + spec_u16(v),
{
    buffer.push((v / 256) as u8);
    buffer.push((v % 256) as u8);
    assert(buffer@ =~= old(buffer)@ + spec_u16(v));
}

/// Reads a big-endian integer of two bytes from the start of `input`.
pub fn parse_u16(input: &[u8]) -> (r: Result<(u16, usize), ParseError>)
    ensures
        match r {
            Ok((v, n)) => spec_parse_u16(input@) == Some((v, n as int)) && n == 2,
            Err(e) => spec_parse_u16(input@) is None && e == ParseError::Malformed,
        },
{
    if input.len() < 2 {
        return Err(ParseError::Malformed);
    }
    let v: u16 = (input[0] as u16) * 256 + (input[1] as u16);
    Ok((v, 2))
}

/// The encoding of a two-byte integer, followed by anything, decodes to it.
pub proof fn lemma_u16_write_then_parse(v: u16, rest: Seq<u8>)
    ensures
        spec_parse_u16(spec_u16(v) + rest) == Some((v, 2int)),
        spec_u16(v).len() == 2,
{
    let s = spec_u16(v) + rest;
    assert(s[0] == spec_u16(v)[0] && s[1] == spec_u16(v)[1]);
}

/// The four bytes of `v`, the highest byte first.
pub open spec fn spec_u32(v: u32) -> Seq<u8> {
    seq![
        (v / 16_777_216) as u8,
        (v / 65_536 % 256) as u8,
        (v / 256 % 256) as u8,
        (v % 256) as u8,
    ]
}

/// Decoding of a big-endian integer of four bytes at the start of `s`.
pub open spec fn spec_parse_u32(s: Seq<u8>) -> Option<(u32, int)> {
    if s.len() < 4 {
        None
    } else {
        Some(((s[0] * 16_777_216 + s[1] * 65_536 + s[2] * 256 + s[3]) as u32, 4))
    }
}

/// Appends the four bytes of `v` to `buffer`, the highest byte first.
pub fn write_u32(buffer: &mut Vec<u8>, v: u32)
    ensures
        final(buffer)@ == old(buffer)@ + spec_u32(v),
{
    buffer.push((v / 16_777_216) as u8);
    buffer.push((v / 65_536 % 256) as u8);
    buffer.push((v / 256 % 256) as u8);
    buffer.push((v % 256) as u8);
    assert(buffer@ =~= old(buffer)@ + spec_u32(v));
}

/// Reads a big-endian integer of four bytes from the start of `input`.
pub fn parse_u32(input: &[u8]) -> (r: Result<(u32, usize), ParseError>)
    ensures
        match r {
            Ok((v, n)) => spec_parse_u32(input@) == Some((v, n as int)) && n == 4,
            Err(e) => spec_parse_u32(input@) is None && e == ParseError::Malformed,
        },
{
    if input.len() < 4 {
        return Err(ParseError::Malformed);
    }
    let v: u32 = (input[0] as u32) * 16_777_216 + (input[1] as u32) * 65_536 + (input[2] as u32)
        * 256 + (input[3] as u32);
    Ok((v, 4))
}

/// The encoding of a four-byte integer, followed by anything, decodes to it.
pub proof fn lemma_u32_write_then_parse(v: u32, rest: Seq<u8>)
    ensures
        spec_parse_u32(spec_u32(v) + rest) == Some((v, 4int)),
        spec_u32(v).len() == 4,
{
    let s = spec_u32(v) + rest;
    let w = spec_u32(v);
    assert(s[0] == w[0] && s[1] == w[1] && s[2] == w[2] && s[3] == w[3]);
}

} // verus!
