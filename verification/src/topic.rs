//! Topic names and topic filters: strings of levels that `/` separates. A
//! filter may hold the wildcards `+`, for one level, and `#`, for the
//! rest of the levels.

use vstd::prelude::*;

use crate::strings::MqttString;

verus! {

/// The byte of `/`, which separates the levels.
pub const LEVEL_SEPARATOR: u8 = 47;

/// The byte of `+`, the wildcard for one level.
pub const SINGLE_LEVEL_WILDCARD: u8 = 43;

/// The byte of `#`, the wildcard for the rest of the levels.
pub const MULTI_LEVEL_WILDCARD: u8 = 35;

/// The byte at `i` starts a level of `s`.
pub open spec fn spec_level_starts(s: Seq<u8>, i: int) -> bool {
    i == 0 || s[i - 1] == LEVEL_SEPARATOR
}

/// The byte at `i` ends a level of `s`.
pub open spec fn spec_level_ends(s: Seq<u8>, i: int) -> bool {
    i == s.len() - 1 || s[i + 1] == LEVEL_SEPARATOR
}

/// `s` is a topic name: not empty, and without wildcards.
pub open spec fn spec_valid_topic_name(s: Seq<u8>) -> bool {
    &&& s.len() > 0
    &&& forall|i: int|
        0 <= i < s.len() ==> s[i] != SINGLE_LEVEL_WILDCARD && s[i] != MULTI_LEVEL_WILDCARD
}

/// `s` is a topic filter: not empty; a `+` is a level of its own; a `#` is
/// a level of its own and the last one.
pub open spec fn spec_valid_topic_filter(s: Seq<u8>) -> bool {
    &&& s.len() > 0
    &&& forall|i: int|
        0 <= i < s.len() && s[i] == SINGLE_LEVEL_WILDCARD ==> spec_level_starts(s, i)
            && spec_level_ends(s, i)
    &&& forall|i: int|
        0 <= i < s.len() && s[i] == MULTI_LEVEL_WILDCARD ==> spec_level_starts(s, i) && i
            == s.len() - 1
}

/// Tells whether `topic` is a topic name.
pub fn is_valid_topic_name(topic: &MqttString) -> (r: bool)
    ensures
        r == spec_valid_topic_name(topic@),
{
    let bytes = topic.as_bytes();
    if bytes.len() == 0 {
        return false;
    }
    let mut i: usize = 0;
    while i < bytes.len()
        invariant
            bytes@ == topic@,
            0 <= i <= bytes@.len(),
            forall|j: int|
                0 <= j < i ==> bytes@[j] != SINGLE_LEVEL_WILDCARD && bytes@[j]
                    != MULTI_LEVEL_WILDCARD,
        decreases bytes@.len() - i,
    {
        if bytes[i] == SINGLE_LEVEL_WILDCARD || bytes[i] == MULTI_LEVEL_WILDCARD {
            return false;
        }
        i = i + 1;
    }
    true
}

/// Tells whether `filter` is a topic filter.
pub fn is_valid_topic_filter(filter: &MqttString) -> (r: bool)
    ensures
        r == spec_valid_topic_filter(filter@),
{
    let bytes = filter.as_bytes();
    let len = bytes.len();
    if len == 0 {
        return false;
    }
    let mut i: usize = 0;
    while i < len
        invariant
            bytes@ == filter@,
            len == bytes@.len(),
            0 <= i <= len,
            forall|j: int|
                0 <= j < i && bytes@[j] == SINGLE_LEVEL_WILDCARD ==> spec_level_starts(bytes@, j)
                    && spec_level_ends(bytes@, j),
            forall|j: int|
                0 <= j < i && bytes@[j] == MULTI_LEVEL_WILDCARD ==> spec_level_starts(bytes@, j)
                    && j == len - 1,
        decreases len - i,
    {
        let byte = bytes[i];
        if byte == SINGLE_LEVEL_WILDCARD || byte == MULTI_LEVEL_WILDCARD {
            let starts = i == 0 || bytes[i - 1] == LEVEL_SEPARATOR;
            let ends = i == len - 1 || bytes[i + 1] == LEVEL_SEPARATOR;
            if !starts {
                return false;
            }
            if byte == SINGLE_LEVEL_WILDCARD && !ends {
                return false;
            }
            if byte == MULTI_LEVEL_WILDCARD && i != len - 1 {
                return false;
            }
        }
        i = i + 1;
    }
    true
}

} // verus!
