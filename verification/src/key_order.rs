//! The order of the integers that key the maps of this library.

use vstd::prelude::*;

verus! {

/// The 16-bit integers are ordered as a key of an ordered map must be.
pub proof fn lemma_u16_keys_are_ordered()
    ensures
        vstd::laws_cmp::obeys_cmp::<u16>(),
{
    broadcast use vstd::laws_cmp::group_laws_cmp;

}

} // verus!
