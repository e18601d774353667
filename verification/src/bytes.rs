//! Big-endian field extraction from raw byte buffers.

use vstd::prelude::*;

verus! {

/// The big-endian 16-bit value formed by the two bytes of `s` at `i`.
pub open spec fn spec_be16(s: Seq<u8>, i: int) -> u16
    recommends
        0 <= i,
        i + 2 <= s.len(),
{
    (s[i] as u16 * 256 + s[i + 1] as u16) as u16
}

/// Reads the big-endian 16-bit field of `s` at offset `i`.
pub fn be16(s: &[u8], i: usize) -> (r: u16)
    requires
        i + 2 <= s@.len(),
    ensures
        r == spec_be16(s@, i as int),
{
    let hi = s[i];
    let lo = s[i + 1];
    hi as u16 * 256 + lo as u16
}

} // verus!
