//! Word-level helpers: sign extension of narrow two's-complement fields
//! and assembly of big-endian byte pairs into 16-bit words.

use vstd::prelude::*;

verus! {

/// The 16-bit word formed from a big-endian byte pair.
pub open spec fn be16(hi: u8, lo: u8) -> u16 {
    (lo + 256 * hi) as u16
}

/// The 16-bit word whose low `k` bits are `x` and whose remaining bits
/// replicate bit `k - 1` of `x`, preserving the signed value of a k-bit
/// two's-complement field.
pub open spec fn sign_extend16(x: u16, k: u16) -> u16
    recommends
        1 <= k <= 15,
        x >> k == 0,
{
    if (x >> ((k - 1) as u16)) & 1 == 1 {
        x | (0xFFFFu16 << k)
    } else {
        x
    }
}

/// Extends the k-bit two's-complement field `x` to a full 16-bit word.
pub fn sign_extend(x: u16, bit_count: u16) -> (r: u16)
    requires
        1 <= bit_count <= 15,
        x >> bit_count == 0,
    ensures
        r == sign_extend16(x, bit_count),
{
    if (x >> (bit_count - 1)) & 1 == 1 {
        x | (0xFFFF << bit_count)
    } else {
        x
    }
}

/// A sign-extended field keeps its low `k` bits unchanged; if the
/// field's top bit is clear the result is the field itself, and if it
/// is set, all bits above the field are ones.
pub proof fn lemma_sign_extend_props(x: u16, k: u16)
    by (bit_vector)
    requires
        1 <= k <= 15,
        x >> k == 0,
    ensures
        (x >> ((k - 1) as u16)) & 1 == 0 ==> sign_extend16(x, k) == x,
        (x >> ((k - 1) as u16)) & 1 == 1 ==> sign_extend16(x, k) >> k == 0xFFFFu16 >> k,
        sign_extend16(x, k) & (0xFFFFu16 >> ((16 - k) as u16)) == x,
        (x >> ((k - 1) as u16)) & 1 == 1 ==> sign_extend16(x, k) == x + 0x10000 - (0x8000u16
            >> ((15 - k) as u16)),
{
}

/// Reads a 16-bit word from two bytes in big-endian order.
pub fn swap_endian(original: [u8; 2]) -> (r: u16)
    ensures
        r == be16(original@[0], original@[1]),
{
    let hi = original[0];
    let lo = original[1];
    proof {
        assert((lo as u16) + (((hi as u16) << 8) as u16) == (lo + 256 * hi) as u16
            && ((hi as u16) << 8) <= 0xFF00) by (bit_vector);
    }
    lo as u16 + ((hi as u16) << 8)
}

} // verus!
