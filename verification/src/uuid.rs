//! Shape identities: four host-supplied 32-bit words packed into one
//! 128-bit value.

use vstd::prelude::*;

verus! {

/// The identity obtained by concatenating the four words in a fixed order:
/// `a` occupies the highest 32 bits, then `b`, then `c`, and `d` the lowest.
pub open spec fn spec_uuid_from_u32_quartet(a: u32, b: u32, c: u32, d: u32) -> u128 {
    ((a as u128) << 96) | ((b as u128) << 64) | ((c as u128) << 32) | (d as u128)
}

/// Packs four 32-bit words into one 128-bit identity. Deterministic by
/// construction: the result is a function of the four words alone.
pub fn uuid_from_u32_quartet(a: u32, b: u32, c: u32, d: u32) -> (r: u128)
    ensures
        r == spec_uuid_from_u32_quartet(a, b, c, d),
{
    ((a as u128) << 96) | ((b as u128) << 64) | ((c as u128) << 32) | (d as u128)
}

/// Identity construction is injective: two quartets yield the same identity
/// exactly when they agree word for word. In particular construction is
/// order-sensitive: permuting distinct words changes the identity.
pub proof fn lemma_uuid_injective(
    a1: u32, b1: u32, c1: u32, d1: u32,
    a2: u32, b2: u32, c2: u32, d2: u32,
)
    ensures
        spec_uuid_from_u32_quartet(a1, b1, c1, d1) == spec_uuid_from_u32_quartet(a2, b2, c2, d2)
            <==> (a1 == a2 && b1 == b2 && c1 == c2 && d1 == d2),
{
    assert((((a1 as u128) << 96) | ((b1 as u128) << 64) | ((c1 as u128) << 32) | (d1 as u128))
        == (((a2 as u128) << 96) | ((b2 as u128) << 64) | ((c2 as u128) << 32) | (d2 as u128))
        <==> (a1 == a2 && b1 == b2 && c1 == c2 && d1 == d2)) by (bit_vector);
}

/// Reversing the word order of a quartet whose words differ yields a
/// different identity.
pub proof fn lemma_uuid_order_sensitive(a: u32, b: u32, c: u32, d: u32)
    requires
        a != d || b != c,
    ensures
        spec_uuid_from_u32_quartet(a, b, c, d) != spec_uuid_from_u32_quartet(d, c, b, a),
{
    lemma_uuid_injective(a, b, c, d, d, c, b, a);
}

} // verus!
