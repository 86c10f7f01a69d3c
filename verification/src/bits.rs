//! Single-bit views of 32-bit register words, with the bitwise lemmas the
//! rest of the driver needs.

use vstd::prelude::*;

verus! {

/// True when bit `j` of `v` is set.
pub open spec fn nth_bit(v: u32, j: u32) -> bool {
    (v >> j) & 1u32 == 1u32
}

/// Bit `j` of `v`, as executable code.
pub fn test_bit(v: u32, j: u32) -> (r: bool)
    requires
        j < 32,
    ensures
        r == nth_bit(v, j),
{
    (v >> j) & 1u32 == 1u32
}

pub proof fn lemma_or_one_bit(v: u32, m: u32)
    by (bit_vector)
    requires
        m < 32,
    ensures
        forall|j: u32| j < 32 ==> #[trigger] nth_bit(v | (1u32 << m), j) == (nth_bit(v, j) || j == m),
{
}

pub proof fn lemma_and_not(a: u32, b: u32)
    by (bit_vector)
    ensures
        forall|j: u32| j < 32 ==> #[trigger] nth_bit(a & !b, j) == (nth_bit(a, j) && !nth_bit(b, j)),
{
}

pub proof fn lemma_one_bit_mask(m: u32)
    by (bit_vector)
    requires
        m < 32,
    ensures
        forall|j: u32| j < 32 ==> #[trigger] nth_bit(1u32 << m, j) == (j == m),
{
}

pub proof fn lemma_const_bits()
    by (bit_vector)
    ensures
        forall|j: u32| j < 32 ==> !(#[trigger] nth_bit(0u32, j)),
        forall|j: u32| j < 32 ==> #[trigger] nth_bit(0xffff_ffffu32, j),
        forall|a: u32| a & !0xffff_ffffu32 == 0u32,
{
}

} // verus!
