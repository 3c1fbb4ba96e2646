//! Single bits of register values.

use vstd::prelude::*;

verus! {

/// Whether bit `n` of a 32-bit register value is set.
pub open spec fn bit32(x: u32, n: u8) -> bool {
    x & (1u32 << n) != 0
}

/// Whether bit `n` of an 8-bit register value is set.
pub open spec fn bit8(x: u8, n: u8) -> bool {
    x & (1u8 << n) != 0
}

/// Setting bit `n` sets it and changes no other.
pub proof fn lemma_set32(x: u32, n: u8, m: u8)
    requires
        n < 32,
        m < 32,
    ensures
        bit32(x | (1u32 << n), m) == (m == n || bit32(x, m)),
{
    assert((x | (1u32 << n)) & (1u32 << m) != 0 <==> (m == n || x & (1u32 << m) != 0))
        by (bit_vector)
        requires
            n < 32,
            m < 32,
    ;
}

/// Clearing bit `n` clears it and changes no other.
pub proof fn lemma_clear32(x: u32, n: u8, m: u8)
    requires
        n < 32,
        m < 32,
    ensures
        bit32(x & !(1u32 << n), m) == (m != n && bit32(x, m)),
{
    assert((x & !(1u32 << n)) & (1u32 << m) != 0 <==> (m != n && x & (1u32 << m) != 0))
        by (bit_vector)
        requires
            n < 32,
            m < 32,
    ;
}

/// Clearing bit `n` clears it and changes no other.
pub proof fn lemma_clear8(x: u8, n: u8, m: u8)
    requires
        n < 8,
        m < 8,
    ensures
        bit8(x & !(1u8 << n), m) == (m != n && bit8(x, m)),
{
    assert((x & !(1u8 << n)) & (1u8 << m) != 0 <==> (m != n && x & (1u8 << m) != 0))
        by (bit_vector)
        requires
            n < 8,
            m < 8,
    ;
}

/// A union of flag bytes holds the flags of both.
pub proof fn lemma_or8(x: u8, y: u8, m: u8)
    requires
        m < 8,
    ensures
        bit8(x | y, m) == (bit8(x, m) || bit8(y, m)),
{
    assert((x | y) & (1u8 << m) != 0 <==> (x & (1u8 << m) != 0 || y & (1u8 << m) != 0))
        by (bit_vector)
        requires
            m < 8,
    ;
}

/// A number without any bit set is zero.
pub proof fn lemma_zero32(x: u32)
    ensures
        (forall|n: u8| n < 32 ==> !#[trigger] bit32(x, n)) ==> x == 0,
{
    if forall|n: u8| n < 32 ==> !#[trigger] bit32(x, n) {
        lemma_zero_below(x, 32);
        assert(x == 0) by (bit_vector)
            requires
                x & 0xFFFF_FFFF == 0,
        ;
    }
}

/// The numbers below `2^end` as a mask.
spec fn low_mask(end: u8) -> u32 {
    if end == 32 {
        0xFFFF_FFFF
    } else {
        ((1u32 << end) - 1) as u32
    }
}

proof fn lemma_zero_below(x: u32, end: u8)
    requires
        end <= 32,
        forall|n: u8| n < 32 ==> !#[trigger] bit32(x, n),
    ensures
        x & low_mask(end) == 0,
    decreases end,
{
    if end == 0 {
        assert(x & (((1u32 << 0u8) - 1) as u32) == 0) by (bit_vector);
    } else {
        let last = (end - 1) as u8;
        lemma_zero_below(x, last);
        assert(!bit32(x, last));
        if end == 32 {
            assert(x & 0xFFFF_FFFF == 0) by (bit_vector)
                requires
                    x & (((1u32 << 31u8) - 1) as u32) == 0,
                    x & (1u32 << 31u8) == 0,
            ;
        } else {
            assert(x & (((1u32 << end) - 1) as u32) == 0) by (bit_vector)
                requires
                    end == last + 1,
                    last < 31,
                    x & (((1u32 << last) - 1) as u32) == 0,
                    x & (1u32 << last) == 0,
            ;
        }
    }
}

} // verus!
