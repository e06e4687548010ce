//! Rounding an address up to an alignment.

use vstd::prelude::*;
use vstd::arithmetic::power::pow;
use vstd::arithmetic::power2::{
    is_pow2, is_pow2_equiv, lemma2_to64, lemma_pow2_pos, lemma_pow2_strictly_increases, pow2,
};
use vstd::bits::{low_bits_mask, lemma_u64_low_bits_mask_is_mod};

verus! {

/// The least multiple of `align` that is not below `addr`, for `align > 0`.
pub open spec fn align_up(addr: int, align: int) -> int {
    if addr % align == 0 {
        addr
    } else {
        addr + (align - addr % align)
    }
}

/// `align_up(addr, align)` is a multiple of `align` in `[addr, addr + align)`.
pub proof fn lemma_align_up_is_aligned(addr: int, align: int)
    by (nonlinear_arith)
    requires
        align > 0,
    ensures
        align_up(addr, align) % align == 0,
        addr <= align_up(addr, align) < addr + align,
{
}

/// No multiple of `align` lies between `addr` and `align_up(addr, align)`.
pub proof fn lemma_align_up_is_least(addr: int, align: int, m: int)
    requires
        align > 0,
        m % align == 0,
        addr <= m,
    ensures
        align_up(addr, align) <= m,
{
    lemma_align_up_is_aligned(addr, align);
    if m < align_up(addr, align) {
        lemma_multiples_are_spaced(align_up(addr, align), m, align);
    }
}

/// Two multiples of `align` are equal or at least `align` apart.
proof fn lemma_multiples_are_spaced(a: int, b: int, align: int)
    by (nonlinear_arith)
    requires
        align > 0,
        a % align == 0,
        b % align == 0,
        b < a,
    ensures
        b + align <= a,
{
    assert(a == align * (a / align) + a % align);
    assert(b == align * (b / align) + b % align);
    assert(b / align < a / align);
    assert(align * (b / align) + align <= align * (a / align));
}

/// A power of two is at least one.
pub proof fn lemma_pow2_is_positive(n: int)
    requires
        is_pow2(n),
    ensures
        n >= 1,
{
    reveal(is_pow2);
}

/// For a power of two, the remainder is the low bits under the mask
/// `align - 1`.
pub proof fn lemma_mask_is_remainder(addr: usize, align: usize)
    requires
        is_pow2(align as int),
    ensures
        addr & ((align - 1) as usize) == addr % align,
{
    lemma_pow2_is_positive(align as int);
    is_pow2_equiv(align as int);
    let n: nat = choose|i: nat| pow(2, i) == align as int;
    assert(pow2(n) == align);
    lemma_pow2_pos(n);
    lemma2_to64();
    assert(n < 64) by {
        if n > 64 {
            lemma_pow2_strictly_increases(64, n);
        }
    }
    assert(low_bits_mask(n) == align - 1);
    lemma_u64_low_bits_mask_is_mod(addr as u64, n);
    assert((addr as u64) & ((align - 1) as u64) == (addr as u64) % (align as u64));
}

/// Rounds `addr` up to the power of two `align`, or reports that the rounded
/// address does not fit in a machine word.
pub fn checked_align_up(addr: usize, align: usize) -> (r: Option<usize>)
    requires
        is_pow2(align as int),
    ensures
        match r {
            Some(up) => up == align_up(addr as int, align as int),
            None => align_up(addr as int, align as int) > usize::MAX,
        },
{
    proof {
        lemma_pow2_is_positive(align as int);
        lemma_mask_is_remainder(addr, align);
    }
    let mask: usize = align - 1;
    let rem: usize = addr & mask;
    if rem == 0 {
        Some(addr)
    } else {
        addr.checked_add(align - rem)
    }
}

} // verus!
