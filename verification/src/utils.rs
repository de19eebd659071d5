//! Bit and size helpers.
use vstd::prelude::*;
use crate::config::{
    seL4_MinUntypedBits, RISCV_4K_Page, RISCV_Mega_Page, RISCV_Giga_Page, RISCVPageBits,
    RISCVMegaPageBits, RISCVGigaPageBits,
};

verus! {

/// Size, in bits, of a page of the given size code.
pub open spec fn page_bits_for_size_spec(page_size: usize) -> usize {
    if page_size == RISCV_4K_Page {
        RISCVPageBits
    } else if page_size == RISCV_Mega_Page {
        RISCVMegaPageBits
    } else {
        RISCVGigaPageBits
    }
}

/// Size, in bits, of a page of the given size code (0, 1 or 2).
pub fn pageBitsForSize(page_size: usize) -> (r: usize)
    requires
        page_size <= 2,
    ensures
        r == page_bits_for_size_spec(page_size),
        r == 12 || r == 21 || r == 30,
{
    match page_size {
        RISCV_4K_Page => RISCVPageBits,
        RISCV_Mega_Page => RISCVMegaPageBits,
        _ => RISCVGigaPageBits,
    }
}

/// The number of minimum-size blocks in an untyped object of `2^bits` bytes (that number
/// must fit in a word).
pub fn MAX_FREE_INDEX(bits: usize) -> (r: usize)
    requires
        seL4_MinUntypedBits <= bits < 64,
        vstd::arithmetic::power2::pow2((bits - seL4_MinUntypedBits) as nat) <= usize::MAX,
    ensures
        r == vstd::arithmetic::power2::pow2((bits - seL4_MinUntypedBits) as nat),
{
    let n = bits - seL4_MinUntypedBits;
    proof {
        vstd::arithmetic::power2::lemma2_to64();
        vstd::arithmetic::power2::lemma2_to64_rest();
        vstd::arithmetic::power2::lemma_pow2_strictly_increases(n as nat, 64);
        vstd::bits::lemma_u64_shl_is_mul(1, n as u64);
    }
    (1u64 << (n as u64)) as usize
}

/// Index of the current processor node.
pub fn cpu_id() -> (r: usize)
    ensures
        r == 0,
{
    0
}

/// A mask of the `bits` low bits.
pub open spec fn mask_spec(bits: u64) -> u64
    recommends
        bits < 64,
{
    ((1u64 << bits) - 1) as u64
}

/// A mask of the `bits` low bits.
pub fn MASK(bits: u64) -> (r: u64)
    requires
        bits < 64,
    ensures
        r == mask_spec(bits),
        r as int == vstd::arithmetic::power2::pow2(bits as nat) - 1,
{
    proof {
        vstd::arithmetic::power2::lemma2_to64();
        vstd::arithmetic::power2::lemma2_to64_rest();
        vstd::arithmetic::power2::lemma_pow2_strictly_increases(bits as nat, 64);
        vstd::bits::lemma_u64_shl_is_mul(1, bits);
        vstd::arithmetic::power2::lemma_pow2(bits as nat);
        vstd::arithmetic::power::lemma_pow1(2);
        assert(1u64 << bits >= 1) by (bit_vector) requires bits < 64;
    }
    (1u64 << bits) - 1
}


/// The object at pointer `addr` of the arena `objs`, none for the null pointer.
pub fn convert_to_option_type_ref<T>(objs: &Vec<T>, addr: usize) -> (r: Option<&T>)
    requires
        addr < objs.len(),
    ensures
        addr == 0 ==> r is None,
        addr != 0 ==> r == Some(&objs@[addr as int]),
{
    if addr == 0 {
        None
    } else {
        Some(&objs[addr])
    }
}
} // verus!
