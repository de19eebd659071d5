//! Address arithmetic of the boot regions in the 64-bit kernel window. Addresses are 64-bit
//! words (`u64`): the window lies above what a 32-bit word can hold.
use vstd::prelude::*;
use vstd::arithmetic::power2::pow2;
use crate::config::seL4_PageBits;

verus! {

/// Top of the kernel window.
pub const PPTR_TOP: u64 = 0xffffffffc0000000;
/// Base of the kernel window.
pub const PPTR_BASE: u64 = 0xffffff8000000000;
/// Physical address mapped at the base of the kernel window.
pub const PADDR_BASE: u64 = 0x0;
/// Distance from a physical address to its kernel-window address.
pub const PPTR_BASE_OFFSET: u64 = PPTR_BASE - PADDR_BASE;
/// The physical address mapped at the top of the kernel window.
pub const PADDR_TOP: u64 = PPTR_TOP - PPTR_BASE_OFFSET;

/// A region of kernel-window addresses, `[start, end)`.
#[derive(Debug, Clone, Copy, PartialEq, Eq, Structural)]
pub struct region_t {
    pub start: u64,
    pub end: u64,
}

/// A region of physical addresses, `[start, end)`.
#[derive(Debug, Clone, Copy, PartialEq, Eq, Structural)]
pub struct p_region_t {
    pub start: u64,
    pub end: u64,
}

/// A region of virtual addresses, `[start, end)`.
#[derive(Debug, Clone, Copy, PartialEq, Eq, Structural)]
pub struct v_region_t {
    pub start: u64,
    pub end: u64,
}

/// Whether a region is empty.
pub fn is_reg_empty(reg: &region_t) -> (r: bool)
    ensures
        r == (reg.start == reg.end),
{
    reg.start == reg.end
}

/// The kernel-window address of physical address `x`.
pub fn paddr_to_pptr(x: u64) -> (r: u64)
    requires
        x + PPTR_BASE_OFFSET <= u64::MAX,
    ensures
        r == x + PPTR_BASE_OFFSET,
{
    x + PPTR_BASE_OFFSET
}

/// The physical address of kernel-window address `x`.
pub fn pptr_to_paddr(x: u64) -> (r: u64)
    requires
        x >= PPTR_BASE_OFFSET,
    ensures
        r == x - PPTR_BASE_OFFSET,
{
    x - PPTR_BASE_OFFSET
}

/// The kernel-window region of a physical region.
pub fn paddr_to_pptr_reg(reg: &p_region_t) -> (r: region_t)
    requires
        reg.start + PPTR_BASE_OFFSET <= u64::MAX,
        reg.end + PPTR_BASE_OFFSET <= u64::MAX,
    ensures
        r == (region_t { start: (reg.start + PPTR_BASE_OFFSET) as u64, end: (reg.end + PPTR_BASE_OFFSET) as u64 }),
{
    region_t { start: paddr_to_pptr(reg.start), end: paddr_to_pptr(reg.end) }
}

/// The physical region of a kernel-window region.
pub fn pptr_to_paddr_reg(reg: region_t) -> (r: p_region_t)
    requires
        reg.start >= PPTR_BASE_OFFSET,
        reg.end >= PPTR_BASE_OFFSET,
    ensures
        r == (p_region_t { start: (reg.start - PPTR_BASE_OFFSET) as u64, end: (reg.end - PPTR_BASE_OFFSET) as u64 }),
{
    p_region_t { start: pptr_to_paddr(reg.start), end: pptr_to_paddr(reg.end) }
}

/// Kernel-window address `p`, or the top of the window if `p` maps a physical address above
/// the top of physical memory that the window covers.
pub fn ceiling_kernel_window(p: u64) -> (r: u64)
    requires
        p >= PPTR_BASE_OFFSET,
    ensures
        r == if p - PPTR_BASE_OFFSET > PADDR_TOP {
            PPTR_TOP
        } else {
            p
        },
{
    let mut p = p;
    if pptr_to_paddr(p) > PADDR_TOP {
        p = PPTR_TOP;
    }
    p
}

/// Whether `pptr` lies in the kernel window.
pub fn pptr_in_kernel_window(pptr: u64) -> (r: bool)
    ensures
        r == (PPTR_BASE <= pptr < PPTR_TOP),
{
    pptr >= PPTR_BASE && pptr < PPTR_TOP
}

/// `n` rounded down to a multiple of `2^b`.
pub open spec fn round_down(n: u64, b: u64) -> u64 {
    (n >> b) << b
}

/// `n` rounded up to a multiple of `2^b`, for positive `n`.
pub open spec fn round_up(n: u64, b: u64) -> u64 {
    ((((((n - 1) as u64) >> b) + 1) as u64) << b)
}

/// The number of `2^bits`-byte blocks that the region `v_reg` touches: from its start
/// rounded down to its end rounded up, in blocks.
pub fn get_n_paging(v_reg: v_region_t, bits: u64) -> (r: u64)
    requires
        bits < 64,
        1 <= v_reg.end,
        round_down(v_reg.start, bits) <= round_up(v_reg.end, bits),
    ensures
        r == (round_up(v_reg.end, bits) - round_down(v_reg.start, bits)) / (1u64 << bits) as int,
{
    let start = (v_reg.start >> bits) << bits;
    let last = v_reg.end - 1;
    assert(last >> bits <= last) by (bit_vector);
    let end = ((last >> bits) + 1) << bits;
    let block: u64 = 1u64 << bits;
    proof {
        assert(block > 0) by (bit_vector)
            requires
                bits < 64,
                block == 1u64 << bits,
        ;
    }
    (end - start) / block
}


/// The size, in bits, of a region that holds `size` bytes of extra boot information: the
/// least power of two, at least a page, that is no smaller than `size`; 0 when there is none.
pub fn calculate_extra_bi_size_bits(size: usize) -> (r: usize)
    requires
        size as u64 <= 0xffff_ffff_ffff_f000u64,
    ensures
        size == 0 ==> r == 0,
        size > 0 ==> {
            &&& seL4_PageBits <= r <= 64
            &&& size <= pow2(r as nat)
            &&& (r == seL4_PageBits || pow2((r - 1) as nat) < size)
        },
{
    if size == 0 {
        return 0;
    }
    // `size` rounded up to whole pages, as a 64-bit word.
    let s: u64 = size as u64;
    let pages: u64 = (s - 1) >> 12u64;
    assert(pages < 0x10_0000_0000_0000u64) by (bit_vector)
        requires
            pages == ((s - 1) as u64) >> 12u64,
            1 <= s,
    ;
    let rounded: u64 = (pages + 1) << 12u64;
    proof {
        assert(rounded >= s && rounded < s + 4096 && rounded >= 4096 && rounded % 4096 == 0) by (bit_vector)
            requires
                1 <= s <= 0xffff_ffff_ffff_f000u64,
                rounded == (((pages + 1) as u64) << 12u64),
                pages == ((s - 1) as u64) >> 12u64,
        ;
        crate::bitmap::lemma_leading_zeros_shift(rounded);
    }
    let clzl_ret = rounded.leading_zeros() as usize;
    let mut msb: usize = 63 - clzl_ret;
    let ghost m = msb;
    proof {
        vstd::bits::lemma_u64_shr_is_div(rounded, m as u64);
        vstd::arithmetic::power2::lemma_pow2_adds(m as nat, 1);
        vstd::arithmetic::power2::lemma2_to64();
        vstd::arithmetic::power2::lemma_pow2_pos(m as nat);
        assert(pow2(m as nat) <= rounded < 2 * pow2(m as nat)) by (nonlinear_arith)
            requires
                rounded as nat / pow2(m as nat) == 1,
                pow2(m as nat) > 0,
        ;
        if m < 12 {
            vstd::arithmetic::power2::lemma_pow2_strictly_increases(m as nat, 12);
            if m + 1 < 12 {
                vstd::arithmetic::power2::lemma_pow2_strictly_increases((m + 1) as nat, 12);
            }
        }
        assert(m >= 12);
        vstd::bits::lemma_u64_shl_is_mul(1, m as u64);
    }
    if s > (1u64 << (msb as u64)) {
        msb = msb + 1;
    } else {
        proof {
            if m > 12 {
                vstd::arithmetic::power2::lemma_pow2_adds((m - 1) as nat, 1);
                if m > 13 {
                    vstd::arithmetic::power2::lemma_pow2_strictly_increases(12, (m - 1) as nat);
                }
                assert(pow2((m - 1) as nat) >= 4096);
            }
        }
    }
    msb
}

/// Size of a boot-information header: an identifier word and a length word.
pub const BOOTINFO_HEADER_SIZE: u64 = 16;

/// The physical region of a device tree of `dtb_size` bytes at `dtb_phys_addr`, reserving room
/// for it and its header in the extra boot information: none when the region wraps around the
/// address space or reaches the top of the kernel window's physical memory; the empty region,
/// with nothing reserved, when there is no device tree.
pub fn init_dtb(dtb_size: u64, dtb_phys_addr: u64, extra_bi_size: &mut u64) -> (r: Option<p_region_t>)
    requires
        dtb_size > 0 && dtb_phys_addr + dtb_size < PADDR_TOP ==> *old(extra_bi_size) + BOOTINFO_HEADER_SIZE
            + dtb_size <= u64::MAX,
    ensures
        dtb_size == 0 ==> r == Some(p_region_t { start: 0, end: 0 }) && *final(extra_bi_size) == *old(
            extra_bi_size,
        ),
        dtb_size > 0 && dtb_phys_addr + dtb_size >= PADDR_TOP ==> r is None && *final(extra_bi_size) == *old(
            extra_bi_size,
        ),
        dtb_size > 0 && dtb_phys_addr + dtb_size < PADDR_TOP ==> {
            &&& r == Some(p_region_t { start: dtb_phys_addr, end: (dtb_phys_addr + dtb_size) as u64 })
            &&& *final(extra_bi_size) == *old(extra_bi_size) + BOOTINFO_HEADER_SIZE + dtb_size
        },
{
    let mut dtb_p_reg = p_region_t { start: 0, end: 0 };
    if dtb_size > 0 {
        let dtb_phys_end = dtb_phys_addr.wrapping_add(dtb_size);
        if dtb_phys_end < dtb_phys_addr {
            return None;
        }
        if dtb_phys_end >= PADDR_TOP {
            return None;
        }
        *extra_bi_size = *extra_bi_size + BOOTINFO_HEADER_SIZE + dtb_size;
        dtb_p_reg = p_region_t { start: dtb_phys_addr, end: dtb_phys_end };
    }
    Some(dtb_p_reg)
}
} // verus!
