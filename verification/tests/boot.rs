use rel4_kernel::boot::{
    calculate_extra_bi_size_bits, ceiling_kernel_window, get_n_paging, init_dtb, is_reg_empty, paddr_to_pptr_reg, pptr_in_kernel_window,
    pptr_to_paddr_reg, p_region_t, region_t, v_region_t, PADDR_TOP, PPTR_BASE, PPTR_TOP,
};

#[test]
fn kernel_window_regions() {
    let p = p_region_t { start: 0x4000_0000, end: 0x5000_0000 };
    let k = paddr_to_pptr_reg(&p);
    assert_eq!(k, region_t { start: 0xffff_ff80_4000_0000, end: 0xffff_ff80_5000_0000 });
    assert_eq!(pptr_to_paddr_reg(k), p);
    assert!(!is_reg_empty(&k));
    assert!(is_reg_empty(&region_t { start: 7, end: 7 }));
    assert_eq!(PADDR_TOP, 0x7f_c000_0000);
}

#[test]
fn kernel_window_bounds() {
    assert!(pptr_in_kernel_window(PPTR_BASE));
    assert!(pptr_in_kernel_window(PPTR_TOP - 1));
    assert!(!pptr_in_kernel_window(PPTR_TOP));
    assert!(!pptr_in_kernel_window(PPTR_BASE - 1));
    assert_eq!(ceiling_kernel_window(PPTR_TOP - 1), PPTR_TOP - 1);
    assert_eq!(ceiling_kernel_window(0xffff_ffff_ffff_0000), PPTR_TOP);
}

#[test]
fn paging_blocks_of_a_region() {
    assert_eq!(get_n_paging(v_region_t { start: 0x1000, end: 0x3001 }, 12), 3);
    assert_eq!(get_n_paging(v_region_t { start: 0x1000, end: 0x3000 }, 12), 2);
    assert_eq!(get_n_paging(v_region_t { start: 0x1fff, end: 0x2001 }, 12), 2);
    assert_eq!(get_n_paging(v_region_t { start: 0, end: 0x40_0000 }, 21), 2);
}

#[test]
fn extra_boot_info_size_bits() {
    assert_eq!(calculate_extra_bi_size_bits(0), 0);
    assert_eq!(calculate_extra_bi_size_bits(1), 12);
    assert_eq!(calculate_extra_bi_size_bits(4096), 12);
    assert_eq!(calculate_extra_bi_size_bits(4097), 13);
    assert_eq!(calculate_extra_bi_size_bits(8192), 13);
    assert_eq!(calculate_extra_bi_size_bits(8193), 14);
    assert_eq!(calculate_extra_bi_size_bits(1 << 20), 20);
    assert_eq!(calculate_extra_bi_size_bits((1 << 20) + 1), 21);
}

#[test]
fn device_tree_region() {
    let mut extra = 100u64;
    assert_eq!(init_dtb(0, 0x4000_0000, &mut extra), Some(p_region_t { start: 0, end: 0 }));
    assert_eq!(extra, 100);
    assert_eq!(init_dtb(0x1000, 0x4000_0000, &mut extra), Some(p_region_t { start: 0x4000_0000, end: 0x4000_1000 }));
    assert_eq!(extra, 100 + 16 + 0x1000);
    let mut extra = 0u64;
    assert_eq!(init_dtb(0x1000, PADDR_TOP - 0x800, &mut extra), None);
    assert_eq!(init_dtb(0x1000, u64::MAX - 0x10, &mut extra), None);
    assert_eq!(extra, 0);
}
