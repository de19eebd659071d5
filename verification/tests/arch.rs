use rel4_kernel::arch_aarch64;
use rel4_kernel::arch_riscv64;
use rel4_kernel::message_info::{seL4_MessageInfo_t, MessageLabel, CNODE_LAST_INVOCATION};
use rel4_kernel::utils::{cpu_id, pageBitsForSize, MASK, MAX_FREE_INDEX};

#[test]
fn aarch64_timer_conversions() {
    assert_eq!(arch_aarch64::usToTicks(10), 625);
    assert_eq!(arch_aarch64::ticksToUs(625), 10);
    assert_eq!(arch_aarch64::usToTicks(3), 187);
    // the round trip loses the odd half tick
    assert_eq!(arch_aarch64::ticksToUs(arch_aarch64::usToTicks(3)), 2);
    assert_eq!(arch_aarch64::ticksToUs(arch_aarch64::usToTicks(4)), 4);
    assert_eq!(arch_aarch64::getMaxTicksToUs(), u64::MAX / 62500);
    assert_eq!(arch_aarch64::getMaxUsToTicks(), u64::MAX / 62500);
    assert_eq!(arch_aarch64::getTimerPrecision(), 0);
    assert_eq!(arch_aarch64::getKernelWcetUs(), 10);
    assert_eq!(arch_aarch64::getKernelWcetTicks(), 625);
}

#[test]
fn riscv64_timer_conversions() {
    assert_eq!(arch_riscv64::usToTicks(5), 50);
    assert_eq!(arch_riscv64::ticksToUs(55), 5);
    assert_eq!(arch_riscv64::ticksToUs(arch_riscv64::usToTicks(123)), 123);
    assert_eq!(arch_riscv64::getTimerPrecision(), 10);
    assert_eq!(arch_riscv64::getKernelWcetUs(), 10);
    assert_eq!(arch_riscv64::getMaxTicksToUs(), u64::MAX);
    assert_eq!(arch_riscv64::getMaxUsToTicks(), u64::MAX / 10);
}

#[test]
fn aarch64_object_types() {
    assert_eq!(arch_aarch64::ObjectType::seL4_ARM_SmallPageObject.arch_get_object_size(), 12);
    assert_eq!(arch_aarch64::ObjectType::seL4_ARM_LargePageObject.arch_get_object_size(), 21);
    assert_eq!(arch_aarch64::ObjectType::seL4_ARM_HugePageObject.arch_get_object_size(), 30);
    assert_eq!(arch_aarch64::ObjectType::seL4_ARM_PageTableObject.arch_get_object_size(), 12);
    assert_eq!(arch_aarch64::ObjectType::seL4_ARM_VSpaceObject.arch_get_object_size(), 12);
    assert_eq!(arch_aarch64::ObjectType::seL4_ARM_LargePageObject.get_frame_type(), 1);
    assert!(arch_aarch64::ObjectType::seL4_ARM_VSpaceObject.is_arch_type());
    assert!(!arch_aarch64::ObjectType::TCBObject.is_arch_type());
}

#[test]
fn riscv64_object_types() {
    assert_eq!(arch_riscv64::ObjectType::GigaPageObject.arch_get_object_size(), 30);
    assert_eq!(arch_riscv64::ObjectType::MegaPageObject.arch_get_object_size(), 21);
    assert_eq!(arch_riscv64::ObjectType::PageTableObject.arch_get_object_size(), 12);
    assert_eq!(arch_riscv64::ObjectType::NormalPageObject.get_frame_type(), 0);
    assert_eq!(arch_riscv64::ObjectType::GigaPageObject.get_frame_type(), 2);
    assert!(arch_riscv64::ObjectType::MegaPageObject.is_arch_type());
    assert!(arch_riscv64::ObjectType::PageTableObject.is_arch_type());
    assert!(!arch_riscv64::ObjectType::TCBObject.is_arch_type());
}

#[test]
fn bit_helpers() {
    assert_eq!(MASK(0), 0);
    assert_eq!(MASK(12), 0xfff);
    assert_eq!(MASK(63), u64::MAX >> 1);
    assert_eq!(pageBitsForSize(1), 21);
    assert_eq!(MAX_FREE_INDEX(16), 1 << 12);
    assert_eq!(MAX_FREE_INDEX(40), 1 << 36);
    assert_eq!(cpu_id(), 0);
}

#[test]
fn message_info_word() {
    let info = seL4_MessageInfo_t::new(5, 1, 2, 3);
    assert_eq!(info.to_word(), (5 << 12) | (1 << 9) | (2 << 7) | 3);
    assert_eq!(seL4_MessageInfo_t::new(0, 0, 0, 1).to_word(), 1);
    assert_eq!(CNODE_LAST_INVOCATION, MessageLabel::CNodeSaveCaller as usize);
}
