use rel4_kernel::cap::{
    cap_arch_func, cap_pub_func,
    arch_mask_cap_rights, arch_same_object_as, arch_same_region_as, cap, cte_t, is_cap_revocable,
    mask_cap_rights, mdb_node_t, same_object_as, same_region_as, CNodeCapData,
};
use rel4_kernel::structures::{
    maskVMRights, seL4_CapRights_t, vm_rights_from_word, vm_rights_t, vm_rights_to_word, exception_t,
};

fn endpoint(badge: u64, ptr: u64) -> cap {
    cap::endpoint_cap {
        capEPBadge: badge,
        capCanGrantReply: 1,
        capCanGrant: 1,
        capCanSend: 1,
        capCanReceive: 1,
        capEPPtr: ptr,
    }
}

fn frame(base: u64, size: u64, rights: u64) -> cap {
    cap::frame_cap {
        capFMappedASID: 3,
        capFBasePtr: base,
        capFSize: size,
        capFMappedAddress: 0x10_0000,
        capFVMRights: rights,
        capFIsDevice: 0,
    }
}

fn untyped(ptr: u64, bits: u64) -> cap {
    cap::untyped_cap { capFreeIndex: 0, capIsDevice: 0, capBlockSize: bits, capPtr: ptr }
}

#[test]
fn tags_and_arch_caps() {
    assert_eq!(cap::null_cap.get_tag(), 0);
    assert_eq!(endpoint(0, 0x100).get_tag(), 4);
    assert_eq!(frame(0, 0, 3).get_tag(), 1);
    assert!(frame(0, 0, 3).isArchCap());
    assert!(!endpoint(0, 0).isArchCap());
    assert!(cap::asid_control_cap.isArchCap());
}

#[test]
fn pointers_and_sizes() {
    assert_eq!(endpoint(0, 0x1230).get_cap_ptr(), 0x1230);
    assert_eq!(untyped(0x8000, 12).get_cap_size_bits(), 12);
    let cn = cap::cnode_cap { capCNodeRadix: 8, capCNodeGuardSize: 0, capCNodeGuard: 0, capCNodePtr: 0x4000 };
    assert_eq!(cn.get_cap_size_bits(), 8 + 5);
    assert_eq!(endpoint(0, 0).get_cap_size_bits(), 4);
    assert!(untyped(0, 4).get_cap_is_physical());
    assert!(!cap::irq_control_cap.get_cap_is_physical());
    let z = cap::zombie_cap { capZombieID: 0x1237, capZombieType: 128 };
    assert_eq!(z.get_cap_ptr(), 0x1220);
}

#[test]
fn untyped_region_contains_objects() {
    let u = untyped(0x10000, 16);
    assert!(same_region_as(&u, &endpoint(0, 0x10010)));
    assert!(same_region_as(&u, &untyped(0x18000, 12)));
    assert!(!same_region_as(&u, &endpoint(0, 0x20000)));
    assert!(!same_region_as(&u, &untyped(0x1f000, 16)));
    assert!(!same_region_as(&u, &cap::domain_cap));
    // a capability lies in its own region
    assert!(same_region_as(&u, &u));
    assert!(same_region_as(&endpoint(1, 0x40), &endpoint(2, 0x40)));
    assert!(!same_region_as(&endpoint(1, 0x40), &endpoint(1, 0x80)));
    assert!(same_region_as(&cap::irq_control_cap, &cap::irq_handler_cap { capIRQ: 5 }));
}

#[test]
fn same_object_rules() {
    let u = untyped(0x10000, 16);
    assert!(!same_object_as(&u, &u));
    assert!(!same_object_as(&cap::irq_control_cap, &cap::irq_handler_cap { capIRQ: 5 }));
    assert!(same_object_as(&endpoint(1, 0x40), &endpoint(9, 0x40)));
    assert!(same_object_as(&frame(0x2000, 0, 3), &frame(0x2000, 0, 1)));
    assert!(!same_object_as(&frame(0x2000, 0, 3), &frame(0x2000, 1, 3)));
}

#[test]
fn frame_regions() {
    let big = frame(0x20_0000, 1, 3);
    assert!(arch_same_region_as(&big, &frame(0x20_1000, 0, 3)));
    assert!(!arch_same_region_as(&frame(0x20_1000, 0, 3), &big));
    assert!(arch_same_object_as(&big, &frame(0x20_0000, 1, 2)));
    assert!(arch_same_region_as(&cap::asid_control_cap, &cap::asid_control_cap));
}

#[test]
fn revocable_derivations() {
    assert!(is_cap_revocable(&endpoint(5, 0x40), &endpoint(0, 0x40)));
    assert!(!is_cap_revocable(&endpoint(5, 0x40), &endpoint(5, 0x40)));
    assert!(is_cap_revocable(&cap::irq_handler_cap { capIRQ: 3 }, &cap::irq_control_cap));
    assert!(is_cap_revocable(&untyped(0, 12), &untyped(0, 16)));
    assert!(!is_cap_revocable(&frame(0, 0, 3), &frame(0, 0, 3)));
}

#[test]
fn badge_and_guard_updates() {
    let e = endpoint(0, 0x40);
    assert_eq!(e.update_data(false, 7), endpoint(7, 0x40));
    assert_eq!(endpoint(3, 0x40).update_data(false, 7), cap::null_cap);
    assert_eq!(e.update_data(true, 7), cap::null_cap);
    let cn = cap::cnode_cap { capCNodeRadix: 10, capCNodeGuardSize: 0, capCNodeGuard: 0, capCNodePtr: 0x4000 };
    let data = (0x5u64 << 6) | 4;
    assert_eq!(
        cn.update_data(false, data),
        cap::cnode_cap { capCNodeRadix: 10, capCNodeGuardSize: 4, capCNodeGuard: 5, capCNodePtr: 0x4000 }
    );
    assert_eq!(cn.update_data(false, 60), cap::null_cap);
    assert_eq!(frame(0, 0, 3).update_data(false, 9), frame(0, 0, 3));
    let d = CNodeCapData::new(data);
    assert_eq!(d.get_guard(), 5);
    assert_eq!(d.get_guard_size(), 4);
}

#[test]
fn vm_rights_masking() {
    let read_only = seL4_CapRights_t::from_word(0b0010);
    assert_eq!(read_only.capAllowRead, 1);
    assert_eq!(read_only.capAllowWrite, 0);
    assert_eq!(maskVMRights(vm_rights_t::VMReadWrite, read_only), vm_rights_t::VMReadOnly);
    let all = seL4_CapRights_t::from_word(0b1111);
    assert_eq!(maskVMRights(vm_rights_t::VMReadWrite, all), vm_rights_t::VMReadWrite);
    let write_only = seL4_CapRights_t::from_word(0b0001);
    assert_eq!(maskVMRights(vm_rights_t::VMReadWrite, write_only), vm_rights_t::VMKernelOnly);
    assert_eq!(vm_rights_from_word(3), vm_rights_t::VMReadWrite);
    assert_eq!(vm_rights_from_word(7), vm_rights_t::VMKernelOnly);
    assert_eq!(vm_rights_to_word(vm_rights_t::VMReadOnly), 2);
}

#[test]
fn cap_rights_masking() {
    let read_only = seL4_CapRights_t::from_word(0b0010);
    let masked = mask_cap_rights(read_only, &frame(0x1000, 0, 3));
    assert_eq!(masked, frame(0x1000, 0, 2));
    assert_eq!(mask_cap_rights(read_only, &masked), masked);
    assert_eq!(arch_mask_cap_rights(read_only, &frame(0x1000, 0, 2)), frame(0x1000, 0, 2));
    // rights fields of capabilities other than frames are left as they are
    assert_eq!(mask_cap_rights(read_only, &endpoint(0, 0x40)), endpoint(0, 0x40));
}

#[test]
fn derive_arch_caps() {
    let mut slot = cte_t { capability: cap::null_cap, cteMDBNode: mdb_node_t::new(0, 0, 0, 0) };
    let r = slot.arch_derive_cap(&frame(0x1000, 0, 3));
    assert_eq!(r.status, exception_t::EXCEPTION_NONE);
    assert_eq!(r.capability, cap::frame_cap {
        capFMappedASID: 0,
        capFBasePtr: 0x1000,
        capFSize: 0,
        capFMappedAddress: 0x10_0000,
        capFVMRights: 3,
        capFIsDevice: 0,
    });
    let pt = cap::page_table_cap { capPTMappedASID: 1, capPTBasePtr: 0x3000, capPTIsMapped: 0, capPTMappedAddress: 0 };
    let r = slot.arch_derive_cap(&pt);
    assert_eq!(r.status, exception_t::EXCEPTION_SYSCALL_ERROR);
    assert_eq!(r.capability, cap::null_cap);
    let vs = cap::vspace_cap { capVSMappedASID: 1, capVSBasePtr: 0x5000, capVSIsMapped: 1 };
    assert!(vs.is_vtable_root());
    assert!(vs.is_valid_vtable_root());
    assert_eq!(slot.arch_derive_cap(&vs).capability, vs);
}
