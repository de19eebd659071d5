use rel4_kernel::fastpath::lookup_fp;
use rel4_kernel::cap::{cap, cte_t, mdb_node_t};
use rel4_kernel::fault::{lookup_fault, seL4_Fault, thread_state_t, ThreadState};
use rel4_kernel::notification::{notification_t, NtfnState_Active, NtfnState_Idle};
use rel4_kernel::structures::exception_t;
use rel4_kernel::syscall_utils::{lookupSlot_ret_t, lookup_extra_caps_with_buf};
use rel4_kernel::tcb::{arch_reg_to_index, seL4_IPCBuffer, tcb_t, ArchReg, ArchTCB};

fn frame(rights: u64, device: u64) -> cap {
    cap::frame_cap {
        capFMappedASID: 1,
        capFBasePtr: 0x1000,
        capFSize: 0,
        capFMappedAddress: 0x40_0000,
        capFVMRights: rights,
        capFIsDevice: device,
    }
}

fn thread(buffer: cap) -> tcb_t {
    let mut cspace = Vec::new();
    for _ in 0..5 {
        cspace.push(cte_t { capability: cap::null_cap, cteMDBNode: mdb_node_t::new(0, 0, 0, 0) });
    }
    cspace[4].capability = buffer;
    tcb_t {
        tcbArch: ArchTCB::default(),
        tcbState: thread_state_t {
            tsType: ThreadState::ThreadStateRunning,
            tcbQueued: 0,
            blockingObject: 0,
            replyObject: 0,
        },
        tcbBoundNotification: 0,
        tcbFault: seL4_Fault::seL4_Fault_NullFault,
        tcbLookupFailure: lookup_fault::invalid_root,
        domain: 0,
        tcbMCP: 255,
        tcbPriority: 10,
        tcbTimeSlice: 5,
        tcbFaultHandler: 0,
        tcbIPCBuffer: 0,
        tcbSchedNext: 0,
        tcbSchedPrev: 0,
        tcbEPNext: 0,
        tcbEPPrev: 0,
        cspace,
        ipcBuffer: seL4_IPCBuffer::new(),
    }
}

#[test]
fn register_roles_map_to_indices() {
    assert_eq!(arch_reg_to_index(ArchReg::Badge), 0);
    assert_eq!(arch_reg_to_index(ArchReg::MsgInfo), 1);
    assert_eq!(arch_reg_to_index(ArchReg::Msg(3)), 5);
    assert_eq!(arch_reg_to_index(ArchReg::FaultIP), 34);
    assert_eq!(arch_reg_to_index(ArchReg::NextIP), 32);
    assert_eq!(arch_reg_to_index(ArchReg::FaultMessage(0, 7)), 7);
    assert_eq!(arch_reg_to_index(ArchReg::FaultMessage(0, 8)), 34);
    assert_eq!(arch_reg_to_index(ArchReg::FaultMessage(0, 11)), 33);
    assert_eq!(arch_reg_to_index(ArchReg::FaultMessage(1, 1)), 31);
}

#[test]
fn set_register_then_get() {
    let mut a = ArchTCB::default();
    a.set_register(ArchReg::TlsBase, 99);
    assert_eq!(a.get_register(ArchReg::TlsBase), 99);
    assert_eq!(a.registers[35], 99);
    assert_eq!(a.get_register(ArchReg::Badge), 0);
}

#[test]
fn set_mr_uses_registers_then_buffer() {
    let mut t = thread(frame(3, 0));
    assert_eq!(t.set_mr(0, 11), 1);
    assert_eq!(t.tcbArch.registers[2], 11);
    assert_eq!(t.set_mr(3, 14), 4);
    assert_eq!(t.tcbArch.registers[5], 14);
    assert_eq!(t.set_mr(4, 15), 5);
    assert_eq!(t.ipcBuffer.msg[4], 15);
}

#[test]
fn set_mr_without_writable_buffer_stops() {
    let mut t = thread(frame(2, 0));
    assert_eq!(t.set_mr(7, 15), 4);
    assert_eq!(t.ipcBuffer.msg[7], 0);
    let mut u = thread(cap::null_cap);
    assert_eq!(u.set_mr(5, 1), 4);
}

#[test]
fn ipc_buffer_access_rules() {
    let rw = thread(frame(3, 0));
    assert!(rw.ipc_buffer_usable(true));
    assert_eq!(rw.lookup_mut_ipc_buffer(true), Some(0x1000));
    assert_eq!(rw.lookup_ipc_buffer(false), Some(0x1000));
    let ro = thread(frame(2, 0));
    assert!(!ro.ipc_buffer_usable(true));
    assert_eq!(ro.lookup_mut_ipc_buffer(true), None);
    assert_eq!(ro.lookup_mut_ipc_buffer(false), Some(0x1000));
    let dev = thread(frame(3, 1));
    assert_eq!(dev.lookup_mut_ipc_buffer(true), None);
    assert_eq!(dev.lookup_ipc_buffer(true), None);
    assert!(!dev.ipc_buffer_usable(false));
}

#[test]
fn lookup_fault_messages() {
    let mut t = thread(frame(3, 0));
    let r = t.set_lookup_fault_mrs(3, &lookup_fault::guard_mismatch { guardFound: 9, bitsLeft: 8, bitsFound: 7 });
    assert_eq!(r, 7);
    assert_eq!(t.tcbArch.registers[5], 4);
    assert_eq!(t.ipcBuffer.msg[4], 8);
    assert_eq!(t.ipcBuffer.msg[5], 9);
    assert_eq!(t.ipcBuffer.msg[6], 7);

    let mut u = thread(frame(3, 0));
    let r = u.set_lookup_fault_mrs(1, &lookup_fault::missing_capability { bitsLeft: 12 });
    assert_eq!(r, 3);
    assert_eq!(u.tcbArch.registers[3], 2);
    assert_eq!(u.tcbArch.registers[4], 12);

    let mut v = thread(frame(3, 0));
    assert_eq!(v.set_lookup_fault_mrs(1, &lookup_fault::invalid_root), 2);
    assert_eq!(v.tcbArch.registers[3], 1);
}

#[test]
fn cap_fault_message() {
    let mut sender = thread(cap::null_cap);
    sender.tcbArch.registers[34] = 0x400;
    sender.tcbFault = seL4_Fault::seL4_Fault_CapFault { address: 0x77, inReceivePhase: 1 };
    sender.tcbLookupFailure = lookup_fault::depth_mismatch { bitsFound: 3, bitsLeft: 5 };
    let mut handler = thread(frame(3, 0));
    let r = sender.set_fault_mrs(&mut handler);
    assert_eq!(r, 6);
    assert_eq!(&handler.tcbArch.registers[2..6], &[0x400, 0x77, 1, 3]);
    assert_eq!(handler.ipcBuffer.msg[4], 5);
    assert_eq!(handler.ipcBuffer.msg[5], 3);
}

#[test]
fn vm_fault_message() {
    let mut sender = thread(cap::null_cap);
    sender.tcbArch.registers[34] = 0x500;
    sender.tcbFault = seL4_Fault::seL4_Fault_VMFault { address: 0xdead, FSR: 0x92, instructionFault: 0 };
    let mut handler = thread(cap::null_cap);
    let r = sender.set_fault_mrs(&mut handler);
    assert_eq!(r, 4);
    assert_eq!(&handler.tcbArch.registers[2..6], &[0x500, 0xdead, 0, 0x92]);
}

#[test]
fn user_exception_message() {
    let mut sender = thread(cap::null_cap);
    sender.tcbArch.registers[34] = 1;
    sender.tcbArch.registers[31] = 2;
    sender.tcbArch.registers[33] = 3;
    sender.tcbFault = seL4_Fault::seL4_Fault_UserException { number: 4, code: 5 };
    let mut handler = thread(frame(3, 0));
    let r = sender.set_fault_mrs(&mut handler);
    assert_eq!(r, 5);
    assert_eq!(&handler.tcbArch.registers[2..6], &[1, 2, 3, 4]);
    assert_eq!(handler.ipcBuffer.msg[4], 5);
}

#[test]
fn unknown_syscall_message_needs_buffer_for_tail() {
    let mut sender = thread(cap::null_cap);
    for i in 0..8 {
        sender.tcbArch.registers[i] = 100 + i;
    }
    sender.tcbArch.registers[34] = 108;
    sender.tcbArch.registers[31] = 109;
    sender.tcbArch.registers[32] = 110;
    sender.tcbArch.registers[33] = 111;
    sender.tcbFault = seL4_Fault::seL4_Fault_UnknownSyscall { syscallNumber: 42 };
    let mut handler = thread(frame(3, 0));
    let r = sender.set_fault_mrs(&mut handler);
    assert_eq!(r, 13);
    assert_eq!(&handler.tcbArch.registers[2..6], &[100, 101, 102, 103]);
    assert_eq!(&handler.ipcBuffer.msg[4..13], &[104, 105, 106, 107, 108, 109, 110, 111, 42]);

    let mut no_buffer = thread(cap::null_cap);
    let r = sender.set_fault_mrs(&mut no_buffer);
    assert_eq!(r, 4);
    assert_eq!(&no_buffer.tcbArch.registers[2..6], &[100, 101, 102, 103]);
    assert_eq!(no_buffer.ipcBuffer.msg[4], 0);
}

#[test]
fn fault_reply_copies_back_into_fault_registers() {
    let mut replier = thread(frame(3, 0));
    replier.tcbArch.registers[2] = 10;
    replier.tcbArch.registers[3] = 11;
    replier.tcbArch.registers[4] = 12;
    let mut faulter = thread(cap::null_cap);
    replier.copy_fault_mrs_for_reply(&mut faulter, 1, 3);
    assert_eq!(faulter.tcbArch.registers[34], 10);
    assert_eq!(faulter.tcbArch.registers[31], 11);
    assert_eq!(faulter.tcbArch.registers[33], 12);
}

#[test]
fn fault_reply_reads_buffer_only_if_readable() {
    let mut replier = thread(frame(2, 0));
    for i in 0..4 {
        replier.tcbArch.registers[2 + i] = 20 + i;
    }
    for i in 4..12 {
        replier.ipcBuffer.msg[i] = 30 + i;
    }
    let mut faulter = thread(cap::null_cap);
    replier.copy_fault_mrs_for_reply(&mut faulter, 0, 12);
    assert_eq!(&faulter.tcbArch.registers[0..8], &[20, 21, 22, 23, 34, 35, 36, 37]);
    assert_eq!(faulter.tcbArch.registers[34], 38);
    assert_eq!(faulter.tcbArch.registers[33], 41);

    let mut device = thread(frame(3, 1));
    device.tcbArch.registers[2] = 1;
    device.ipcBuffer.msg[4] = 99;
    let mut other = thread(cap::null_cap);
    device.copy_fault_mrs_for_reply(&mut other, 0, 12);
    assert_eq!(other.tcbArch.registers[0], 1);
    assert_eq!(other.tcbArch.registers[4], 0);
}

#[test]
fn state_queries() {
    let mut t = thread(cap::null_cap);
    assert!(t.is_runnable());
    assert!(!t.is_stopped());
    t.tcbState.tsType = ThreadState::ThreadStateBlockedOnReply;
    assert!(t.is_stopped());
    assert!(!t.is_runnable());
    t.tcbState.tsType = ThreadState::ThreadStateIdleThreadState;
    assert!(!t.is_stopped());
    assert_eq!(t.get_state(), ThreadState::ThreadStateIdleThreadState);
}

#[test]
fn setters() {
    let mut t = thread(cap::null_cap);
    t.set_mcp_priority(7);
    assert_eq!(t.tcbMCP, 7);
    t.bind_notification(0x300);
    assert_eq!(t.tcbBoundNotification, 0x300);
    t.unbind_notification();
    assert_eq!(t.tcbBoundNotification, 0);
    assert_eq!(t.get_cpu(), 0);
    t.tcbArch.registers[5] = 4;
    t.init();
    assert_eq!(t.tcbArch.registers[5], 0);
}

#[test]
fn reply_master_only_fills_empty_slot() {
    let mut t = thread(cap::null_cap);
    t.setup_reply_master(9);
    assert_eq!(t.cspace[2].capability, cap::reply_cap { capReplyCanGrant: 1, capReplyMaster: 1, capTCBPtr: 9 });
    assert_eq!(t.cspace[2].cteMDBNode, mdb_node_t::new(0, 1, 1, 0));
    t.setup_reply_master(10);
    assert_eq!(t.cspace[2].capability, cap::reply_cap { capReplyCanGrant: 1, capReplyMaster: 1, capTCBPtr: 9 });
}

#[test]
fn copy_mrs_copies_registers_and_buffer() {
    let mut sender = thread(frame(2, 0));
    for i in 0..4 {
        sender.tcbArch.registers[2 + i] = 50 + i;
    }
    sender.ipcBuffer.msg[4] = 60;
    sender.ipcBuffer.msg[5] = 61;
    let mut receiver = thread(frame(3, 0));
    assert_eq!(sender.copy_mrs(&mut receiver, 6), 6);
    assert_eq!(&receiver.tcbArch.registers[2..6], &[50, 51, 52, 53]);
    assert_eq!(&receiver.ipcBuffer.msg[4..6], &[60, 61]);

    let mut blocked = thread(frame(2, 0));
    assert_eq!(sender.copy_mrs(&mut blocked, 6), 4);
    assert_eq!(blocked.ipcBuffer.msg[4], 0);
    assert_eq!(sender.copy_mrs(&mut blocked, 2), 2);
}

#[test]
fn fast_path_checks_and_copy() {
    use_fastpath();
}

fn use_fastpath() {
    assert!(!rel4_kernel::fastpath::fastpath_mi_check(4));
    assert!(rel4_kernel::fastpath::fastpath_mi_check(5));
    // one extra capability makes the nine-bit field exceed 4
    assert!(rel4_kernel::fastpath::fastpath_mi_check(1 << 7));
    // the label above the nine bits does not count
    assert!(!rel4_kernel::fastpath::fastpath_mi_check((7 << 12) | 2));
    let pt = cap::page_table_cap { capPTMappedASID: 1, capPTBasePtr: 0x2000, capPTIsMapped: 1, capPTMappedAddress: 0 };
    assert!(rel4_kernel::fastpath::isValidVTableRoot_fp(&pt));
    assert!(!rel4_kernel::fastpath::isValidVTableRoot_fp(&cap::null_cap));
    let mut src = thread(cap::null_cap);
    for i in 0..37 {
        src.tcbArch.registers[i] = 1000 + i;
    }
    let mut dest = thread(cap::null_cap);
    rel4_kernel::fastpath::fastpath_copy_mrs(3, &src, &mut dest);
    assert_eq!(&dest.tcbArch.registers[0..6], &[0, 0, 1002, 1003, 1004, 0]);
}

#[test]
fn fault_transfer_sets_label_length_and_badge() {
    let mut sender = thread(cap::null_cap);
    sender.tcbArch.registers[34] = 0x500;
    sender.tcbFault = seL4_Fault::seL4_Fault_VMFault { address: 0xdead, FSR: 0x92, instructionFault: 1 };
    let mut handler = thread(cap::null_cap);
    sender.do_fault_transfer(&mut handler, 77);
    assert_eq!(&handler.tcbArch.registers[2..6], &[0x500, 0xdead, 1, 0x92]);
    assert_eq!(handler.tcbArch.registers[1], (5 << 12) | 4);
    assert_eq!(handler.tcbArch.registers[0], 77);
}

#[test]
fn fault_reply_restarts_only_on_label_zero() {
    let mut replier = thread(cap::null_cap);
    replier.tcbArch.registers[1] = 3;
    replier.tcbArch.registers[2] = 9;
    replier.tcbArch.registers[3] = 8;
    replier.tcbArch.registers[4] = 7;
    let mut faulter = thread(cap::null_cap);
    faulter.tcbFault = seL4_Fault::seL4_Fault_UserException { number: 1, code: 2 };
    assert!(replier.do_fault_reply_transfer(&mut faulter));
    assert_eq!(faulter.tcbArch.registers[34], 9);
    assert_eq!(faulter.tcbArch.registers[31], 8);
    assert_eq!(faulter.tcbArch.registers[33], 7);

    replier.tcbArch.registers[1] = (1 << 12) | 1;
    replier.tcbArch.registers[2] = 5;
    assert!(!replier.do_fault_reply_transfer(&mut faulter));
    assert_eq!(faulter.tcbArch.registers[34], 5);
    assert_eq!(faulter.tcbArch.registers[31], 8);

    let mut vm = thread(cap::null_cap);
    vm.tcbFault = seL4_Fault::seL4_Fault_VMFault { address: 0, FSR: 0, instructionFault: 0 };
    assert!(replier.do_fault_reply_transfer(&mut vm));
    assert_eq!(vm.tcbArch.registers[34], 0);
}

#[test]
fn complete_signal_takes_pending_signal() {

    let mut t = thread(cap::null_cap);
    let n = notification_t {
        state: NtfnState_Active,
        ntfnQueue_head: 0,
        ntfnQueue_tail: 0,
        ntfnMsgIdentifier: 0x55,
        ntfnBoundTCB: 0,
        ntfnSchedContext: 0,
    };
    let mut ntfns = vec![n, n];
    assert!(!t.complete_signal(&mut ntfns));
    t.tcbBoundNotification = 1;
    assert!(t.complete_signal(&mut ntfns));
    assert_eq!(t.tcbArch.registers[0], 0x55);
    assert_eq!(ntfns[1].state, NtfnState_Idle);
    assert!(!t.complete_signal(&mut ntfns));
}

fn slot(c: cap) -> cte_t {
    cte_t { capability: c, cteMDBNode: mdb_node_t::new(0, 0, 0, 0) }
}

fn cnode(radix: u64, guard_size: u64, guard: u64, ptr: u64) -> cap {
    cap::cnode_cap { capCNodeRadix: radix, capCNodeGuardSize: guard_size, capCNodeGuard: guard, capCNodePtr: ptr }
}

#[test]
fn fast_lookup_walks_cnodes() {
    let mut slots = vec![slot(cap::null_cap); 8];
    slots[1] = slot(cap::thread_cap { capTCBPtr: 5 });
    slots[2] = slot(cnode(2, 60, 0, 4));
    slots[7] = slot(cap::domain_cap);
    let root = cnode(2, 0, 0, 0);
    // One level: the top two bits pick slot 1.
    assert_eq!(lookup_fp(&slots, &root, 1usize << 62), cap::thread_cap { capTCBPtr: 5 });
    // Two levels: slot 2 holds a CNode whose guard of zeros is followed by two bits picking slot 7.
    assert_eq!(lookup_fp(&slots, &root, (2usize << 62) | 3), cap::domain_cap);
    // A set bit where the second CNode's guard wants zeros.
    assert_eq!(lookup_fp(&slots, &root, (2usize << 62) | 4), cap::null_cap);
    // Not a CNode capability.
    assert_eq!(lookup_fp(&slots, &cap::domain_cap, 0), cap::null_cap);
}

#[test]
fn fast_lookup_refuses_too_many_bits() {
    let mut slots = vec![slot(cap::null_cap); 6];
    slots[0] = slot(cnode(63, 0, 0, 4));
    slots[4] = slot(cap::domain_cap);
    let root = cnode(2, 0, 0, 0);
    assert_eq!(lookup_fp(&slots, &root, 0), cap::null_cap);
    // A guard that does not match the top bits.
    let guarded = cnode(2, 4, 3, 4);
    assert_eq!(lookup_fp(&slots, &guarded, 0), cap::null_cap);
    assert_eq!(lookup_fp(&slots, &guarded, 3usize << 60), cap::domain_cap);
}

#[test]
fn unknown_syscall_fault_with_number() {
    use_process3();
}

fn use_process3() {
    let mut sender = thread(cap::null_cap);
    for i in 0..8 {
        sender.tcbArch.registers[i] = 200 + i;
    }
    sender.tcbFault = seL4_Fault::seL4_Fault_UnknownSyscall { syscallNumber: 7 };
    let mut handler = thread(frame(3, 0));
    let r = rel4_kernel::transfer::process3(&sender, &mut handler, 0);
    assert_eq!(r, 13);
    assert_eq!(&handler.tcbArch.registers[2..6], &[200, 201, 202, 203]);
    assert_eq!(handler.ipcBuffer.msg[12], 7);
    let mut no_buffer = thread(cap::null_cap);
    let r = rel4_kernel::transfer::process3(&sender, &mut no_buffer, 0);
    assert_eq!(r, 4);
    assert_eq!(no_buffer.ipcBuffer.msg[12], 0);
}

#[test]
fn ipc_buffer_address() {
    let mut t = thread(frame(3, 0));
    t.tcbIPCBuffer = 0x40_0123;
    assert_eq!(t.lookup_ipc_buffer(true), Some(0x1123));
    let mut ro = thread(frame(2, 0));
    ro.tcbIPCBuffer = 0x40_0040;
    assert_eq!(ro.lookup_ipc_buffer(true), None);
    assert_eq!(ro.lookup_ipc_buffer(false), Some(0x1040));
    assert_eq!(thread(frame(3, 1)).lookup_ipc_buffer(false), None);
}

fn found(slot: usize) -> lookupSlot_ret_t {
    lookupSlot_ret_t { status: exception_t::EXCEPTION_NONE, slot }
}

fn not_found() -> lookupSlot_ret_t {
    lookupSlot_ret_t { status: exception_t::EXCEPTION_LOOKUP_FAULT, slot: 0 }
}

#[test]
fn extra_caps_are_looked_up_in_order() {
    let mut t = thread(frame(3, 0));
    t.tcbArch.set_register(ArchReg::MsgInfo, 2 << 7);
    let mut buf = seL4_IPCBuffer::new();
    buf.caps_or_badges = vec![11, 22, 33];
    let slots = vec![found(0x100), found(0x200), found(0x300)];
    let mut res = vec![7, 7, 7];
    assert_eq!(t.lookup_extra_caps_with_buf(&mut res, Some(&buf), &slots), Ok(()));
    assert_eq!(res, vec![0x100, 0x200, 0]);

    let failing = vec![found(0x100), not_found(), found(0x300)];
    let mut res = vec![7, 7, 7];
    assert_eq!(
        t.lookup_extra_caps_with_buf(&mut res, Some(&buf), &failing),
        Err(seL4_Fault::seL4_Fault_CapFault { address: 22, inReceivePhase: 0 })
    );
    assert_eq!(res, vec![0x100, 7, 7]);

    let mut res = vec![7, 7, 7];
    assert_eq!(t.lookup_extra_caps_with_buf(&mut res, None, &failing), Ok(()));
    assert_eq!(res, vec![7, 7, 7]);
}

#[test]
fn extra_caps_of_own_buffer_need_a_readable_buffer() {
    let mut t = thread(frame(3, 0));
    t.tcbArch.set_register(ArchReg::MsgInfo, 3 << 7);
    t.ipcBuffer.caps_or_badges = vec![4, 5, 6];
    let slots = vec![found(1), found(2), not_found()];
    let mut res = vec![9, 9, 9];
    assert_eq!(
        t.lookup_extra_caps(&mut res, &slots),
        Err(seL4_Fault::seL4_Fault_CapFault { address: 6, inReceivePhase: 0 })
    );
    assert_eq!(res, vec![1, 2, 9]);

    let mut no_buffer = thread(cap::null_cap);
    no_buffer.tcbArch.set_register(ArchReg::MsgInfo, 3 << 7);
    let mut res = vec![9, 9, 9];
    assert_eq!(no_buffer.lookup_extra_caps(&mut res, &slots), Ok(()));
    assert_eq!(res, vec![9, 9, 9]);
}

#[test]
fn extra_caps_failure_records_the_fault() {
    let mut t = thread(frame(3, 0));
    t.tcbArch.set_register(ArchReg::MsgInfo, 1 << 7);
    let mut buf = seL4_IPCBuffer::new();
    buf.caps_or_badges = vec![42, 0, 0];
    let mut fault = seL4_Fault::seL4_Fault_NullFault;
    let mut res = vec![0, 0, 0];
    let r = lookup_extra_caps_with_buf(&t, &mut res, Some(&buf), &vec![not_found(), found(1), found(2)], &mut fault);
    assert_eq!(r, exception_t::EXCEPTION_LOOKUP_FAULT);
    assert_eq!(fault, seL4_Fault::seL4_Fault_CapFault { address: 42, inReceivePhase: 0 });
    let mut fault = seL4_Fault::seL4_Fault_NullFault;
    let r = lookup_extra_caps_with_buf(&t, &mut res, Some(&buf), &vec![found(5), not_found(), found(2)], &mut fault);
    assert_eq!(r, exception_t::EXCEPTION_NONE);
    assert_eq!(fault, seL4_Fault::seL4_Fault_NullFault);
    assert_eq!(res, vec![5, 0, 0]);
}

#[test]
fn unusable_buffer_needs_no_page_arithmetic() {
    let odd = cap::frame_cap {
        capFMappedASID: 1,
        capFBasePtr: u64::MAX,
        capFSize: 7,
        capFMappedAddress: 0,
        capFVMRights: 3,
        capFIsDevice: 1,
    };
    let t = thread(odd);
    assert_eq!(t.lookup_ipc_buffer(false), None);
    assert_eq!(t.lookup_mut_ipc_buffer(true), None);
}
