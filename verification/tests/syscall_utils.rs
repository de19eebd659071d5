use rel4_kernel::cap::{cap, cte_t, mdb_node_t};
use rel4_kernel::config::{
    seL4_AlignmentError, seL4_DeleteFirst, seL4_FailedLookup, seL4_IllegalOperation, seL4_RangeError,
};
use rel4_kernel::fault::{lookup_fault, seL4_Fault, thread_state_t, ThreadState};
use rel4_kernel::notification::notification_t;
use rel4_kernel::structures::exception_t;
use rel4_kernel::syscall_utils::{
    alignUp, check_ipc_buffer_vaild, check_prio, do_bind_notification, do_unbind_notification,
    ensure_empty_slot, lookupSlotForCNodeOp, lookup_slot_for_cnode_op, resolveAddressBits_ret_t,
    safe_unbind_notification, syscall_error_t, FREE_INDEX_TO_OFFSET, GET_FREE_INDEX, GET_FREE_REF,
    GET_OFFSET_FREE_PTR, OFFSET_TO_FREE_IDNEX,
};
use rel4_kernel::tcb::{seL4_IPCBuffer, tcb_t, ArchTCB};

fn no_error() -> syscall_error_t {
    syscall_error_t {
        invalidArgumentNumber: 0,
        invalidCapNumber: 0,
        rangeErrorMin: 0,
        rangeErrorMax: 0,
        memoryLeft: 0,
        failedLookupWasSource: 0,
        _type: 0,
    }
}

fn thread(mcp: usize) -> tcb_t {
    let mut cspace = Vec::new();
    for _ in 0..5 {
        cspace.push(cte_t { capability: cap::null_cap, cteMDBNode: mdb_node_t::new(0, 0, 0, 0) });
    }
    tcb_t {
        tcbArch: ArchTCB::default(),
        tcbState: thread_state_t {
            tsType: ThreadState::ThreadStateRunning,
            tcbQueued: 0,
            blockingObject: 0,
            replyObject: 0,
        },
        tcbBoundNotification: 0,
        tcbFault: seL4_Fault::seL4_Fault_NullFault,
        tcbLookupFailure: lookup_fault::invalid_root,
        domain: 0,
        tcbMCP: mcp,
        tcbPriority: 10,
        tcbTimeSlice: 5,
        tcbFaultHandler: 0,
        tcbIPCBuffer: 0,
        tcbSchedNext: 0,
        tcbSchedPrev: 0,
        tcbEPNext: 0,
        tcbEPPrev: 0,
        cspace,
        ipcBuffer: seL4_IPCBuffer::new(),
    }
}

fn notification() -> notification_t {
    notification_t {
        state: 0,
        ntfnQueue_head: 0,
        ntfnQueue_tail: 0,
        ntfnMsgIdentifier: 0,
        ntfnBoundTCB: 0,
        ntfnSchedContext: 0,
    }
}

fn cnode() -> cap {
    cap::cnode_cap { capCNodeRadix: 8, capCNodeGuardSize: 0, capCNodeGuard: 0, capCNodePtr: 0x4000 }
}

#[test]
fn align_up_rounds_to_power_of_two() {
    assert_eq!(alignUp(5, 3), 8);
    assert_eq!(alignUp(8, 3), 8);
    assert_eq!(alignUp(0, 12), 0);
    assert_eq!(alignUp(0x1001, 12), 0x2000);
    assert_eq!(alignUp(7, 0), 7);
}

#[test]
fn free_index_arithmetic() {
    assert_eq!(FREE_INDEX_TO_OFFSET(3), 48);
    assert_eq!(GET_FREE_REF(0x1000, 3), 0x1030);
    assert_eq!(GET_FREE_INDEX(0x1000, 0x1030), 3);
    assert_eq!(GET_FREE_INDEX(0x1000, GET_FREE_REF(0x1000, 77)), 77);
    assert_eq!(GET_OFFSET_FREE_PTR(0x1000, 0x20), 0x1020);
    assert_eq!(OFFSET_TO_FREE_IDNEX(0x35), 3);
    assert_eq!(OFFSET_TO_FREE_IDNEX(FREE_INDEX_TO_OFFSET(9)), 9);
}

#[test]
fn priority_checked_against_mcp() {
    let t = thread(100);
    let mut err = no_error();
    assert_eq!(check_prio(100, &t, &mut err), exception_t::EXCEPTION_NONE);
    assert_eq!(err, no_error());
    assert_eq!(check_prio(101, &t, &mut err), exception_t::EXCEPTION_SYSCALL_ERROR);
    assert_eq!(err._type, seL4_RangeError);
    assert_eq!(err.rangeErrorMin, 0);
    assert_eq!(err.rangeErrorMax, 100);
}

#[test]
fn ipc_buffer_checks() {
    let frame = |device: u64| cap::frame_cap {
        capFMappedASID: 1,
        capFBasePtr: 0x1000,
        capFSize: 0,
        capFMappedAddress: 0,
        capFVMRights: 3,
        capFIsDevice: device,
    };
    let mut err = no_error();
    assert_eq!(check_ipc_buffer_vaild(0x400, &frame(0), &mut err), exception_t::EXCEPTION_NONE);
    assert_eq!(err, no_error());
    assert_eq!(check_ipc_buffer_vaild(0x410, &frame(0), &mut err), exception_t::EXCEPTION_SYSCALL_ERROR);
    assert_eq!(err._type, seL4_AlignmentError);
    let mut err = no_error();
    assert_eq!(check_ipc_buffer_vaild(0x400, &frame(1), &mut err), exception_t::EXCEPTION_SYSCALL_ERROR);
    assert_eq!(err._type, seL4_IllegalOperation);
    let mut err = no_error();
    assert_eq!(check_ipc_buffer_vaild(0x400, &cnode(), &mut err), exception_t::EXCEPTION_SYSCALL_ERROR);
    assert_eq!(err._type, seL4_IllegalOperation);
}

#[test]
fn empty_slot_check() {
    let mut err = no_error();
    let empty = cte_t { capability: cap::null_cap, cteMDBNode: mdb_node_t::new(0, 0, 0, 0) };
    assert_eq!(ensure_empty_slot(&empty, &mut err), exception_t::EXCEPTION_NONE);
    let full = cte_t { capability: cap::domain_cap, cteMDBNode: mdb_node_t::new(0, 0, 0, 0) };
    assert_eq!(ensure_empty_slot(&full, &mut err), exception_t::EXCEPTION_SYSCALL_ERROR);
    assert_eq!(err._type, seL4_DeleteFirst);
}

#[test]
fn cnode_slot_lookup_outcomes() {
    let ok = resolveAddressBits_ret_t { status: exception_t::EXCEPTION_NONE, slot: 0x4020, bitsRemaining: 0 };
    let mut err = no_error();
    let mut lf = lookup_fault::invalid_root;
    let r = lookup_slot_for_cnode_op(true, &cnode(), 8, ok, &mut err, &mut lf);
    assert_eq!(r.status, exception_t::EXCEPTION_NONE);
    assert_eq!(r.slot, 0x4020);
    assert_eq!(err, no_error());

    let mut lf = lookup_fault::missing_capability { bitsLeft: 1 };
    let r = lookup_slot_for_cnode_op(true, &cap::null_cap, 8, ok, &mut err, &mut lf);
    assert_eq!(r.status, exception_t::EXCEPTION_SYSCALL_ERROR);
    assert_eq!(err._type, seL4_FailedLookup);
    assert_eq!(err.failedLookupWasSource, 1);
    assert_eq!(lf, lookup_fault::invalid_root);

    let mut err = no_error();
    let r = lookup_slot_for_cnode_op(false, &cnode(), 65, ok, &mut err, &mut lf);
    assert_eq!(r.status, exception_t::EXCEPTION_SYSCALL_ERROR);
    assert_eq!(err._type, seL4_RangeError);
    assert_eq!(err.rangeErrorMin, 1);
    assert_eq!(err.rangeErrorMax, 64);
    let r = lookup_slot_for_cnode_op(false, &cnode(), 0, ok, &mut err, &mut lf);
    assert_eq!(r.status, exception_t::EXCEPTION_SYSCALL_ERROR);

    let failed = resolveAddressBits_ret_t { status: exception_t::EXCEPTION_LOOKUP_FAULT, slot: 0, bitsRemaining: 0 };
    let mut err = no_error();
    let r = lookup_slot_for_cnode_op(false, &cnode(), 8, failed, &mut err, &mut lf);
    assert_eq!(r.status, exception_t::EXCEPTION_SYSCALL_ERROR);
    assert_eq!(err._type, seL4_FailedLookup);
    assert_eq!(err.failedLookupWasSource, 0);

    let short = resolveAddressBits_ret_t { status: exception_t::EXCEPTION_NONE, slot: 0x4020, bitsRemaining: 3 };
    let r = lookupSlotForCNodeOp(false, &cnode(), 8, short, &mut err, &mut lf);
    assert_eq!(r.status, exception_t::EXCEPTION_SYSCALL_ERROR);
    assert_eq!(r.slot, 0);
    assert_eq!(lf, lookup_fault::depth_mismatch { bitsFound: 0, bitsLeft: 3 });
}

#[test]
fn notification_binding() {
    let mut t = thread(0);
    let mut n = notification();
    do_bind_notification(&mut t, 5, &mut n, 2);
    assert_eq!(t.tcbBoundNotification, 2);
    assert_eq!(n.ntfnBoundTCB, 5);
    do_unbind_notification(&mut t, &mut n);
    assert_eq!(t.tcbBoundNotification, 0);
    assert_eq!(n.ntfnBoundTCB, 0);
}

#[test]
fn safe_unbind_follows_the_binding() {
    let mut t = thread(0);
    let mut ntfns = vec![notification(), notification(), notification()];
    do_bind_notification(&mut t, 5, &mut ntfns[2], 2);
    safe_unbind_notification(&mut t, &mut ntfns);
    assert_eq!(t.tcbBoundNotification, 0);
    assert_eq!(ntfns[2].ntfnBoundTCB, 0);
    // an unbound thread is left alone
    ntfns[1].ntfnBoundTCB = 9;
    safe_unbind_notification(&mut t, &mut ntfns);
    assert_eq!(ntfns[1].ntfnBoundTCB, 9);
}
