use rel4_kernel::message_info::MessageLabel;
use rel4_kernel::sched_context::{cap_sched_context_cap, refill, sched_context};
use rel4_kernel::invocation::{decode_irq_control_invocation, IrqControlOutcome, decode_set_ipc_buffer, decode_set_space, decode_tcb_configure, decode_write_registers, decode_copy_registers, decode_sched_control_invocation, SchedControlOutcome, decode_sched_context_invocation, decodeSchedContext_UnbindObject, SchedContextOutcome, decode_invocation, decode_irq_handler_invocation, decode_tcb_invocation, InvocationOutcome, IrqHandlerOutcome};
use rel4_kernel::fastpath::{endpoint_t, fastpath_call_check, fastpath_reply_recv_check, EPState_Idle, EPState_Recv, EPState_Send};
use rel4_kernel::syscall::{syscall_handler_of, handleSyscall, schedule_after_syscall, slowpath, SyscallHandler, SysCall, SysNBRecv, SysNBSend, SysReply, SysReplyRecv, SysYield};
use rel4_kernel::utils::convert_to_option_type_ref;
use rel4_kernel::cap::{cap, cte_t, deriveCap_ret, mdb_node_t};
use rel4_kernel::config::{
    seL4_AlignmentError, seL4_DeleteFirst, seL4_FailedLookup, seL4_RevokeFirst, seL4_IllegalOperation, seL4_InvalidCapability, seL4_RangeError, seL4_TruncatedMessage,
    CONFIG_TIME_SLICE,
};
use rel4_kernel::fault::{lookup_fault, seL4_Fault, thread_state_t, ThreadState};
use rel4_kernel::invocation::{
    decode_bind_notification, decode_set_mc_priority, decode_set_priority, decode_set_sched_params,
    decode_set_tls_base, decode_unbind_notification,
};
use rel4_kernel::notification::notification_t;
use rel4_kernel::scheduler::{
    dschedule_t, init_core_state, ready_queues_index, setMCPriority, setPriority, set_current_scheduler_action, tcbSchedAppend,
    tcbSchedDequeue, KernelState, SmpStateData, SchedulerAction_ChooseNewThread,
    SchedulerAction_ResumeCurrentThread,
};
use rel4_kernel::structures::exception_t;
use rel4_kernel::syscall_utils::{getSyscallArg, resolveAddressBits_ret_t, syscall_error_t};
use rel4_kernel::tcb::{seL4_IPCBuffer, tcb_t, ArchTCB, TPIDR_EL0};
use rel4_kernel::tcb_queue::tcb_queue_t;

fn thread(prio: usize, state: ThreadState) -> tcb_t {
    let mut cspace = Vec::new();
    for _ in 0..5 {
        cspace.push(cte_t { capability: cap::null_cap, cteMDBNode: mdb_node_t::new(0, 0, 0, 0) });
    }
    tcb_t {
        tcbArch: ArchTCB::default(),
        tcbState: thread_state_t { tsType: state, tcbQueued: 0, blockingObject: 0, replyObject: 0 },
        tcbBoundNotification: 0,
        tcbFault: seL4_Fault::seL4_Fault_NullFault,
        tcbLookupFailure: lookup_fault::invalid_root,
        domain: 0,
        tcbMCP: 255,
        tcbPriority: prio,
        tcbTimeSlice: CONFIG_TIME_SLICE,
        tcbFaultHandler: 0,
        tcbIPCBuffer: 0,
        tcbSchedNext: 0,
        tcbSchedPrev: 0,
        tcbEPNext: 0,
        tcbEPPrev: 0,
        cspace,
        ipcBuffer: seL4_IPCBuffer::new(),
    }
}

/// Threads 2 (idle) and 3 (current, running, priority 10) and 4 (running, priority 20).
fn two_threads() -> KernelState {
    let tcbs = vec![
        thread(0, ThreadState::ThreadStateInactive),
        thread(0, ThreadState::ThreadStateInactive),
        thread(0, ThreadState::ThreadStateIdleThreadState),
        thread(10, ThreadState::ThreadStateRunning),
        thread(20, ThreadState::ThreadStateRunning),
    ];
    let mut queues = Vec::new();
    for _ in 0..256 {
        queues.push(tcb_queue_t::new());
    }
    KernelState {
        tcbs,
        node: SmpStateData {
            ipiReschedulePending: 0,
            ksReadyQueues: queues,
            ksReadyQueuesL1Bitmap: vec![0],
            ksReadyQueuesL2Bitmap: vec![0, 0, 0, 0],
            ksCurThread: 3,
            ksIdleThread: 2,
            ksSchedulerAction: SchedulerAction_ResumeCurrentThread,
            ksDebugTCBs: 0,
        },
        ksCurDomain: 0,
        ksDomainTime: 100,
        ksDomScheduleIdx: 0,
        ksWorkUnitsCompleted: 0,
        ksDomSchedule: vec![dschedule_t { domain: 0, length: 100 }],
    }
}

fn clean_error() -> syscall_error_t {
    syscall_error_t {
        invalidArgumentNumber: 0,
        invalidCapNumber: 0,
        rangeErrorMin: 7,
        rangeErrorMax: 7,
        memoryLeft: 0,
        failedLookupWasSource: 0,
        _type: 0,
    }
}

fn idle_notification() -> notification_t {
    notification_t {
        state: 0,
        ntfnQueue_head: 0,
        ntfnQueue_tail: 0,
        ntfnMsgIdentifier: 0,
        ntfnBoundTCB: 0,
        ntfnSchedContext: 0,
    }
}

#[test]
fn set_priority_invocation_errors() {
    let buffer = seL4_IPCBuffer::new();
    let mut ks = two_threads();
    let target = cap::thread_cap { capTCBPtr: 4 };
    let auth = Some(cap::thread_cap { capTCBPtr: 3 });
    let mut err = clean_error();
    let r = decode_set_priority(&mut ks, &target, 0, &buffer, auth, &mut err);
    assert_eq!(r, exception_t::EXCEPTION_SYSCALL_ERROR);
    assert_eq!(err._type, seL4_TruncatedMessage);
    let r = decode_set_priority(&mut ks, &target, 1, &buffer, None, &mut err);
    assert_eq!(r, exception_t::EXCEPTION_SYSCALL_ERROR);
    assert_eq!(err._type, seL4_TruncatedMessage);
    let r = decode_set_priority(&mut ks, &target, 1, &buffer, Some(cap::domain_cap), &mut err);
    assert_eq!(r, exception_t::EXCEPTION_SYSCALL_ERROR);
    assert_eq!(err._type, seL4_InvalidCapability);
    assert_eq!(err.invalidCapNumber, 1);
    ks.tcbs[3].tcbMCP = 5;
    ks.tcbs[3].tcbArch.registers[2] = 6;
    let r = decode_set_priority(&mut ks, &target, 1, &buffer, auth, &mut err);
    assert_eq!(r, exception_t::EXCEPTION_SYSCALL_ERROR);
    assert_eq!(err._type, seL4_RangeError);
    assert_eq!(err.rangeErrorMin, 0);
    assert_eq!(err.rangeErrorMax, 5);
    assert_eq!(ks.tcbs[4].tcbPriority, 20);
    assert_eq!(ks.tcbs[3].tcbState.tsType, ThreadState::ThreadStateRunning);
}

#[test]
fn set_priority_invocation_moves_thread() {
    let buffer = seL4_IPCBuffer::new();
    let mut ks = two_threads();
    tcbSchedAppend(&mut ks, 4);
    assert_eq!(ks.node.ksReadyQueues[ready_queues_index(0, 20)].head, 4);
    ks.tcbs[3].tcbArch.registers[2] = 30;
    let mut err = clean_error();
    let r = decode_set_priority(
        &mut ks,
        &cap::thread_cap { capTCBPtr: 4 },
        1,
        &buffer,
        Some(cap::thread_cap { capTCBPtr: 3 }),
        &mut err,
    );
    assert_eq!(r, exception_t::EXCEPTION_NONE);
    assert_eq!(err, clean_error());
    assert_eq!(ks.tcbs[4].tcbPriority, 30);
    assert_eq!(ks.tcbs[3].tcbState.tsType, ThreadState::ThreadStateRestart);
    assert_eq!(ks.node.ksReadyQueues[ready_queues_index(0, 20)].head, 0);
    assert_eq!(ks.node.ksSchedulerAction, 4);
}

#[test]
fn set_mc_priority_invocation() {
    let buffer = seL4_IPCBuffer::new();
    let mut ks = two_threads();
    ks.tcbs[3].tcbMCP = 50;
    ks.tcbs[3].tcbArch.registers[2] = 51;
    let target = cap::thread_cap { capTCBPtr: 4 };
    let auth = Some(cap::thread_cap { capTCBPtr: 3 });
    let mut err = clean_error();
    let r = decode_set_mc_priority(&mut ks, &target, 1, &buffer, auth, &mut err);
    assert_eq!(r, exception_t::EXCEPTION_SYSCALL_ERROR);
    assert_eq!(err._type, seL4_RangeError);
    assert_eq!(err.rangeErrorMax, 50);
    assert_eq!(ks.tcbs[4].tcbMCP, 255);
    ks.tcbs[3].tcbArch.registers[2] = 40;
    let mut err = clean_error();
    let r = decode_set_mc_priority(&mut ks, &target, 1, &buffer, auth, &mut err);
    assert_eq!(r, exception_t::EXCEPTION_NONE);
    assert_eq!(err, clean_error());
    assert_eq!(ks.tcbs[4].tcbMCP, 40);
    assert_eq!(ks.tcbs[4].tcbPriority, 20);
    assert_eq!(ks.tcbs[3].tcbState.tsType, ThreadState::ThreadStateRestart);
}

#[test]
fn sched_params_invocation_refused_as_truncated() {
    let buffer = seL4_IPCBuffer::new();
    let mut ks = two_threads();
    let target = cap::thread_cap { capTCBPtr: 4 };
    let mut err = clean_error();
    let r = decode_set_sched_params(&mut ks, &target, 1, &buffer, None, &mut err);
    assert_eq!(r, exception_t::EXCEPTION_SYSCALL_ERROR);
    assert_eq!(err._type, seL4_TruncatedMessage);
    let mut err = clean_error();
    let r = decode_set_sched_params(&mut ks, &target, 2, &buffer, Some(cap::thread_cap { capTCBPtr: 3 }), &mut err);
    assert_eq!(r, exception_t::EXCEPTION_SYSCALL_ERROR);
    assert_eq!(err._type, seL4_TruncatedMessage);
    assert_eq!(ks.tcbs[4].tcbPriority, 20);
    assert_eq!(ks.tcbs[3].tcbState.tsType, ThreadState::ThreadStateRunning);
}

#[test]
fn tls_base_invocation() {
    let buffer = seL4_IPCBuffer::new();
    let mut ks = two_threads();
    let mut err = clean_error();
    let r = decode_set_tls_base(&mut ks, &cap::thread_cap { capTCBPtr: 4 }, 0, &buffer, &mut err);
    assert_eq!(r, exception_t::EXCEPTION_SYSCALL_ERROR);
    assert_eq!(err._type, seL4_TruncatedMessage);
    ks.tcbs[3].tcbArch.registers[2] = 0x1234;
    let mut err = clean_error();
    let r = decode_set_tls_base(&mut ks, &cap::thread_cap { capTCBPtr: 4 }, 1, &buffer, &mut err);
    assert_eq!(r, exception_t::EXCEPTION_NONE);
    assert_eq!(ks.tcbs[4].tcbArch.registers[TPIDR_EL0], 0x1234);
    assert_eq!(ks.node.ksSchedulerAction, SchedulerAction_ResumeCurrentThread);
    let r = decode_set_tls_base(&mut ks, &cap::thread_cap { capTCBPtr: 3 }, 1, &buffer, &mut err);
    assert_eq!(r, exception_t::EXCEPTION_NONE);
    assert_eq!(ks.tcbs[3].tcbArch.registers[TPIDR_EL0], 0x1234);
    assert_eq!(ks.node.ksSchedulerAction, SchedulerAction_ChooseNewThread);
}

#[test]
fn bind_notification_invocation() {
    let mut ks = two_threads();
    let mut ntfns = vec![idle_notification(), idle_notification(), idle_notification()];
    let target = cap::thread_cap { capTCBPtr: 4 };
    let ntfn = |ptr: u64, recv: u64| Some(cap::notification_cap {
        capNtfnBadge: 0,
        capNtfnCanReceive: recv,
        capNtfnCanSend: 1,
        capNtfnPtr: ptr,
    });
    let mut err = clean_error();
    let r = decode_bind_notification(&mut ks, &mut ntfns, &target, None, &mut err);
    assert_eq!(r, exception_t::EXCEPTION_SYSCALL_ERROR);
    assert_eq!(err._type, seL4_TruncatedMessage);
    let r = decode_bind_notification(&mut ks, &mut ntfns, &target, Some(cap::domain_cap), &mut err);
    assert_eq!(r, exception_t::EXCEPTION_SYSCALL_ERROR);
    assert_eq!(err._type, seL4_IllegalOperation);
    let mut err = clean_error();
    let r = decode_bind_notification(&mut ks, &mut ntfns, &target, ntfn(1, 0), &mut err);
    assert_eq!(r, exception_t::EXCEPTION_SYSCALL_ERROR);
    assert_eq!(err._type, seL4_IllegalOperation);
    ntfns[2].ntfnQueue_head = 3;
    let mut err = clean_error();
    let r = decode_bind_notification(&mut ks, &mut ntfns, &target, ntfn(2, 1), &mut err);
    assert_eq!(r, exception_t::EXCEPTION_SYSCALL_ERROR);
    assert_eq!(err._type, seL4_IllegalOperation);
    assert_eq!(ks.tcbs[4].tcbBoundNotification, 0);
    let mut err = clean_error();
    let r = decode_bind_notification(&mut ks, &mut ntfns, &target, ntfn(1, 1), &mut err);
    assert_eq!(r, exception_t::EXCEPTION_NONE);
    assert_eq!(err, clean_error());
    assert_eq!(ks.tcbs[4].tcbBoundNotification, 1);
    assert_eq!(ntfns[1].ntfnBoundTCB, 4);
    assert_eq!(ks.tcbs[3].tcbState.tsType, ThreadState::ThreadStateRestart);
    let mut err = clean_error();
    let r = decode_bind_notification(&mut ks, &mut ntfns, &target, ntfn(1, 1), &mut err);
    assert_eq!(r, exception_t::EXCEPTION_SYSCALL_ERROR);
    assert_eq!(err._type, seL4_IllegalOperation);
}

#[test]
fn unbind_notification_invocation() {
    let mut ks = two_threads();
    let mut ntfns = vec![idle_notification(), idle_notification()];
    let target = cap::thread_cap { capTCBPtr: 4 };
    let mut err = clean_error();
    let r = decode_unbind_notification(&mut ks, &mut ntfns, &target, &mut err);
    assert_eq!(r, exception_t::EXCEPTION_SYSCALL_ERROR);
    assert_eq!(err._type, seL4_IllegalOperation);
    ks.tcbs[4].tcbBoundNotification = 1;
    ntfns[1].ntfnBoundTCB = 4;
    let mut err = clean_error();
    let r = decode_unbind_notification(&mut ks, &mut ntfns, &target, &mut err);
    assert_eq!(r, exception_t::EXCEPTION_NONE);
    assert_eq!(ks.tcbs[4].tcbBoundNotification, 0);
    assert_eq!(ntfns[1].ntfnBoundTCB, 0);
    assert_eq!(ks.tcbs[3].tcbState.tsType, ThreadState::ThreadStateRestart);
}

#[test]
fn scheduler_entry_points() {
    let mut ks = two_threads();
    tcbSchedAppend(&mut ks, 4);
    assert_eq!(ks.node.ksReadyQueues[ready_queues_index(0, 20)].head, 4);
    tcbSchedDequeue(&mut ks, 4);
    assert_eq!(ks.node.ksReadyQueues[ready_queues_index(0, 20)].head, 0);
    setPriority(&mut ks, 4, 33);
    assert_eq!(ks.tcbs[4].tcbPriority, 33);
    setMCPriority(&mut ks, 4, 77);
    assert_eq!(ks.tcbs[4].tcbMCP, 77);
    set_current_scheduler_action(&mut ks, SchedulerAction_ChooseNewThread);
    assert_eq!(ks.node.ksSchedulerAction, SchedulerAction_ChooseNewThread);
}

#[test]
fn syscall_arguments_from_registers_and_buffer() {
    let mut ks = two_threads();
    ks.tcbs[3].tcbArch.registers[2] = 11;
    ks.tcbs[3].tcbArch.registers[3] = 12;
    let mut buffer = seL4_IPCBuffer::new();
    buffer.msg[4] = 44;
    assert_eq!(getSyscallArg(&ks, 0, None), 11);
    assert_eq!(getSyscallArg(&ks, 1, Some(&buffer)), 12);
    assert_eq!(getSyscallArg(&ks, 4, Some(&buffer)), 44);
}

#[test]
fn capability_slots_of_a_thread() {
    let mut t = thread(1, ThreadState::ThreadStateRunning);
    assert_eq!(t.get_cspace(2).capability, cap::null_cap);
    t.get_cspace_mut_ref(2).capability = cap::domain_cap;
    assert_eq!(t.get_cspace(2).capability, cap::domain_cap);
    assert_eq!(t.get_cspace(1).capability, cap::null_cap);
}

#[test]
fn null_pointer_gives_no_object() {
    let objs = vec![10u64, 20, 30];
    assert_eq!(convert_to_option_type_ref(&objs, 0), None);
    assert_eq!(convert_to_option_type_ref(&objs, 2), Some(&30));
}

#[test]
fn core_state_starts_idle() {
    let mut ks = two_threads();
    init_core_state(&mut ks, SchedulerAction_ChooseNewThread);
    assert_eq!(ks.node.ksCurThread, 2);
    assert_eq!(ks.node.ksSchedulerAction, SchedulerAction_ChooseNewThread);
}

#[test]
fn system_call_dispatch_and_scheduling() {
    assert_eq!(syscall_handler_of(SysCall as usize), SyscallHandler::Invocation { isCall: true, isBlocking: true });
    assert_eq!(syscall_handler_of(SysNBSend as usize), SyscallHandler::Invocation { isCall: false, isBlocking: false });
    assert_eq!(syscall_handler_of(SysNBRecv as usize), SyscallHandler::Recv { isBlocking: false });
    assert_eq!(syscall_handler_of(SysReplyRecv as usize), SyscallHandler::ReplyRecv);
    assert_eq!(syscall_handler_of(SysReply as usize), SyscallHandler::Reply);
    assert_eq!(syscall_handler_of(SysYield as usize), SyscallHandler::Yield);

    // Nothing pending: the call ends with the same thread running.
    let mut ks = two_threads();
    assert_eq!(handleSyscall(&mut ks, SysCall as usize), exception_t::EXCEPTION_NONE);
    assert_eq!(ks.node.ksCurThread, 3);
    assert_eq!(ks.node.ksSchedulerAction, SchedulerAction_ResumeCurrentThread);
    assert_eq!(slowpath(&mut ks, 3), None);

    // A pending new choice is carried out at the end of any call.
    tcbSchedAppend(&mut ks, 4);
    ks.node.ksSchedulerAction = SchedulerAction_ChooseNewThread;
    assert_eq!(slowpath(&mut ks, SysReply as usize), Some(exception_t::EXCEPTION_NONE));
    assert_eq!(ks.node.ksCurThread, 4);
    assert_eq!(ks.node.ksSchedulerAction, SchedulerAction_ResumeCurrentThread);
    assert_eq!(ks.node.ksReadyQueues[ready_queues_index(0, 10)].head, 3);

    // A yield puts the caller back in its queue and chooses again.
    let mut ks = two_threads();
    tcbSchedAppend(&mut ks, 4);
    assert_eq!(slowpath(&mut ks, SysYield as usize), Some(exception_t::EXCEPTION_NONE));
    assert_eq!(ks.node.ksCurThread, 4);
    assert_eq!(ks.node.ksSchedulerAction, SchedulerAction_ResumeCurrentThread);
    assert_eq!(ks.node.ksReadyQueues[ready_queues_index(0, 10)].head, 3);
    assert_eq!(schedule_after_syscall(&mut ks), exception_t::EXCEPTION_NONE);
    assert_eq!(ks.node.ksCurThread, 4);
}

fn fast_path_setup() -> (KernelState, Vec<cte_t>) {
    let mut ks = two_threads();
    ks.tcbs[3].cspace[0].capability =
        cap::cnode_cap { capCNodeRadix: 2, capCNodeGuardSize: 0, capCNodeGuard: 0, capCNodePtr: 0 };
    ks.tcbs[3].cspace[3].capability = cap::reply_cap { capReplyCanGrant: 1, capReplyMaster: 0, capTCBPtr: 4 };
    ks.tcbs[4].cspace[1].capability =
        cap::page_table_cap { capPTMappedASID: 1, capPTBasePtr: 0x8000, capPTIsMapped: 1, capPTMappedAddress: 0 };
    let mut slots = Vec::new();
    for _ in 0..4 {
        slots.push(cte_t { capability: cap::null_cap, cteMDBNode: mdb_node_t::new(0, 0, 0, 0) });
    }
    slots[1].capability = cap::endpoint_cap {
        capEPBadge: 0,
        capCanGrantReply: 0,
        capCanGrant: 1,
        capCanSend: 1,
        capCanReceive: 1,
        capEPPtr: 0,
    };
    (ks, slots)
}

#[test]
fn fast_call_checks() {
    let (ks, mut slots) = fast_path_setup();
    let mut eps = vec![endpoint_t { state: EPState_Recv, epQueue_head: 4, epQueue_tail: 4 }];
    assert!(fastpath_call_check(&ks, &slots, &eps, 1usize << 62, 2));
    assert!(!fastpath_call_check(&ks, &slots, &eps, 1usize << 62, 5));
    assert!(!fastpath_call_check(&ks, &slots, &eps, 2usize << 62, 2));
    eps[0].state = EPState_Idle;
    assert!(!fastpath_call_check(&ks, &slots, &eps, 1usize << 62, 2));
    eps[0].state = EPState_Recv;
    slots[1].capability = cap::endpoint_cap {
        capEPBadge: 0,
        capCanGrantReply: 0,
        capCanGrant: 0,
        capCanSend: 1,
        capCanReceive: 1,
        capEPPtr: 0,
    };
    assert!(!fastpath_call_check(&ks, &slots, &eps, 1usize << 62, 2));
}

#[test]
fn fast_reply_recv_checks() {
    let (mut ks, slots) = fast_path_setup();
    let ntfns = vec![idle_notification()];
    let mut eps = vec![endpoint_t { state: EPState_Idle, epQueue_head: 0, epQueue_tail: 0 }];
    assert!(fastpath_reply_recv_check(&ks, &slots, &ntfns, &eps, 1usize << 62, 0));
    eps[0].state = EPState_Send;
    assert!(!fastpath_reply_recv_check(&ks, &slots, &ntfns, &eps, 1usize << 62, 0));
    eps[0].state = EPState_Recv;
    assert!(fastpath_reply_recv_check(&ks, &slots, &ntfns, &eps, 1usize << 62, 0));
    ks.tcbs[3].cspace[3].capability = cap::null_cap;
    assert!(!fastpath_reply_recv_check(&ks, &slots, &ntfns, &eps, 1usize << 62, 0));
}

#[test]
fn invocation_dispatch() {
    let buffer = seL4_IPCBuffer::new();
    let mut ks = two_threads();
    let mut ntfns = vec![idle_notification(), idle_notification()];
    let mut err = clean_error();
    let r = decode_invocation(&mut ks, &mut ntfns, MessageLabel::TCBSuspend, 0, &cap::null_cap, true, false, &buffer, None, &vec![false], no_lookup(), cap::null_cap, &mut err, &mut lookup_fault::invalid_root);
    assert_eq!(r, InvocationOutcome::Decided(exception_t::EXCEPTION_SYSCALL_ERROR));
    assert_eq!(err._type, seL4_InvalidCapability);
    assert_eq!(err.invalidCapNumber, 0);
    let read_only = cap::endpoint_cap { capEPBadge: 5, capCanGrantReply: 0, capCanGrant: 1, capCanSend: 0, capCanReceive: 1, capEPPtr: 9 };
    let mut err = clean_error();
    let r = decode_invocation(&mut ks, &mut ntfns, MessageLabel::TCBSuspend, 0, &read_only, true, false, &buffer, None, &vec![false], no_lookup(), cap::null_cap, &mut err, &mut lookup_fault::invalid_root);
    assert_eq!(r, InvocationOutcome::Decided(exception_t::EXCEPTION_SYSCALL_ERROR));
    assert_eq!(err._type, seL4_InvalidCapability);
    assert_eq!(ks.tcbs[3].tcbState.tsType, ThreadState::ThreadStateRunning);
    let ep = cap::endpoint_cap { capEPBadge: 5, capCanGrantReply: 0, capCanGrant: 1, capCanSend: 1, capCanReceive: 1, capEPPtr: 9 };
    let mut err = clean_error();
    let r = decode_invocation(&mut ks, &mut ntfns, MessageLabel::TCBSuspend, 0, &ep, true, true, &buffer, None, &vec![false], no_lookup(), cap::null_cap, &mut err, &mut lookup_fault::invalid_root);
    assert_eq!(r, InvocationOutcome::SendIPC { ep: 9, block: true, call: true, canGrant: true, badge: 5, canGrantReply: false });
    assert_eq!(ks.tcbs[3].tcbState.tsType, ThreadState::ThreadStateRestart);
    let reply = cap::reply_cap { capReplyCanGrant: 1, capReplyMaster: 0, capTCBPtr: 4 };
    let r = decode_invocation(&mut ks, &mut ntfns, MessageLabel::TCBSuspend, 0, &reply, true, false, &buffer, None, &vec![false], no_lookup(), cap::null_cap, &mut err, &mut lookup_fault::invalid_root);
    assert_eq!(r, InvocationOutcome::Reply { tcb: 4, canGrant: true });
    let r = decode_invocation(&mut ks, &mut ntfns, MessageLabel::CNodeCopy, 0, &cap::irq_control_cap, true, false, &buffer, None, &vec![false], no_lookup(), cap::null_cap, &mut err, &mut lookup_fault::invalid_root);
    assert_eq!(r, InvocationOutcome::IrqControl(IrqControlOutcome::Decided(exception_t::EXCEPTION_SYSCALL_ERROR)));
    assert_eq!(err._type, seL4_IllegalOperation);
    let untyped = cap::untyped_cap { capFreeIndex: 0, capIsDevice: 0, capBlockSize: 12, capPtr: 0x4000 };
    let r = decode_invocation(&mut ks, &mut ntfns, MessageLabel::CNodeCopy, 0, &untyped, true, false, &buffer, None, &vec![false], no_lookup(), cap::null_cap, &mut err, &mut lookup_fault::invalid_root);
    assert_eq!(r, InvocationOutcome::Elsewhere);
}

#[test]
fn thread_invocation_dispatch() {
    let buffer = seL4_IPCBuffer::new();
    let mut ks = two_threads();
    let mut ntfns = vec![idle_notification(), idle_notification()];
    let target = cap::thread_cap { capTCBPtr: 4 };
    let mut err = clean_error();
    let r = decode_invocation(&mut ks, &mut ntfns, MessageLabel::TCBReadRegisters, 0, &target, true, false, &buffer, None, &vec![false], no_lookup(), cap::null_cap, &mut err, &mut lookup_fault::invalid_root);
    assert_eq!(r, InvocationOutcome::Elsewhere);
    let r = decode_invocation(&mut ks, &mut ntfns, MessageLabel::TCBSuspend, 0, &target, true, false, &buffer, None, &vec![false], no_lookup(), cap::null_cap, &mut err, &mut lookup_fault::invalid_root);
    assert_eq!(r, InvocationOutcome::Suspend { tcb: 4 });
    assert_eq!(ks.tcbs[3].tcbState.tsType, ThreadState::ThreadStateRestart);
    let r = decode_tcb_invocation(&mut ks, &mut ntfns, MessageLabel::TCBResume, 0, &target, &buffer, None, &mut err);
    assert_eq!(r, InvocationOutcome::Resume { tcb: 4 });
    let mut ks = two_threads();
    let r = decode_tcb_invocation(&mut ks, &mut ntfns, MessageLabel::CNodeCopy, 0, &target, &buffer, None, &mut err);
    assert_eq!(r, InvocationOutcome::Decided(exception_t::EXCEPTION_SYSCALL_ERROR));
    assert_eq!(err._type, seL4_IllegalOperation);
    ks.tcbs[3].tcbArch.registers[2] = 0x77;
    let mut err = clean_error();
    let r = decode_invocation(&mut ks, &mut ntfns, MessageLabel::TCBSetTLSBase, 1, &target, true, false, &buffer, None, &vec![false], no_lookup(), cap::null_cap, &mut err, &mut lookup_fault::invalid_root);
    assert_eq!(r, InvocationOutcome::Decided(exception_t::EXCEPTION_NONE));
    assert_eq!(ks.tcbs[4].tcbArch.registers[TPIDR_EL0], 0x77);
}

#[test]
fn riscv_vtable_root() {
    use_vtable_root();
}

fn use_vtable_root() {
    let mapped = cap::page_table_cap { capPTMappedASID: 1, capPTBasePtr: 0x8000, capPTIsMapped: 1, capPTMappedAddress: 0 };
    let unmapped = cap::page_table_cap { capPTMappedASID: 1, capPTBasePtr: 0x8000, capPTIsMapped: 0, capPTMappedAddress: 0 };
    assert!(rel4_kernel::syscall_utils::is_valid_vtable_root(&mapped));
    assert!(!rel4_kernel::syscall_utils::is_valid_vtable_root(&unmapped));
    assert!(!rel4_kernel::syscall_utils::is_valid_vtable_root(&cap::null_cap));
}

#[test]
fn irq_handler_invocation() {
    let mut ks = two_threads();
    let mut err = clean_error();
    let r = decode_irq_handler_invocation(&mut ks, MessageLabel::IRQSetIRQHandler, 7, None, &mut err);
    assert_eq!(r, IrqHandlerOutcome::Decided(exception_t::EXCEPTION_SYSCALL_ERROR));
    assert_eq!(err._type, seL4_TruncatedMessage);
    let silent = cap::notification_cap { capNtfnBadge: 1, capNtfnCanReceive: 1, capNtfnCanSend: 0, capNtfnPtr: 1 };
    let mut err = clean_error();
    let r = decode_irq_handler_invocation(&mut ks, MessageLabel::IRQSetIRQHandler, 7, Some(silent), &mut err);
    assert_eq!(r, IrqHandlerOutcome::Decided(exception_t::EXCEPTION_SYSCALL_ERROR));
    assert_eq!(err._type, seL4_InvalidCapability);
    assert_eq!(ks.tcbs[3].tcbState.tsType, ThreadState::ThreadStateRunning);
    let loud = cap::notification_cap { capNtfnBadge: 1, capNtfnCanReceive: 1, capNtfnCanSend: 1, capNtfnPtr: 1 };
    let r = decode_irq_handler_invocation(&mut ks, MessageLabel::IRQSetIRQHandler, 7, Some(loud), &mut err);
    assert_eq!(r, IrqHandlerOutcome::SetHandler { irq: 7, ntfn: loud });
    assert_eq!(ks.tcbs[3].tcbState.tsType, ThreadState::ThreadStateRestart);
    let r = decode_irq_handler_invocation(&mut ks, MessageLabel::IRQClearIRQHandler, 7, None, &mut err);
    assert_eq!(r, IrqHandlerOutcome::ClearHandler { irq: 7 });
    let r = decode_irq_handler_invocation(&mut ks, MessageLabel::IRQAckIRQ, 7, None, &mut err);
    assert_eq!(r, IrqHandlerOutcome::Decided(exception_t::EXCEPTION_NONE));
    let mut err = clean_error();
    let r = decode_irq_handler_invocation(&mut ks, MessageLabel::CNodeCopy, 7, None, &mut err);
    assert_eq!(r, IrqHandlerOutcome::Decided(exception_t::EXCEPTION_SYSCALL_ERROR));
    assert_eq!(err._type, seL4_IllegalOperation);
}

#[test]
fn sched_control_configure_decoding() {
    let sc = cap_sched_context_cap { capSCPtr: 0x8000, capSCSizeBits: 8 };
    let mut buffer = seL4_IPCBuffer::new();
    buffer.msg[4] = 1;
    let mut ks = two_threads();
    let mut err = clean_error();
    let label = MessageLabel::SchedControlConfigureFlags;

    let r = decode_sched_control_invocation(&mut ks, MessageLabel::TCBSuspend, 5, 0, &buffer, Some(Some(sc)), &mut err);
    assert_eq!(r, SchedControlOutcome::Decided(exception_t::EXCEPTION_NONE));
    assert_eq!(err._type, seL4_IllegalOperation);

    let r = decode_sched_control_invocation(&mut ks, label, 5, 0, &buffer, None, &mut err);
    assert_eq!(r, SchedControlOutcome::Decided(exception_t::EXCEPTION_SYSCALL_ERROR));
    assert_eq!(err._type, seL4_TruncatedMessage);
    let mut err = clean_error();
    let r = decode_sched_control_invocation(&mut ks, label, 4, 0, &buffer, Some(Some(sc)), &mut err);
    assert_eq!(r, SchedControlOutcome::Decided(exception_t::EXCEPTION_SYSCALL_ERROR));
    assert_eq!(err._type, seL4_TruncatedMessage);

    let r = decode_sched_control_invocation(&mut ks, label, 5, 0, &buffer, Some(None), &mut err);
    assert_eq!(r, SchedControlOutcome::Decided(exception_t::EXCEPTION_SYSCALL_ERROR));
    assert_eq!((err._type, err.invalidCapNumber), (seL4_InvalidCapability, 1));

    // A budget of 10 us is shorter than the smallest budget.
    ks.tcbs[3].tcbArch.registers[2] = 10;
    ks.tcbs[3].tcbArch.registers[3] = 2000;
    let r = decode_sched_control_invocation(&mut ks, label, 5, 0, &buffer, Some(Some(sc)), &mut err);
    assert_eq!(r, SchedControlOutcome::Decided(exception_t::EXCEPTION_SYSCALL_ERROR));
    assert_eq!((err._type, err.rangeErrorMin, err.rangeErrorMax), (seL4_RangeError, 20, 36893488147419));

    // The budget may not exceed the period.
    ks.tcbs[3].tcbArch.registers[2] = 3000;
    let r = decode_sched_control_invocation(&mut ks, label, 5, 0, &buffer, Some(Some(sc)), &mut err);
    assert_eq!(r, SchedControlOutcome::Decided(exception_t::EXCEPTION_SYSCALL_ERROR));
    assert_eq!((err._type, err.rangeErrorMin, err.rangeErrorMax), (seL4_RangeError, 20, 2000));

    // A context of 2^8 bytes holds 10 refills: at most 8 extra ones.
    ks.tcbs[3].tcbArch.registers[2] = 1000;
    ks.tcbs[3].tcbArch.registers[4] = 9;
    let r = decode_sched_control_invocation(&mut ks, label, 5, 0, &buffer, Some(Some(sc)), &mut err);
    assert_eq!(r, SchedControlOutcome::Decided(exception_t::EXCEPTION_SYSCALL_ERROR));
    assert_eq!((err._type, err.rangeErrorMin, err.rangeErrorMax), (seL4_RangeError, 0, 8));

    ks.tcbs[3].tcbArch.registers[4] = 3;
    ks.tcbs[3].tcbArch.registers[5] = 77;
    let mut err = clean_error();
    let r = decode_sched_control_invocation(&mut ks, label, 5, 1, &buffer, Some(Some(sc)), &mut err);
    assert_eq!(
        r,
        SchedControlOutcome::ConfigureFlags {
            sc: 0x8000,
            core: 1,
            budget: 62500,
            period: 125000,
            max_refills: 5,
            badge: 77,
            flags: 1,
        }
    );
    assert_eq!(err, clean_error());
    assert_eq!(ks.tcbs[3].tcbState.tsType, ThreadState::ThreadStateRestart);
}

fn bound_context(tcb: usize, ntfn: usize) -> sched_context {
    sched_context {
        scPeriod: 0,
        scConsumed: 0,
        scCore: 0,
        scTcb: tcb,
        scReply: 0,
        scNotification: ntfn,
        scBadge: 0,
        scYieldFrom: 0,
        scRefillMax: 0,
        scRefillHead: 0,
        scRefillTail: 0,
        scSporadic: false,
        refills: vec![refill { rTime: 0, rAmount: 0 }; 4],
    }
}

#[test]
fn sched_context_invocation_decoding() {
    let ntfn = cap::notification_cap { capNtfnBadge: 0, capNtfnCanReceive: 1, capNtfnCanSend: 1, capNtfnPtr: 0x90 };

    // The context of the current thread cannot be unbound.
    let mut ks = two_threads();
    let mut err = clean_error();
    let own = bound_context(3, 0);
    let r = decode_sched_context_invocation(&mut ks, MessageLabel::SchedContextUnbind, &own, None, &mut err);
    assert_eq!(r, SchedContextOutcome::Decided(exception_t::EXCEPTION_SYSCALL_ERROR));
    assert_eq!(err._type, seL4_IllegalOperation);
    assert_eq!(ks.tcbs[3].tcbState.tsType, ThreadState::ThreadStateRunning);

    let other = bound_context(4, 0x90);
    let mut err = clean_error();
    let r = decode_sched_context_invocation(&mut ks, MessageLabel::SchedContextUnbind, &other, None, &mut err);
    assert_eq!(r, SchedContextOutcome::Unbind);
    assert_eq!(err, clean_error());
    assert_eq!(ks.tcbs[3].tcbState.tsType, ThreadState::ThreadStateRestart);

    let mut ks = two_threads();
    let r = decode_sched_context_invocation(&mut ks, MessageLabel::SchedContextConsumed, &own, None, &mut err);
    assert_eq!(r, SchedContextOutcome::Consumed);
    assert_eq!(ks.tcbs[3].tcbState.tsType, ThreadState::ThreadStateRestart);

    let mut ks = two_threads();
    let r = decode_sched_context_invocation(&mut ks, MessageLabel::SchedContextBind, &own, Some(ntfn), &mut err);
    assert_eq!(r, SchedContextOutcome::Elsewhere);
    let r = decode_sched_context_invocation(&mut ks, MessageLabel::TCBSuspend, &own, None, &mut err);
    assert_eq!(r, SchedContextOutcome::Decided(exception_t::EXCEPTION_SYSCALL_ERROR));
    assert_eq!(err._type, seL4_IllegalOperation);
    assert_eq!(ks.tcbs[3].tcbState.tsType, ThreadState::ThreadStateRunning);
}

#[test]
fn unbind_object_decoding() {
    let ntfn = cap::notification_cap { capNtfnBadge: 0, capNtfnCanReceive: 1, capNtfnCanSend: 1, capNtfnPtr: 0x90 };
    let other = bound_context(4, 0x90);
    let mut ks = two_threads();
    let mut err = clean_error();

    let r = decodeSchedContext_UnbindObject(&mut ks, &other, None, &mut err);
    assert_eq!(r, SchedContextOutcome::Decided(exception_t::EXCEPTION_SYSCALL_ERROR));
    assert_eq!(err._type, seL4_TruncatedMessage);

    let r = decodeSchedContext_UnbindObject(&mut ks, &other, Some(cap::domain_cap), &mut err);
    assert_eq!(r, SchedContextOutcome::Decided(exception_t::EXCEPTION_SYSCALL_ERROR));
    assert_eq!((err._type, err.invalidCapNumber), (seL4_InvalidCapability, 1));

    // Not the bound thread, and the current thread's own context.
    let r = decodeSchedContext_UnbindObject(&mut ks, &other, Some(cap::thread_cap { capTCBPtr: 3 }), &mut err);
    assert_eq!(r, SchedContextOutcome::Decided(exception_t::EXCEPTION_SYSCALL_ERROR));
    assert_eq!(err._type, seL4_IllegalOperation);
    let own = bound_context(3, 0);
    let mut err = clean_error();
    let r = decodeSchedContext_UnbindObject(&mut ks, &own, Some(cap::thread_cap { capTCBPtr: 3 }), &mut err);
    assert_eq!(r, SchedContextOutcome::Decided(exception_t::EXCEPTION_SYSCALL_ERROR));
    assert_eq!(err._type, seL4_IllegalOperation);
    assert_eq!(ks.tcbs[3].tcbState.tsType, ThreadState::ThreadStateRunning);

    let mut err = clean_error();
    let r = decodeSchedContext_UnbindObject(&mut ks, &other, Some(ntfn), &mut err);
    assert_eq!(r, SchedContextOutcome::UnbindObject { object: ntfn });
    assert_eq!(err, clean_error());
    assert_eq!(ks.tcbs[3].tcbState.tsType, ThreadState::ThreadStateRestart);

    let mut ks = two_threads();
    let r = decodeSchedContext_UnbindObject(&mut ks, &other, Some(cap::thread_cap { capTCBPtr: 4 }), &mut err);
    assert_eq!(r, SchedContextOutcome::UnbindObject { object: cap::thread_cap { capTCBPtr: 4 } });
}

#[test]
fn irq_handler_capabilities_are_dispatched() {
    let buffer = seL4_IPCBuffer::new();
    let mut ks = two_threads();
    let mut ntfns = vec![idle_notification(), idle_notification()];
    let mut err = clean_error();
    let h = cap::irq_handler_cap { capIRQ: 7 };
    let r = decode_invocation(&mut ks, &mut ntfns, MessageLabel::IRQClearIRQHandler, 0, &h, true, false, &buffer, None, &vec![false], no_lookup(), cap::null_cap, &mut err, &mut lookup_fault::invalid_root);
    assert_eq!(r, InvocationOutcome::IrqHandler(IrqHandlerOutcome::ClearHandler { irq: 7 }));
    assert_eq!(ks.tcbs[3].tcbState.tsType, ThreadState::ThreadStateRestart);
    let mut ks = two_threads();
    let r = decode_invocation(&mut ks, &mut ntfns, MessageLabel::IRQSetIRQHandler, 0, &h, true, false, &buffer, None, &vec![false], no_lookup(), cap::null_cap, &mut err, &mut lookup_fault::invalid_root);
    assert_eq!(r, InvocationOutcome::IrqHandler(IrqHandlerOutcome::Decided(exception_t::EXCEPTION_SYSCALL_ERROR)));
    assert_eq!(err._type, seL4_TruncatedMessage);
}

#[test]
fn register_invocations_decoding() {
    let buffer = seL4_IPCBuffer::new();
    let mut ntfns = vec![idle_notification(), idle_notification()];
    let target = cap::thread_cap { capTCBPtr: 4 };
    let own = cap::thread_cap { capTCBPtr: 3 };

    let mut ks = two_threads();
    let mut err = clean_error();
    let r = decode_write_registers(&mut ks, &target, 1, &buffer, &mut err);
    assert_eq!(r, InvocationOutcome::Decided(exception_t::EXCEPTION_SYSCALL_ERROR));
    assert_eq!(err._type, seL4_TruncatedMessage);
    // Three words to write, but only two after the flags and the count.
    ks.tcbs[3].tcbArch.registers[2] = 1;
    ks.tcbs[3].tcbArch.registers[3] = 3;
    let r = decode_write_registers(&mut ks, &target, 4, &buffer, &mut err);
    assert_eq!(r, InvocationOutcome::Decided(exception_t::EXCEPTION_SYSCALL_ERROR));
    assert_eq!(err._type, seL4_TruncatedMessage);
    let mut err = clean_error();
    let r = decode_write_registers(&mut ks, &own, 5, &buffer, &mut err);
    assert_eq!(r, InvocationOutcome::Decided(exception_t::EXCEPTION_SYSCALL_ERROR));
    assert_eq!(err._type, seL4_IllegalOperation);
    let mut err = clean_error();
    let r = decode_tcb_invocation(&mut ks, &mut ntfns, MessageLabel::TCBWriteRegisters, 5, &target, &buffer, None, &mut err);
    assert_eq!(r, InvocationOutcome::WriteRegisters { tcb: 4, resumeTarget: true, n: 3 });
    assert_eq!(err, clean_error());
    assert_eq!(ks.tcbs[3].tcbState.tsType, ThreadState::ThreadStateRestart);

    let mut ks = two_threads();
    ks.tcbs[3].tcbArch.registers[2] = 0b1010;
    let r = decode_copy_registers(&mut ks, &target, &buffer, Some(own));
    assert_eq!(r, InvocationOutcome::CopyRegisters { dest: 4, src: 3, flags: 0b1010 });
    assert_eq!(ks.tcbs[3].tcbState.tsType, ThreadState::ThreadStateRunning);
}

fn derived_ok(c: cap) -> deriveCap_ret {
    deriveCap_ret { status: exception_t::EXCEPTION_NONE, capability: c }
}

fn frame_at(device: u64) -> cap {
    cap::frame_cap { capFMappedASID: 1, capFBasePtr: 0x1000, capFSize: 0, capFMappedAddress: 0x40_0000, capFVMRights: 3, capFIsDevice: device }
}

#[test]
fn ipc_buffer_and_space_invocations() {
    let buffer = seL4_IPCBuffer::new();
    let target = cap::thread_cap { capTCBPtr: 4 };
    let croot = derived_ok(cap::cnode_cap { capCNodeRadix: 4, capCNodeGuardSize: 0, capCNodeGuard: 0, capCNodePtr: 0x2000 });
    let vroot = derived_ok(cap::page_table_cap { capPTMappedASID: 1, capPTBasePtr: 0x3000, capPTIsMapped: 1, capPTMappedAddress: 0 });
    let failed = deriveCap_ret { status: exception_t::EXCEPTION_SYSCALL_ERROR, capability: cap::null_cap };

    let mut ks = two_threads();
    let mut err = clean_error();
    let r = decode_set_ipc_buffer(&mut ks, &target, 1, &buffer, None, derived_ok(frame_at(0)), &mut err);
    assert_eq!(r, InvocationOutcome::Decided(exception_t::EXCEPTION_SYSCALL_ERROR));
    assert_eq!(err._type, seL4_TruncatedMessage);
    // A misaligned address, then a device frame.
    ks.tcbs[3].tcbArch.registers[2] = 0x1010;
    let r = decode_set_ipc_buffer(&mut ks, &target, 1, &buffer, Some(frame_at(0)), derived_ok(frame_at(0)), &mut err);
    assert_eq!(r, InvocationOutcome::Decided(exception_t::EXCEPTION_SYSCALL_ERROR));
    assert_eq!(err._type, seL4_AlignmentError);
    ks.tcbs[3].tcbArch.registers[2] = 0x1400;
    let r = decode_set_ipc_buffer(&mut ks, &target, 1, &buffer, Some(frame_at(1)), derived_ok(frame_at(1)), &mut err);
    assert_eq!(err._type, seL4_IllegalOperation);
    assert_eq!(r, InvocationOutcome::Decided(exception_t::EXCEPTION_SYSCALL_ERROR));
    let mut err = clean_error();
    let r = decode_set_ipc_buffer(&mut ks, &target, 1, &buffer, Some(frame_at(0)), derived_ok(frame_at(0)), &mut err);
    assert_eq!(r, InvocationOutcome::SetIPCBuffer { tcb: 4, bufferAddr: 0x1400, bufferCap: frame_at(0) });
    assert_eq!(ks.tcbs[3].tcbState.tsType, ThreadState::ThreadStateRestart);

    let mut ks = two_threads();
    let mut err = clean_error();
    ks.tcbs[3].tcbArch.registers[2] = 9;
    let caps = (Some(croot.capability), Some(vroot.capability));
    let r = decode_set_space(&mut ks, &target, 3, &buffer, caps, croot, vroot, true, &mut err);
    assert_eq!(r, InvocationOutcome::Decided(exception_t::EXCEPTION_SYSCALL_ERROR));
    assert_eq!(err._type, seL4_IllegalOperation);
    let r = decode_set_space(&mut ks, &target, 3, &buffer, caps, vroot, vroot, false, &mut err);
    assert_eq!(r, InvocationOutcome::Decided(exception_t::EXCEPTION_SYSCALL_ERROR));
    let r = decode_set_space(&mut ks, &target, 3, &buffer, caps, croot, failed, false, &mut err);
    assert_eq!(r, InvocationOutcome::Decided(exception_t::EXCEPTION_SYSCALL_ERROR));
    assert_eq!(ks.tcbs[3].tcbState.tsType, ThreadState::ThreadStateRunning);
    let mut err = clean_error();
    let r = decode_set_space(&mut ks, &target, 3, &buffer, caps, croot, vroot, false, &mut err);
    assert_eq!(r, InvocationOutcome::SetSpace { tcb: 4, faultEP: 9, croot: croot.capability, vroot: vroot.capability });
    assert_eq!(err, clean_error());
}

#[test]
fn configure_invocation() {
    let buffer = seL4_IPCBuffer::new();
    let target = cap::thread_cap { capTCBPtr: 4 };
    let croot = derived_ok(cap::cnode_cap { capCNodeRadix: 4, capCNodeGuardSize: 0, capCNodeGuard: 0, capCNodePtr: 0x2000 });
    let vroot = derived_ok(cap::page_table_cap { capPTMappedASID: 1, capPTBasePtr: 0x3000, capPTIsMapped: 1, capPTMappedAddress: 0 });
    let caps = (Some(croot.capability), Some(vroot.capability), Some(frame_at(0)));
    let mut ks = two_threads();
    let mut err = clean_error();
    let r = decode_tcb_configure(&mut ks, &target, 3, &buffer, caps, croot, vroot, derived_ok(frame_at(0)), false, &mut err);
    assert_eq!(r, InvocationOutcome::Decided(exception_t::EXCEPTION_SYSCALL_ERROR));
    assert_eq!(err._type, seL4_TruncatedMessage);
    // No buffer: the frame is not looked at.
    ks.tcbs[3].tcbArch.registers[2] = 7;
    let mut err = clean_error();
    let r = decode_tcb_configure(&mut ks, &target, 4, &buffer, caps, croot, vroot, derived_ok(frame_at(1)), false, &mut err);
    assert_eq!(
        r,
        InvocationOutcome::Configure { tcb: 4, faultEP: 7, croot: croot.capability, vroot: vroot.capability, bufferAddr: 0, bufferCap: cap::null_cap }
    );
    assert_eq!(ks.tcbs[3].tcbState.tsType, ThreadState::ThreadStateRestart);
    // The buffer is checked before the roots.
    let mut ks = two_threads();
    ks.tcbs[3].tcbArch.registers[5] = 0x1004;
    let mut err = clean_error();
    let r = decode_tcb_configure(&mut ks, &target, 4, &buffer, caps, croot, vroot, derived_ok(frame_at(0)), true, &mut err);
    assert_eq!(r, InvocationOutcome::Decided(exception_t::EXCEPTION_SYSCALL_ERROR));
    assert_eq!(err._type, seL4_AlignmentError);
}

fn no_lookup() -> resolveAddressBits_ret_t {
    resolveAddressBits_ret_t { status: exception_t::EXCEPTION_LOOKUP_FAULT, slot: 0, bitsRemaining: 0 }
}

#[test]
fn irq_control_invocation_decoding() {
    let buffer = seL4_IPCBuffer::new();
    let root = cap::cnode_cap { capCNodeRadix: 4, capCNodeGuardSize: 60, capCNodeGuard: 0, capCNodePtr: 0x2000 };
    let found = resolveAddressBits_ret_t { status: exception_t::EXCEPTION_NONE, slot: 0x2040, bitsRemaining: 0 };
    let active = vec![false, true, false];
    let mut ks = two_threads();
    let mut err = clean_error();
    let mut lf = lookup_fault::invalid_root;
    let label = MessageLabel::IRQIssueIRQHandler;

    let r = decode_irq_control_invocation(&mut ks, label, 2, &buffer, Some(root), &active, found, cap::null_cap, &mut err, &mut lf);
    assert_eq!(r, IrqControlOutcome::Decided(exception_t::EXCEPTION_SYSCALL_ERROR));
    assert_eq!(err._type, seL4_TruncatedMessage);
    // Interrupt 5 is beyond the highest one, 2; interrupt 1 already has a handler.
    ks.tcbs[3].tcbArch.registers[2] = 5;
    ks.tcbs[3].tcbArch.registers[4] = 64;
    let r = decode_irq_control_invocation(&mut ks, label, 3, &buffer, Some(root), &active, found, cap::null_cap, &mut err, &mut lf);
    assert_eq!(r, IrqControlOutcome::Decided(exception_t::EXCEPTION_SYSCALL_ERROR));
    assert_eq!((err._type, err.rangeErrorMin, err.rangeErrorMax), (seL4_RangeError, 0, 2));
    ks.tcbs[3].tcbArch.registers[2] = 1;
    let r = decode_irq_control_invocation(&mut ks, label, 3, &buffer, Some(root), &active, found, cap::null_cap, &mut err, &mut lf);
    assert_eq!(r, IrqControlOutcome::Decided(exception_t::EXCEPTION_SYSCALL_ERROR));
    assert_eq!(err._type, seL4_RevokeFirst);
    // A slot that is taken, then a lookup that fails.
    ks.tcbs[3].tcbArch.registers[2] = 2;
    let r = decode_irq_control_invocation(&mut ks, label, 3, &buffer, Some(root), &active, found, cap::domain_cap, &mut err, &mut lf);
    assert_eq!(err._type, seL4_DeleteFirst);
    assert_eq!(r, IrqControlOutcome::Decided(exception_t::EXCEPTION_SYSCALL_ERROR));
    let r = decode_irq_control_invocation(&mut ks, label, 3, &buffer, Some(cap::domain_cap), &active, found, cap::null_cap, &mut err, &mut lf);
    assert_eq!(r, IrqControlOutcome::Decided(exception_t::EXCEPTION_SYSCALL_ERROR));
    assert_eq!((err._type, lf), (seL4_FailedLookup, lookup_fault::invalid_root));
    assert_eq!(ks.tcbs[3].tcbState.tsType, ThreadState::ThreadStateRunning);

    let mut err = clean_error();
    let r = decode_irq_control_invocation(&mut ks, label, 3, &buffer, Some(root), &active, found, cap::null_cap, &mut err, &mut lf);
    assert_eq!(r, IrqControlOutcome::IssueHandler { irq: 2, dest: 0x2040 });
    assert_eq!(err, clean_error());
    assert_eq!(ks.tcbs[3].tcbState.tsType, ThreadState::ThreadStateRestart);

    // With a trigger mode the depth is the fourth word and the slot is not checked.
    let mut ks = two_threads();
    ks.tcbs[3].tcbArch.registers[2] = 2;
    ks.tcbs[3].tcbArch.registers[5] = 64;
    let r = decode_irq_control_invocation(&mut ks, MessageLabel::ARMIRQIssueIRQHandlerTrigger, 4, &buffer, Some(root), &active, found, cap::domain_cap, &mut err, &mut lf);
    assert_eq!(r, IrqControlOutcome::IssueHandler { irq: 2, dest: 0x2040 });
}
