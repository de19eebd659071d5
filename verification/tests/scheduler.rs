use rel4_kernel::cap::{cap, cte_t, mdb_node_t};
use rel4_kernel::config::CONFIG_TIME_SLICE;
use rel4_kernel::fault::{lookup_fault, seL4_Fault, thread_state_t, ThreadState};
use rel4_kernel::config::{seL4_IllegalOperation, seL4_InvalidArgument, seL4_TruncatedMessage};
use rel4_kernel::invocation::{decode_domain_invocation, handle_yield, invoke_page_get_address};
use rel4_kernel::message_info::MessageLabel;
use rel4_kernel::syscall_utils::syscall_error_t;
use rel4_kernel::reply::reply;
use rel4_kernel::sched_context::{refill, sched_context};
use rel4_kernel::scheduler::{
    activateThread, chooseThread, dschedule_t, get_currenct_thread, possible_switch_to,
    ready_queues_index, rescheduleRequired, schedule, set_thread_state, timerTick, KernelState,
    SmpStateData, SchedulerAction_ChooseNewThread, SchedulerAction_ResumeCurrentThread,
};
use rel4_kernel::structures::exception_t;
use rel4_kernel::tcb::{seL4_IPCBuffer, tcb_t, ArchTCB};
use rel4_kernel::tcb_queue::tcb_queue_t;

fn thread(prio: usize, state: ThreadState) -> tcb_t {
    let mut cspace = Vec::new();
    for _ in 0..5 {
        cspace.push(cte_t { capability: cap::null_cap, cteMDBNode: mdb_node_t::new(0, 0, 0, 0) });
    }
    tcb_t {
        tcbArch: ArchTCB::default(),
        tcbState: thread_state_t { tsType: state, tcbQueued: 0, blockingObject: 0, replyObject: 0 },
        tcbBoundNotification: 0,
        tcbFault: seL4_Fault::seL4_Fault_NullFault,
        tcbLookupFailure: lookup_fault::invalid_root,
        domain: 0,
        tcbMCP: 255,
        tcbPriority: prio,
        tcbTimeSlice: CONFIG_TIME_SLICE,
        tcbFaultHandler: 0,
        tcbIPCBuffer: 0,
        tcbSchedNext: 0,
        tcbSchedPrev: 0,
        tcbEPNext: 0,
        tcbEPPrev: 0,
        cspace,
        ipcBuffer: seL4_IPCBuffer::new(),
    }
}

/// Threads 2 (idle, priority 0) and 3 (current, running) plus `extra` running threads of the
/// given priorities, numbered from 4, none queued.
fn kernel(cur_prio: usize, extra: &[usize]) -> KernelState {
    let mut tcbs = vec![
        thread(0, ThreadState::ThreadStateInactive),
        thread(0, ThreadState::ThreadStateInactive),
        thread(0, ThreadState::ThreadStateIdleThreadState),
        thread(cur_prio, ThreadState::ThreadStateRunning),
    ];
    for p in extra {
        tcbs.push(thread(*p, ThreadState::ThreadStateRunning));
    }
    let mut queues = Vec::new();
    for _ in 0..256 {
        queues.push(tcb_queue_t::new());
    }
    KernelState {
        tcbs,
        node: SmpStateData {
            ipiReschedulePending: 0,
            ksReadyQueues: queues,
            ksReadyQueuesL1Bitmap: vec![0],
            ksReadyQueuesL2Bitmap: vec![0, 0, 0, 0],
            ksCurThread: 3,
            ksIdleThread: 2,
            ksSchedulerAction: SchedulerAction_ResumeCurrentThread,
            ksDebugTCBs: 0,
        },
        ksCurDomain: 0,
        ksDomainTime: 100,
        ksDomScheduleIdx: 0,
        ksWorkUnitsCompleted: 0,
        ksDomSchedule: vec![dschedule_t { domain: 0, length: 100 }],
    }
}

fn queue_of(ks: &KernelState, prio: usize) -> Vec<usize> {
    let q = &ks.node.ksReadyQueues[ready_queues_index(0, prio)];
    let mut out = Vec::new();
    let mut t = q.head;
    while t != 0 {
        out.push(t);
        t = ks.tcbs[t].tcbSchedNext;
    }
    out
}

#[test]
fn ready_queue_index_is_domain_major() {
    assert_eq!(ready_queues_index(0, 0), 0);
    assert_eq!(ready_queues_index(0, 255), 255);
}

#[test]
fn enqueue_appends_and_sets_bitmaps() {
    let mut ks = kernel(10, &[10, 10, 200]);
    tcb_t::sched_enqueue(&mut ks, 4);
    tcb_t::sched_enqueue(&mut ks, 5);
    tcb_t::sched_enqueue(&mut ks, 6);
    assert_eq!(queue_of(&ks, 10), vec![4, 5]);
    assert_eq!(queue_of(&ks, 200), vec![6]);
    assert_eq!(ks.tcbs[4].tcbState.tcbQueued, 1);
    // priority 10 is bit 10 of word 0, priority 200 bit 8 of word 3; the first-level bitmap
    // numbers words from the top.
    assert_eq!(ks.node.ksReadyQueuesL2Bitmap[3], 1 << 10);
    assert_eq!(ks.node.ksReadyQueuesL2Bitmap[0], 1 << 8);
    assert_eq!(ks.node.ksReadyQueuesL1Bitmap[0], (1 << 3) | 1);
    // enqueueing a queued thread changes nothing
    tcb_t::sched_enqueue(&mut ks, 4);
    assert_eq!(queue_of(&ks, 10), vec![4, 5]);
}

#[test]
fn enqueue_then_dequeue_restores_queues() {
    let mut ks = kernel(10, &[10, 10]);
    tcb_t::sched_enqueue(&mut ks, 4);
    let before = queue_of(&ks, 10);
    let l1 = ks.node.ksReadyQueuesL1Bitmap.clone();
    let l2 = ks.node.ksReadyQueuesL2Bitmap.clone();
    tcb_t::sched_enqueue(&mut ks, 5);
    tcb_t::sched_dequeue(&mut ks, 5);
    assert_eq!(queue_of(&ks, 10), before);
    assert_eq!(ks.tcbs[5].tcbState.tcbQueued, 0);
    assert_eq!(ks.node.ksReadyQueuesL1Bitmap, l1);
    assert_eq!(ks.node.ksReadyQueuesL2Bitmap, l2);
    tcb_t::sched_dequeue(&mut ks, 4);
    assert_eq!(queue_of(&ks, 10), Vec::<usize>::new());
    assert_eq!(ks.node.ksReadyQueuesL1Bitmap[0], 0);
    assert_eq!(ks.node.ksReadyQueuesL2Bitmap[3], 0);
}

#[test]
fn dequeue_from_the_middle_relinks_neighbours() {
    let mut ks = kernel(10, &[7, 7, 7]);
    tcb_t::sched_enqueue(&mut ks, 4);
    tcb_t::sched_enqueue(&mut ks, 5);
    tcb_t::sched_enqueue(&mut ks, 6);
    tcb_t::sched_dequeue(&mut ks, 5);
    assert_eq!(queue_of(&ks, 7), vec![4, 6]);
    assert_eq!(ks.tcbs[6].tcbSchedPrev, 4);
    assert_eq!(ks.node.ksReadyQueues[7].tail, 6);
}

#[test]
fn choose_thread_takes_head_of_highest_queue() {
    let mut ks = kernel(10, &[5, 50, 50, 20]);
    for t in 4..8 {
        tcb_t::sched_enqueue(&mut ks, t);
    }
    chooseThread(&mut ks);
    assert_eq!(get_currenct_thread(&ks), 5);
    assert_eq!(queue_of(&ks, 50), vec![6]);
    assert_eq!(ks.tcbs[5].tcbState.tcbQueued, 0);
}

#[test]
fn choose_thread_with_empty_queues_runs_idle() {
    let mut ks = kernel(10, &[]);
    chooseThread(&mut ks);
    assert_eq!(get_currenct_thread(&ks), 2);
}

#[test]
fn reschedule_required_queues_the_pending_candidate() {
    let mut ks = kernel(10, &[30]);
    ks.node.ksSchedulerAction = 4;
    rescheduleRequired(&mut ks);
    assert_eq!(ks.node.ksSchedulerAction, SchedulerAction_ChooseNewThread);
    assert_eq!(queue_of(&ks, 30), vec![4]);
}

#[test]
fn possible_switch_to_sets_candidate_when_idle_action() {
    let mut ks = kernel(10, &[30]);
    possible_switch_to(&mut ks, 4);
    assert_eq!(ks.node.ksSchedulerAction, 4);
    assert_eq!(queue_of(&ks, 30), Vec::<usize>::new());
}

#[test]
fn possible_switch_to_with_pending_choice_enqueues() {
    let mut ks = kernel(10, &[30]);
    ks.node.ksSchedulerAction = SchedulerAction_ChooseNewThread;
    possible_switch_to(&mut ks, 4);
    assert_eq!(ks.node.ksSchedulerAction, SchedulerAction_ChooseNewThread);
    assert_eq!(queue_of(&ks, 30), vec![4]);
}

#[test]
fn schedule_switches_to_higher_priority_candidate() {
    let mut ks = kernel(10, &[30]);
    possible_switch_to(&mut ks, 4);
    schedule(&mut ks);
    assert_eq!(get_currenct_thread(&ks), 4);
    assert_eq!(ks.node.ksSchedulerAction, SchedulerAction_ResumeCurrentThread);
    // the previous thread, still running, waits in its ready queue
    assert_eq!(queue_of(&ks, 10), vec![3]);
}

#[test]
fn schedule_keeps_current_when_resuming() {
    let mut ks = kernel(10, &[30]);
    tcb_t::sched_enqueue(&mut ks, 4);
    schedule(&mut ks);
    assert_eq!(get_currenct_thread(&ks), 3);
    assert_eq!(queue_of(&ks, 30), vec![4]);
}

#[test]
fn timer_tick_counts_down_then_requeues() {
    let mut ks = kernel(10, &[]);
    timerTick(&mut ks);
    assert_eq!(ks.tcbs[3].tcbTimeSlice, CONFIG_TIME_SLICE - 1);
    assert_eq!(ks.node.ksSchedulerAction, SchedulerAction_ResumeCurrentThread);
    ks.tcbs[3].tcbTimeSlice = 1;
    timerTick(&mut ks);
    assert_eq!(ks.tcbs[3].tcbTimeSlice, CONFIG_TIME_SLICE);
    assert_eq!(queue_of(&ks, 10), vec![3]);
    assert_eq!(ks.node.ksSchedulerAction, SchedulerAction_ChooseNewThread);
}

#[test]
fn timer_tick_ignores_blocked_thread() {
    let mut ks = kernel(10, &[]);
    ks.tcbs[3].tcbState.tsType = ThreadState::ThreadStateBlockedOnReceive;
    timerTick(&mut ks);
    assert_eq!(ks.tcbs[3].tcbTimeSlice, CONFIG_TIME_SLICE);
}

#[test]
fn set_thread_state_blocking_current_requests_new_thread() {
    let mut ks = kernel(10, &[]);
    set_thread_state(&mut ks, 3, ThreadState::ThreadStateBlockedOnSend);
    assert_eq!(ks.tcbs[3].tcbState.tsType, ThreadState::ThreadStateBlockedOnSend);
    assert_eq!(ks.node.ksSchedulerAction, SchedulerAction_ChooseNewThread);
}

#[test]
fn activate_restarting_thread_resumes_at_fault_address() {
    let mut ks = kernel(10, &[]);
    ks.tcbs[3].tcbState.tsType = ThreadState::ThreadStateRestart;
    ks.tcbs[3].tcbArch.registers[34] = 0x4000;
    activateThread(&mut ks);
    assert_eq!(ks.tcbs[3].tcbState.tsType, ThreadState::ThreadStateRunning);
    assert_eq!(ks.tcbs[3].tcbArch.registers[32], 0x4000);
}

#[test]
fn suspend_and_restart() {
    let mut ks = kernel(10, &[20]);
    tcb_t::sched_enqueue(&mut ks, 4);
    tcb_t::suspend(&mut ks, 4);
    assert_eq!(ks.tcbs[4].tcbState.tsType, ThreadState::ThreadStateInactive);
    assert_eq!(queue_of(&ks, 20), Vec::<usize>::new());
    tcb_t::restart(&mut ks, 4);
    assert_eq!(ks.tcbs[4].tcbState.tsType, ThreadState::ThreadStateRestart);
    assert_eq!(ks.tcbs[4].tcbState.tcbQueued, 1);
    assert_eq!(
        ks.tcbs[4].cspace[2].capability,
        cap::reply_cap { capReplyCanGrant: 1, capReplyMaster: 1, capTCBPtr: 4 }
    );
}

#[test]
fn set_priority_moves_queue() {
    let mut ks = kernel(10, &[20]);
    tcb_t::sched_enqueue(&mut ks, 4);
    tcb_t::set_priority(&mut ks, 4, 40);
    assert_eq!(ks.tcbs[4].tcbPriority, 40);
    assert_eq!(queue_of(&ks, 20), Vec::<usize>::new());
    // the thread is offered to the scheduler rather than queued at once
    assert_eq!(ks.node.ksSchedulerAction, 4);
}

#[test]
fn yield_moves_current_to_tail() {
    let mut ks = kernel(10, &[10]);
    tcb_t::sched_enqueue(&mut ks, 4);
    handle_yield(&mut ks);
    assert_eq!(queue_of(&ks, 10), vec![4, 3]);
    assert_eq!(ks.node.ksSchedulerAction, SchedulerAction_ChooseNewThread);
    schedule(&mut ks);
    assert_eq!(get_currenct_thread(&ks), 4);
    assert_eq!(queue_of(&ks, 10), vec![3]);
}

#[test]
fn page_get_address_replies_with_one_word() {
    let mut ks = kernel(10, &[]);
    ks.tcbs[3].tcbArch.registers[0] = 77;
    let r = invoke_page_get_address(&mut ks, 0x8000_0000, true);
    assert_eq!(r, exception_t::EXCEPTION_NONE);
    assert_eq!(ks.tcbs[3].tcbArch.registers[0], 0);
    assert_eq!(ks.tcbs[3].tcbArch.registers[2], 0x8000_0000);
    assert_eq!(ks.tcbs[3].tcbArch.registers[1], 1);
    assert_eq!(ks.tcbs[3].tcbState.tsType, ThreadState::ThreadStateRestart);
}

#[test]
fn page_get_address_without_call_only_restarts() {
    let mut ks = kernel(10, &[]);
    let r = invoke_page_get_address(&mut ks, 0x1000, false);
    assert_eq!(r, exception_t::EXCEPTION_NONE);
    assert_eq!(ks.tcbs[3].tcbArch.registers[2], 0);
    assert_eq!(ks.tcbs[3].tcbState.tsType, ThreadState::ThreadStateRestart);
}

#[test]
fn reply_unlink_stops_the_waiting_thread() {
    let mut ks = kernel(10, &[20]);
    ks.tcbs[4].tcbState.tsType = ThreadState::ThreadStateBlockedOnReply;
    ks.tcbs[4].tcbState.replyObject = 0x700;
    let mut r = reply { replyTCB: 4, replyPrev: 0, replyNext: 0, padding: 0 };
    r.unlink(0x700, &mut ks, 4);
    assert_eq!(r.replyTCB, 0);
    assert_eq!(ks.tcbs[4].tcbState.replyObject, 0);
    assert_eq!(ks.tcbs[4].tcbState.tsType, ThreadState::ThreadStateInactive);
    assert_eq!(ks.node.ksSchedulerAction, SchedulerAction_ResumeCurrentThread);
}

#[test]
fn consumed_time_goes_to_current_thread() {
    let mut ks = kernel(10, &[]);
    let mut sc = sched_context {
        scPeriod: 0,
        scConsumed: 125000,
        scCore: 0,
        scTcb: 3,
        scReply: 0,
        scNotification: 0,
        scBadge: 0,
        scYieldFrom: 0,
        scRefillMax: 0,
        scRefillHead: 0,
        scRefillTail: 0,
        scSporadic: false,
        refills: vec![refill { rTime: 0, rAmount: 0 }; 2],
    };
    sc.setConsumed(&mut ks);
    assert_eq!(sc.scConsumed, 0);
    assert_eq!(ks.tcbs[3].tcbArch.registers[2], 2000);
    assert_eq!(ks.tcbs[3].tcbArch.registers[1], 1);
}

fn no_error() -> syscall_error_t {
    syscall_error_t {
        invalidArgumentNumber: 9,
        invalidCapNumber: 0,
        rangeErrorMin: 0,
        rangeErrorMax: 0,
        memoryLeft: 0,
        failedLookupWasSource: 0,
        _type: 0,
    }
}

#[test]
fn domain_invocation_errors() {
    let buffer = seL4_IPCBuffer::new();
    let mut ks = kernel(10, &[20]);
    let mut err = no_error();
    let thread4 = Some(cap::thread_cap { capTCBPtr: 4 });
    let r = decode_domain_invocation(&mut ks, MessageLabel::TCBSuspend, 1, &buffer, thread4, &mut err);
    assert_eq!(r, exception_t::EXCEPTION_SYSCALL_ERROR);
    assert_eq!(err._type, seL4_IllegalOperation);
    let r = decode_domain_invocation(&mut ks, MessageLabel::DomainSetSet, 0, &buffer, thread4, &mut err);
    assert_eq!(r, exception_t::EXCEPTION_SYSCALL_ERROR);
    assert_eq!(err._type, seL4_TruncatedMessage);
    ks.tcbs[3].tcbArch.registers[2] = 1;
    let r = decode_domain_invocation(&mut ks, MessageLabel::DomainSetSet, 1, &buffer, thread4, &mut err);
    assert_eq!(r, exception_t::EXCEPTION_SYSCALL_ERROR);
    assert_eq!(err._type, seL4_InvalidArgument);
    assert_eq!(err.invalidArgumentNumber, 0);
    ks.tcbs[3].tcbArch.registers[2] = 0;
    let r = decode_domain_invocation(&mut ks, MessageLabel::DomainSetSet, 1, &buffer, None, &mut err);
    assert_eq!(r, exception_t::EXCEPTION_SYSCALL_ERROR);
    assert_eq!(err._type, seL4_TruncatedMessage);
    let r = decode_domain_invocation(&mut ks, MessageLabel::DomainSetSet, 1, &buffer, Some(cap::domain_cap), &mut err);
    assert_eq!(r, exception_t::EXCEPTION_SYSCALL_ERROR);
    assert_eq!(err._type, seL4_InvalidArgument);
    assert_eq!(err.invalidArgumentNumber, 1);
    assert_eq!(ks.tcbs[3].tcbState.tsType, ThreadState::ThreadStateRunning);
}

#[test]
fn domain_invocation_moves_thread() {
    let buffer = seL4_IPCBuffer::new();
    let mut ks = kernel(10, &[20]);
    tcb_t::sched_enqueue(&mut ks, 4);
    let mut err = no_error();
    let r = decode_domain_invocation(
        &mut ks,
        MessageLabel::DomainSetSet,
        1,
        &buffer,
        Some(cap::thread_cap { capTCBPtr: 4 }),
        &mut err,
    );
    assert_eq!(r, exception_t::EXCEPTION_NONE);
    assert_eq!(err, no_error());
    assert_eq!(ks.tcbs[3].tcbState.tsType, ThreadState::ThreadStateRestart);
    assert_eq!(ks.tcbs[4].domain, 0);
    assert_eq!(queue_of(&ks, 20), vec![4]);
}

#[test]
fn append_and_enqueue_give_the_same_state() {
    let mut a = kernel(10, &[10, 30]);
    let mut b = kernel(10, &[10, 30]);
    tcb_t::sched_enqueue(&mut a, 5);
    tcb_t::sched_append(&mut b, 5);
    tcb_t::sched_enqueue(&mut a, 4);
    tcb_t::sched_append(&mut b, 4);
    assert_eq!(queue_of(&a, 10), queue_of(&b, 10));
    assert_eq!(queue_of(&a, 30), queue_of(&b, 30));
    assert_eq!(a.node.ksReadyQueuesL1Bitmap, b.node.ksReadyQueuesL1Bitmap);
    assert_eq!(a.node.ksReadyQueuesL2Bitmap, b.node.ksReadyQueuesL2Bitmap);
    assert_eq!((a.tcbs[4].tcbState.tcbQueued, b.tcbs[4].tcbState.tcbQueued), (1, 1));
    assert_eq!((a.tcbs[4].tcbSchedPrev, a.tcbs[4].tcbSchedNext), (b.tcbs[4].tcbSchedPrev, b.tcbs[4].tcbSchedNext));
}
