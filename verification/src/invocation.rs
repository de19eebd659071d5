//! Invocations and system calls that act on the current thread.
use vstd::prelude::*;
use crate::fault::{ThreadState, lookup_fault};
use crate::message_info::seL4_MessageInfo_t;
use crate::scheduler::{
    KernelState, SmpStateData, get_currenct_thread, set_thread_state, rescheduleRequired,
    lemma_wf_tcb_update, SchedulerAction_ChooseNewThread, strip_sched, setMCPriority,
};
use crate::cap::{cap, deriveCap_ret};
use crate::config::{
    CONFIG_NUM_DOMAINS, CONFIG_NUM_PRIORITIES, seL4_IllegalOperation, seL4_TruncatedMessage,
    seL4_InvalidArgument, seL4_InvalidCapability, seL4_RangeError, seL4_AlignmentError, seL4_RevokeFirst,
    seL4_DeleteFirst,
};
use crate::message_info::MessageLabel;
use crate::syscall_utils::{
    syscall_error_t, get_syscall_arg, syscall_arg, check_prio, seL4_MinPrio, check_ipc_buffer_vaild,
    is_valid_vtable_root, resolveAddressBits_ret_t, lookupSlotForCNodeOp, lookup_slot_result,
    lookup_slot_effect,
};
use crate::structures::exception_t;
use crate::sched_context::{
    sched_context, cap_sched_context_cap, MIN_REFILLS, MIN_BUDGET, MIN_BUDGET_US, MAX_PERIOD_US, max_period_us,
    min_budget, refill_absolute_max, refill_absolute_max_spec,
};
use crate::arch_aarch64::{usToTicks, us_to_ticks_spec};
use crate::notification::notification_t;
use crate::tcb::{tcb_t, ArchReg, same_but_mrs, seL4_IPCBuffer, TPIDR_EL0};

verus! {

/// Answers a page's get-address invocation: when the caller waits for a reply (`call`), its
/// badge register is cleared, its first message register receives `vbase_ptr` and its
/// message-info register a one-word message; the caller then restarts.
pub fn invoke_page_get_address(ks: &mut KernelState, vbase_ptr: usize, call: bool) -> (r: exception_t)
    requires
        old(ks).wf(),
    ensures
        final(ks).wf(),
        r == exception_t::EXCEPTION_NONE,
        final(ks).node == old(ks).node,
        final(ks).ksCurDomain == old(ks).ksCurDomain,
        final(ks).ksDomainTime == old(ks).ksDomainTime,
        final(ks).ksDomScheduleIdx == old(ks).ksDomScheduleIdx,
        final(ks).ksWorkUnitsCompleted == old(ks).ksWorkUnitsCompleted,
        final(ks).ksDomSchedule@ == old(ks).ksDomSchedule@,
        final(ks).tcbs@ == old(ks).tcbs@.update(
            old(ks).node.ksCurThread as int,
            final(ks).tcbs@[old(ks).node.ksCurThread as int],
        ),
        ({
            let t0 = old(ks).tcbs@[old(ks).node.ksCurThread as int];
            let t1 = final(ks).tcbs@[old(ks).node.ksCurThread as int];
            &&& t1.tcbState == (crate::fault::thread_state_t {
                tsType: ThreadState::ThreadStateRestart,
                ..t0.tcbState
            })
            &&& same_but_mrs(tcb_t { tcbState: t1.tcbState, ..t0 }, t1)
            &&& t1.ipcBuffer.msg@ == t0.ipcBuffer.msg@
            &&& call ==> t1.tcbArch.registers@ == t0.tcbArch.registers@.update(0, 0).update(2, vbase_ptr).update(1, 1)
            &&& !call ==> t1.tcbArch.registers@ == t0.tcbArch.registers@
        }),
{
    let thread = get_currenct_thread(ks);
    if call {
        ks.tcbs[thread].tcbArch.set_register(ArchReg::Badge, 0);
        let length = ks.tcbs[thread].set_mr(0, vbase_ptr);
        let info = seL4_MessageInfo_t::new(0, 0, 0, length as u64).to_word();
        ks.tcbs[thread].tcbArch.set_register(ArchReg::MsgInfo, info as usize);
        assert(ks.tcbs@ == old(ks).tcbs@.update(thread as int, ks.tcbs@[thread as int]));
        proof {
            lemma_wf_tcb_update(*old(ks), *ks, thread as int);
        }
    }
    set_thread_state(ks, thread, ThreadState::ThreadStateRestart);
    exception_t::EXCEPTION_NONE
}


/// The state `y` that yielding gives from `o`: the current thread moves to the tail of its
/// ready queue, a thread that was about to be switched to is queued after it, and a new thread
/// is to be chosen.
pub open spec fn yielded_from(y: &KernelState, o: &KernelState) -> bool {
    &&& y.node.ksSchedulerAction == SchedulerAction_ChooseNewThread
    &&& y.node.ksCurThread == o.node.ksCurThread
    &&& y.node.ksIdleThread == o.node.ksIdleThread
    &&& !o.valid_tcb(o.node.ksSchedulerAction as int) ==> y.requeued_from(o, o.node.ksCurThread as int)
    &&& o.valid_tcb(o.node.ksSchedulerAction as int) ==> exists|mid: KernelState|
        {
            &&& #[trigger] mid.requeued_from(o, o.node.ksCurThread as int)
            &&& y.enqueued_from(&mid, o.node.ksSchedulerAction as int)
        }
}

/// Yields the processor: the current thread moves to the tail of its ready queue and a new
/// thread is to be chosen (a thread that was about to be switched to is queued first).
pub fn handle_yield(ks: &mut KernelState)
    requires
        old(ks).wf(),
    ensures
        final(ks).wf(),
        final(ks).node.ksSchedulerAction == SchedulerAction_ChooseNewThread,
        final(ks).node.ksCurThread == old(ks).node.ksCurThread,
        final(ks).node.ksIdleThread == old(ks).node.ksIdleThread,
        yielded_from(final(ks), old(ks)),
        !old(ks).valid_tcb(old(ks).node.ksSchedulerAction as int) ==> final(ks).requeued_from(
            old(ks),
            old(ks).node.ksCurThread as int,
        ),
        old(ks).valid_tcb(old(ks).node.ksSchedulerAction as int) ==> exists|mid: KernelState|
            {
                &&& #[trigger] mid.requeued_from(old(ks), old(ks).node.ksCurThread as int)
                &&& final(ks).enqueued_from(&mid, old(ks).node.ksSchedulerAction as int)
            },
{
    let cur = get_currenct_thread(ks);
    tcb_t::sched_dequeue(ks, cur);
    let ghost k1 = *ks;
    tcb_t::sched_append(ks, cur);
    let ghost k2 = *ks;
    proof {
        let o = *old(ks);
        let t = cur as int;
        let d = o.tcbs@[t].domain as int;
        let p = o.tcbs@[t].tcbPriority as int;
        assert(strip_sched(k1.tcbs@[t]) == strip_sched(o.tcbs@[t]));
        assert(strip_sched(k2.tcbs@[t]) == strip_sched(k1.tcbs@[t]));
        assert(k2.rq_of(d, p) == o.rq_of(d, p).remove_value(cur).push(cur));
        assert forall|j: int| 0 <= j < k2.tcbs.len() implies strip_sched(#[trigger] k2.tcbs@[j]) == strip_sched(
            o.tcbs@[j],
        ) by {
            assert(strip_sched(k2.tcbs@[j]) == strip_sched(k1.tcbs@[j]));
            assert(strip_sched(k1.tcbs@[j]) == strip_sched(o.tcbs@[j]));
        }
        assert forall|j: int| 0 <= j < k2.tcbs.len() && j != t implies #[trigger] k2.queued(j) == o.queued(j) by {
            assert(k2.queued(j) == k1.queued(j));
        }
        assert forall|dd: int, pp: int|
            0 <= dd < CONFIG_NUM_DOMAINS && 0 <= pp < CONFIG_NUM_PRIORITIES && (dd != d || pp != p) implies #[trigger] k2.rq_of(dd, pp)
            == o.rq_of(dd, pp) by {
            assert(k2.rq_of(dd, pp) == k1.rq_of(dd, pp));
            assert(k1.rq_of(dd, pp) == o.rq_of(dd, pp));
        }
        assert(k2.requeued_from(&o, t));
    }
    rescheduleRequired(ks);
    proof {
        let o = *old(ks);
        let t = cur as int;
        let d = o.tcbs@[t].domain as int;
        let p = o.tcbs@[t].tcbPriority as int;
        if !o.valid_tcb(o.node.ksSchedulerAction as int) {
            assert(ks.same_queues(&k2));
            assert forall|j: int| 0 <= j < ks.tcbs.len() implies strip_sched(#[trigger] ks.tcbs@[j]) == strip_sched(
                o.tcbs@[j],
            ) by {
                assert(strip_sched(ks.tcbs@[j]) == strip_sched(k2.tcbs@[j]));
                assert(strip_sched(k2.tcbs@[j]) == strip_sched(o.tcbs@[j]));
            }
            assert forall|dd: int, pp: int|
                0 <= dd < CONFIG_NUM_DOMAINS && 0 <= pp < CONFIG_NUM_PRIORITIES && (dd != d || pp != p) implies #[trigger] ks.rq_of(dd, pp)
                == o.rq_of(dd, pp) by {
                assert(ks.rq_of(dd, pp) == k2.rq_of(dd, pp));
            }
            assert(ks.rq_of(d, p) == k2.rq_of(d, p));
        } else {
            assert(k2.node.ksSchedulerAction == o.node.ksSchedulerAction);
            assert(k2.requeued_from(&o, t));
        }
    }
}

/// Decodes a domain-setting invocation: the label must be `DomainSetSet`, the message must
/// carry a domain below the number of domains and an extra thread capability. On success the
/// caller restarts and the thread moves to the domain; otherwise the error is recorded in `err`
/// and nothing else changes.
pub fn decode_domain_invocation(
    ks: &mut KernelState,
    invLabel: MessageLabel,
    length: usize,
    buffer: &seL4_IPCBuffer,
    extra_cap: Option<cap>,
    err: &mut syscall_error_t,
) -> (r: exception_t)
    requires
        old(ks).wf(),
        buffer.wf(),
        extra_cap matches Some(cap::thread_cap { capTCBPtr }) ==> old(ks).valid_tcb(capTCBPtr as int),
    ensures
        final(ks).wf(),
        domain_invocation_decoded(*old(ks), *final(ks), *old(err), *final(err), r, invLabel, length, buffer, extra_cap),
{
    if invLabel != MessageLabel::DomainSetSet {
        err._type = seL4_IllegalOperation;
        return exception_t::EXCEPTION_SYSCALL_ERROR;
    }
    if length == 0 {
        err._type = seL4_TruncatedMessage;
        return exception_t::EXCEPTION_SYSCALL_ERROR;
    }
    let domain = get_syscall_arg(ks, 0, buffer);
    if domain >= CONFIG_NUM_DOMAINS {
        err._type = seL4_InvalidArgument;
        err.invalidArgumentNumber = 0;
        return exception_t::EXCEPTION_SYSCALL_ERROR;
    }
    match extra_cap {
        None => {
            err._type = seL4_TruncatedMessage;
            exception_t::EXCEPTION_SYSCALL_ERROR
        },
        Some(cap::thread_cap { capTCBPtr }) => {
            let cur = get_currenct_thread(ks);
            set_thread_state(ks, cur, ThreadState::ThreadStateRestart);
            let ghost k1 = *ks;
            proof {
                assert(ks.tcbs@ =~= old(ks).tcbs@.update(cur as int, ks.tcbs@[cur as int]));
                assert(k1.state_set_from(old(ks), cur as int, ThreadState::ThreadStateRestart));
            }
            tcb_t::set_domain(ks, capTCBPtr as usize, domain);
            exception_t::EXCEPTION_NONE
        },
        Some(_) => {
            err._type = seL4_InvalidArgument;
            err.invalidArgumentNumber = 1;
            exception_t::EXCEPTION_SYSCALL_ERROR
        },
    }
}

/// Decodes a priority-setting invocation on the thread of `capability`: the message must
/// carry the new priority and come with an extra thread capability, whose thread's maximum
/// controlled priority bounds the new one. On success the caller restarts and the thread
/// takes the priority; otherwise the error is recorded in `err` and nothing else changes.
pub fn decode_set_priority(
    ks: &mut KernelState,
    capability: &cap,
    length: usize,
    buffer: &seL4_IPCBuffer,
    extra_cap: Option<cap>,
    err: &mut syscall_error_t,
) -> (r: exception_t)
    requires
        old(ks).wf(),
        buffer.wf(),
        capability is thread_cap,
        old(ks).valid_tcb(capability->thread_cap_capTCBPtr as int),
        extra_cap matches Some(cap::thread_cap { capTCBPtr }) ==> old(ks).valid_tcb(capTCBPtr as int)
            && old(ks).tcbs@[capTCBPtr as int].tcbMCP < CONFIG_NUM_PRIORITIES,
    ensures
        final(ks).wf(),
        set_priority_decoded(*old(ks), *final(ks), *old(err), *final(err), r, capability, length, buffer, extra_cap),
{
    if length < 1 || extra_cap.is_none() {
        err._type = seL4_TruncatedMessage;
        return exception_t::EXCEPTION_SYSCALL_ERROR;
    }
    let new_prio = get_syscall_arg(ks, 0, buffer);
    let auth = match extra_cap {
        Some(cap::thread_cap { capTCBPtr }) => capTCBPtr as usize,
        _ => {
            err._type = seL4_InvalidCapability;
            err.invalidCapNumber = 1;
            return exception_t::EXCEPTION_SYSCALL_ERROR;
        },
    };
    let status = check_prio(new_prio, &ks.tcbs[auth], err);
    if status != exception_t::EXCEPTION_NONE {
        return status;
    }
    let target = match capability {
        cap::thread_cap { capTCBPtr } => *capTCBPtr as usize,
        _ => 0,
    };
    let cur = get_currenct_thread(ks);
    set_thread_state(ks, cur, ThreadState::ThreadStateRestart);
    let ghost k1 = *ks;
    proof {
        assert(ks.tcbs@ =~= old(ks).tcbs@.update(cur as int, ks.tcbs@[cur as int]));
        assert(k1.state_set_from(old(ks), cur as int, ThreadState::ThreadStateRestart));
    }
    tcb_t::set_priority(ks, target, new_prio);
    exception_t::EXCEPTION_NONE
}

/// Decodes an invocation setting the maximum controlled priority of the thread of
/// `capability`: the message must carry the new value and come with an extra thread
/// capability, whose thread's own maximum controlled priority bounds it. On success the caller
/// restarts and the thread takes the value; otherwise the error is recorded in `err` and
/// nothing else changes.
pub fn decode_set_mc_priority(
    ks: &mut KernelState,
    capability: &cap,
    length: usize,
    buffer: &seL4_IPCBuffer,
    extra_cap: Option<cap>,
    err: &mut syscall_error_t,
) -> (r: exception_t)
    requires
        old(ks).wf(),
        buffer.wf(),
        capability is thread_cap,
        old(ks).valid_tcb(capability->thread_cap_capTCBPtr as int),
        extra_cap matches Some(cap::thread_cap { capTCBPtr }) ==> old(ks).valid_tcb(capTCBPtr as int),
    ensures
        final(ks).wf(),
        set_mc_priority_decoded(*old(ks), *final(ks), *old(err), *final(err), r, capability, length, buffer, extra_cap),
{
    if length < 1 || extra_cap.is_none() {
        err._type = seL4_TruncatedMessage;
        return exception_t::EXCEPTION_SYSCALL_ERROR;
    }
    let new_mcp = get_syscall_arg(ks, 0, buffer);
    let auth = match extra_cap {
        Some(cap::thread_cap { capTCBPtr }) => capTCBPtr as usize,
        _ => {
            err._type = seL4_InvalidCapability;
            err.invalidCapNumber = 1;
            return exception_t::EXCEPTION_SYSCALL_ERROR;
        },
    };
    let status = check_prio(new_mcp, &ks.tcbs[auth], err);
    if status != exception_t::EXCEPTION_NONE {
        return status;
    }
    let target = match capability {
        cap::thread_cap { capTCBPtr } => *capTCBPtr as usize,
        _ => 0,
    };
    let cur = get_currenct_thread(ks);
    set_thread_state(ks, cur, ThreadState::ThreadStateRestart);
    let ghost k1 = *ks;
    proof {
        assert(ks.tcbs@ =~= old(ks).tcbs@.update(cur as int, ks.tcbs@[cur as int]));
        assert(k1.state_set_from(old(ks), cur as int, ThreadState::ThreadStateRestart));
    }
    setMCPriority(ks, target, new_mcp);
    exception_t::EXCEPTION_NONE
}

/// Decodes an invocation setting the priority and the maximum controlled priority of a
/// thread at once. A message shorter than two words, or one that comes with an extra
/// capability, is refused as truncated; a message of two words or more without an extra
/// capability is outside what this function accepts.
pub fn decode_set_sched_params(
    ks: &mut KernelState,
    capability: &cap,
    length: usize,
    buffer: &seL4_IPCBuffer,
    extra_cap: Option<cap>,
    err: &mut syscall_error_t,
) -> (r: exception_t)
    requires
        old(ks).wf(),
        buffer.wf(),
        capability is thread_cap,
        old(ks).valid_tcb(capability->thread_cap_capTCBPtr as int),
        length < 2 || extra_cap is Some,
    ensures
        final(ks).wf(),
        sched_params_decoded(*old(ks), *final(ks), *old(err), *final(err), r),
{
    if length < 2 || extra_cap.is_some() {
        err._type = seL4_TruncatedMessage;
        return exception_t::EXCEPTION_SYSCALL_ERROR;
    }
    let new_mcp = get_syscall_arg(ks, 0, buffer);
    let new_prio = get_syscall_arg(ks, 1, buffer);
    let auth = match extra_cap.unwrap() {
        cap::thread_cap { capTCBPtr } => capTCBPtr as usize,
        _ => {
            err._type = seL4_InvalidCapability;
            err.invalidCapNumber = 1;
            return exception_t::EXCEPTION_SYSCALL_ERROR;
        },
    };
    let status = check_prio(new_mcp, &ks.tcbs[auth], err);
    if status != exception_t::EXCEPTION_NONE {
        return status;
    }
    let status = check_prio(new_prio, &ks.tcbs[auth], err);
    if status != exception_t::EXCEPTION_NONE {
        return status;
    }
    let target = match capability {
        cap::thread_cap { capTCBPtr } => *capTCBPtr as usize,
        _ => 0,
    };
    let cur = get_currenct_thread(ks);
    set_thread_state(ks, cur, ThreadState::ThreadStateRestart);
    setMCPriority(ks, target, new_mcp);
    tcb_t::set_priority(ks, target, new_prio);
    exception_t::EXCEPTION_NONE
}

impl KernelState {
    /// `self` is `o` with register `idx` of thread `t` set to `w`.
    pub open spec fn register_set_from(&self, o: &KernelState, t: int, idx: int, w: usize) -> bool {
        &&& self.tcbs@ == o.tcbs@.update(t, self.tcbs@[t])
        &&& self.tcbs@[t] == (tcb_t { tcbArch: self.tcbs@[t].tcbArch, ..o.tcbs@[t] })
        &&& self.tcbs@[t].tcbArch.registers@ == o.tcbs@[t].tcbArch.registers@.update(idx, w)
        &&& self.node == o.node
        &&& self.ksCurDomain == o.ksCurDomain
        &&& self.ksDomainTime == o.ksDomainTime
        &&& self.ksDomScheduleIdx == o.ksDomScheduleIdx
        &&& self.ksWorkUnitsCompleted == o.ksWorkUnitsCompleted
        &&& self.ksDomSchedule@ == o.ksDomSchedule@
    }
}

/// Decodes an invocation setting the thread-local storage base register of the thread of
/// `capability`: the message must carry the new base. On success the caller restarts, the
/// register takes the base and, when the thread is the current one, a new choice of thread
/// is requested; otherwise the error is recorded in `err` and nothing else changes.
pub fn decode_set_tls_base(
    ks: &mut KernelState,
    capability: &cap,
    length: usize,
    buffer: &seL4_IPCBuffer,
    err: &mut syscall_error_t,
) -> (r: exception_t)
    requires
        old(ks).wf(),
        buffer.wf(),
        capability is thread_cap,
        old(ks).valid_tcb(capability->thread_cap_capTCBPtr as int),
    ensures
        final(ks).wf(),
        tls_base_decoded(*old(ks), *final(ks), *old(err), *final(err), r, capability, length, buffer),
{
    if length < 1 {
        err._type = seL4_TruncatedMessage;
        return exception_t::EXCEPTION_SYSCALL_ERROR;
    }
    let base = get_syscall_arg(ks, 0, buffer);
    let cur = get_currenct_thread(ks);
    set_thread_state(ks, cur, ThreadState::ThreadStateRestart);
    let ghost k1 = *ks;
    proof {
        assert(ks.tcbs@ =~= old(ks).tcbs@.update(cur as int, ks.tcbs@[cur as int]));
        assert(k1.state_set_from(old(ks), cur as int, ThreadState::ThreadStateRestart));
    }
    let target = match capability {
        cap::thread_cap { capTCBPtr } => *capTCBPtr as usize,
        _ => 0,
    };
    ks.tcbs[target].tcbArch.set_register(ArchReg::TlsBase, base);
    proof {
        assert(ks.tcbs@ =~= k1.tcbs@.update(target as int, ks.tcbs@[target as int]));
        lemma_wf_tcb_update(k1, *ks, target as int);
    }
    let ghost k2 = *ks;
    proof {
        assert(k2.register_set_from(&k1, target as int, TPIDR_EL0 as int, base));
    }
    if tcb_t::is_current(ks, target) {
        rescheduleRequired(ks);
    }
    exception_t::EXCEPTION_NONE
}

/// Decodes an invocation binding the thread of `capability` to a notification, given by an
/// extra capability; `ntfns` holds the notifications, indexed by their pointers. The thread
/// must have no bound notification, and the capability must name a notification that it may
/// receive from and on which nobody waits. On success the caller restarts and the thread and
/// the notification are bound to each other; otherwise the error is recorded in `err` and
/// nothing else changes.
pub fn decode_bind_notification(
    ks: &mut KernelState,
    ntfns: &mut Vec<notification_t>,
    capability: &cap,
    extra_cap: Option<cap>,
    err: &mut syscall_error_t,
) -> (r: exception_t)
    requires
        old(ks).wf(),
        capability is thread_cap,
        old(ks).valid_tcb(capability->thread_cap_capTCBPtr as int),
        extra_cap matches Some(cap::notification_cap { capNtfnPtr, .. }) ==> capNtfnPtr < old(ntfns).len(),
    ensures
        final(ks).wf(),
        bind_notification_decoded(*old(ks), *final(ks), *old(err), *final(err), old(ntfns)@, final(ntfns)@, r, capability, extra_cap),
{
    if extra_cap.is_none() {
        err._type = seL4_TruncatedMessage;
        return exception_t::EXCEPTION_SYSCALL_ERROR;
    }
    let target = match capability {
        cap::thread_cap { capTCBPtr } => *capTCBPtr as usize,
        _ => 0,
    };
    if ks.tcbs[target].tcbBoundNotification != 0 {
        err._type = seL4_IllegalOperation;
        return exception_t::EXCEPTION_SYSCALL_ERROR;
    }
    let (ntfn_ptr, can_receive) = match extra_cap {
        Some(cap::notification_cap { capNtfnPtr, capNtfnCanReceive, .. }) => (capNtfnPtr as usize, capNtfnCanReceive),
        _ => {
            err._type = seL4_IllegalOperation;
            return exception_t::EXCEPTION_SYSCALL_ERROR;
        },
    };
    if can_receive == 0 {
        err._type = seL4_IllegalOperation;
        return exception_t::EXCEPTION_SYSCALL_ERROR;
    }
    if ntfns[ntfn_ptr].ntfnQueue_head != 0 || ntfns[ntfn_ptr].ntfnQueue_tail != 0 {
        err._type = seL4_IllegalOperation;
        return exception_t::EXCEPTION_SYSCALL_ERROR;
    }
    let cur = get_currenct_thread(ks);
    set_thread_state(ks, cur, ThreadState::ThreadStateRestart);
    let ghost k1 = *ks;
    proof {
        assert(ks.tcbs@ =~= old(ks).tcbs@.update(cur as int, ks.tcbs@[cur as int]));
        assert(k1.state_set_from(old(ks), cur as int, ThreadState::ThreadStateRestart));
    }
    let mut ntfn = ntfns[ntfn_ptr];
    ntfn.bind_tcb(target);
    ntfns.set(ntfn_ptr, ntfn);
    ks.tcbs[target].bind_notification(ntfn_ptr);
    proof {
        assert(ks.tcbs@ =~= k1.tcbs@.update(target as int, ks.tcbs@[target as int]));
        lemma_wf_tcb_update(k1, *ks, target as int);
    }
    exception_t::EXCEPTION_NONE
}

/// Decodes an invocation unbinding the thread of `capability` from its notification;
/// `ntfns` holds the notifications, indexed by their pointers. The thread must have a bound
/// notification. On success the caller restarts and the binding is undone on both sides;
/// otherwise the error is recorded in `err` and nothing else changes.
pub fn decode_unbind_notification(
    ks: &mut KernelState,
    ntfns: &mut Vec<notification_t>,
    capability: &cap,
    err: &mut syscall_error_t,
) -> (r: exception_t)
    requires
        old(ks).wf(),
        capability is thread_cap,
        old(ks).valid_tcb(capability->thread_cap_capTCBPtr as int),
        old(ks).tcbs@[capability->thread_cap_capTCBPtr as int].tcbBoundNotification < old(ntfns).len(),
    ensures
        final(ks).wf(),
        unbind_notification_decoded(*old(ks), *final(ks), *old(err), *final(err), old(ntfns)@, final(ntfns)@, r, capability),
{
    let target = match capability {
        cap::thread_cap { capTCBPtr } => *capTCBPtr as usize,
        _ => 0,
    };
    if ks.tcbs[target].tcbBoundNotification == 0 {
        err._type = seL4_IllegalOperation;
        return exception_t::EXCEPTION_SYSCALL_ERROR;
    }
    let cur = get_currenct_thread(ks);
    set_thread_state(ks, cur, ThreadState::ThreadStateRestart);
    let ghost k1 = *ks;
    proof {
        assert(ks.tcbs@ =~= old(ks).tcbs@.update(cur as int, ks.tcbs@[cur as int]));
        assert(k1.state_set_from(old(ks), cur as int, ThreadState::ThreadStateRestart));
    }
    let ntfn_ptr = ks.tcbs[target].tcbBoundNotification;
    let mut ntfn = ntfns[ntfn_ptr];
    ntfn.unbind_tcb();
    ntfns.set(ntfn_ptr, ntfn);
    ks.tcbs[target].unbind_notification();
    proof {
        assert(ks.tcbs@ =~= k1.tcbs@.update(target as int, ks.tcbs@[target as int]));
        lemma_wf_tcb_update(k1, *ks, target as int);
    }
    exception_t::EXCEPTION_NONE
}

/// The outcome of `decode_domain_invocation`: `r` and the kernel state `n`, notifications and error `ne` that
/// it leaves, from state `o` and error `oe`.
pub open spec fn domain_invocation_decoded(
    o: KernelState,
    n: KernelState,
    oe: syscall_error_t,
    ne: syscall_error_t,
    r: exception_t,
    invLabel: MessageLabel, length: usize, buffer: &seL4_IPCBuffer, extra_cap: Option<cap>,
) -> bool {
    let domain = o.tcbs@[o.node.ksCurThread as int].tcbArch.registers@[2];
    if invLabel != MessageLabel::DomainSetSet {
        &&& r == exception_t::EXCEPTION_SYSCALL_ERROR
        &&& ne == (syscall_error_t { _type: seL4_IllegalOperation, ..oe })
        &&& n == o
    } else if length == 0 {
        &&& r == exception_t::EXCEPTION_SYSCALL_ERROR
        &&& ne == (syscall_error_t { _type: seL4_TruncatedMessage, ..oe })
        &&& n == o
    } else if domain >= CONFIG_NUM_DOMAINS {
        &&& r == exception_t::EXCEPTION_SYSCALL_ERROR
        &&& ne == (syscall_error_t {
            _type: seL4_InvalidArgument,
            invalidArgumentNumber: 0,
            ..oe
        })
        &&& n == o
    } else if extra_cap is None {
        &&& r == exception_t::EXCEPTION_SYSCALL_ERROR
        &&& ne == (syscall_error_t { _type: seL4_TruncatedMessage, ..oe })
        &&& n == o
    } else if !(extra_cap->0 is thread_cap) {
        &&& r == exception_t::EXCEPTION_SYSCALL_ERROR
        &&& ne == (syscall_error_t {
            _type: seL4_InvalidArgument,
            invalidArgumentNumber: 1,
            ..oe
        })
        &&& n == o
    } else {
        &&& r == exception_t::EXCEPTION_NONE
        &&& ne == oe
        &&& exists|k1: KernelState|
            {
                &&& #[trigger] k1.state_set_from(
                    &o,
                    o.node.ksCurThread as int,
                    ThreadState::ThreadStateRestart,
                )
                &&& n.domain_moved_from(&k1, extra_cap->0->thread_cap_capTCBPtr as int, domain)
            }
    }
}

/// The outcome of `decode_set_priority`: `r` and the kernel state `n`, notifications and error `ne` that
/// it leaves, from state `o` and error `oe`.
pub open spec fn set_priority_decoded(
    o: KernelState,
    n: KernelState,
    oe: syscall_error_t,
    ne: syscall_error_t,
    r: exception_t,
    capability: &cap, length: usize, buffer: &seL4_IPCBuffer, extra_cap: Option<cap>,
) -> bool {
    let new_prio = syscall_arg(&o, buffer, 0);
    if length < 1 || extra_cap is None {
        &&& r == exception_t::EXCEPTION_SYSCALL_ERROR
        &&& ne == (syscall_error_t { _type: seL4_TruncatedMessage, ..oe })
        &&& n == o
    } else if !(extra_cap->0 is thread_cap) {
        &&& r == exception_t::EXCEPTION_SYSCALL_ERROR
        &&& ne == (syscall_error_t {
            _type: seL4_InvalidCapability,
            invalidCapNumber: 1,
            ..oe
        })
        &&& n == o
    } else if new_prio > o.tcbs@[extra_cap->0->thread_cap_capTCBPtr as int].tcbMCP {
        &&& r == exception_t::EXCEPTION_SYSCALL_ERROR
        &&& ne == (syscall_error_t {
            _type: seL4_RangeError,
            rangeErrorMin: seL4_MinPrio,
            rangeErrorMax: o.tcbs@[extra_cap->0->thread_cap_capTCBPtr as int].tcbMCP,
            ..oe
        })
        &&& n == o
    } else {
        &&& r == exception_t::EXCEPTION_NONE
        &&& ne == oe
        &&& exists|k1: KernelState|
            {
                &&& #[trigger] k1.state_set_from(
                    &o,
                    o.node.ksCurThread as int,
                    ThreadState::ThreadStateRestart,
                )
                &&& n.priority_changed_from(
                    &k1,
                    capability->thread_cap_capTCBPtr as int,
                    new_prio,
                )
            }
    }
}

/// The outcome of `decode_set_mc_priority`: `r` and the kernel state `n`, notifications and error `ne` that
/// it leaves, from state `o` and error `oe`.
pub open spec fn set_mc_priority_decoded(
    o: KernelState,
    n: KernelState,
    oe: syscall_error_t,
    ne: syscall_error_t,
    r: exception_t,
    capability: &cap, length: usize, buffer: &seL4_IPCBuffer, extra_cap: Option<cap>,
) -> bool {
    let new_mcp = syscall_arg(&o, buffer, 0);
    if length < 1 || extra_cap is None {
        &&& r == exception_t::EXCEPTION_SYSCALL_ERROR
        &&& ne == (syscall_error_t { _type: seL4_TruncatedMessage, ..oe })
        &&& n == o
    } else if !(extra_cap->0 is thread_cap) {
        &&& r == exception_t::EXCEPTION_SYSCALL_ERROR
        &&& ne == (syscall_error_t {
            _type: seL4_InvalidCapability,
            invalidCapNumber: 1,
            ..oe
        })
        &&& n == o
    } else if new_mcp > o.tcbs@[extra_cap->0->thread_cap_capTCBPtr as int].tcbMCP {
        &&& r == exception_t::EXCEPTION_SYSCALL_ERROR
        &&& ne == (syscall_error_t {
            _type: seL4_RangeError,
            rangeErrorMin: seL4_MinPrio,
            rangeErrorMax: o.tcbs@[extra_cap->0->thread_cap_capTCBPtr as int].tcbMCP,
            ..oe
        })
        &&& n == o
    } else {
        &&& r == exception_t::EXCEPTION_NONE
        &&& ne == oe
        &&& exists|k1: KernelState|
            {
                &&& #[trigger] k1.state_set_from(
                    &o,
                    o.node.ksCurThread as int,
                    ThreadState::ThreadStateRestart,
                )
                &&& n.tcb_replaced_from(
                    &k1,
                    capability->thread_cap_capTCBPtr as int,
                    tcb_t { tcbMCP: new_mcp, ..k1.tcbs@[capability->thread_cap_capTCBPtr as int] },
                )
            }
    }
}

/// The outcome of `decode_bind_notification`: `r` and the kernel state `n`, notifications and error `ne` that
/// it leaves, from state `o` and error `oe`.
pub open spec fn bind_notification_decoded(
    o: KernelState,
    n: KernelState,
    oe: syscall_error_t,
    ne: syscall_error_t, on: Seq<notification_t>, nn: Seq<notification_t>,
    r: exception_t,
    capability: &cap, extra_cap: Option<cap>,
) -> bool {
    let t = capability->thread_cap_capTCBPtr as int;
    let np = extra_cap->0->notification_cap_capNtfnPtr as int;
    if extra_cap is None {
        &&& r == exception_t::EXCEPTION_SYSCALL_ERROR
        &&& ne == (syscall_error_t { _type: seL4_TruncatedMessage, ..oe })
        &&& n == o
        &&& nn == on
    } else if o.tcbs@[t].tcbBoundNotification != 0 || !(extra_cap->0 is notification_cap)
        || extra_cap->0->notification_cap_capNtfnCanReceive == 0 || on[np].ntfnQueue_head != 0
        || on[np].ntfnQueue_tail != 0 {
        &&& r == exception_t::EXCEPTION_SYSCALL_ERROR
        &&& ne == (syscall_error_t { _type: seL4_IllegalOperation, ..oe })
        &&& n == o
        &&& nn == on
    } else {
        &&& r == exception_t::EXCEPTION_NONE
        &&& ne == oe
        &&& nn == on.update(
            np,
            notification_t { ntfnBoundTCB: t as usize, ..on[np] },
        )
        &&& exists|k1: KernelState|
            {
                &&& #[trigger] k1.state_set_from(
                    &o,
                    o.node.ksCurThread as int,
                    ThreadState::ThreadStateRestart,
                )
                &&& n.tcb_replaced_from(
                    &k1,
                    t,
                    tcb_t { tcbBoundNotification: np as usize, ..k1.tcbs@[t] },
                )
            }
    }
}

/// The outcome of `decode_unbind_notification`: `r` and the kernel state `n`, notifications and error `ne` that
/// it leaves, from state `o` and error `oe`.
pub open spec fn unbind_notification_decoded(
    o: KernelState,
    n: KernelState,
    oe: syscall_error_t,
    ne: syscall_error_t, on: Seq<notification_t>, nn: Seq<notification_t>,
    r: exception_t,
    capability: &cap,
) -> bool {
    let t = capability->thread_cap_capTCBPtr as int;
    let np = o.tcbs@[t].tcbBoundNotification as int;
    if np == 0 {
        &&& r == exception_t::EXCEPTION_SYSCALL_ERROR
        &&& ne == (syscall_error_t { _type: seL4_IllegalOperation, ..oe })
        &&& n == o
        &&& nn == on
    } else {
        &&& r == exception_t::EXCEPTION_NONE
        &&& ne == oe
        &&& nn == on.update(np, notification_t { ntfnBoundTCB: 0, ..on[np] })
        &&& exists|k1: KernelState|
            {
                &&& #[trigger] k1.state_set_from(
                    &o,
                    o.node.ksCurThread as int,
                    ThreadState::ThreadStateRestart,
                )
                &&& n.tcb_replaced_from(&k1, t, tcb_t { tcbBoundNotification: 0, ..k1.tcbs@[t] })
            }
    }
}

/// The outcome of `decode_set_tls_base`: `r` and the kernel state `n` and error `ne` that it
/// leaves, from state `o` and error `oe`.
pub open spec fn tls_base_decoded(
    o: KernelState,
    n: KernelState,
    oe: syscall_error_t,
    ne: syscall_error_t,
    r: exception_t,
    capability: &cap,
    length: usize,
    buffer: &seL4_IPCBuffer,
) -> bool {
    if length < 1 {
        &&& r == exception_t::EXCEPTION_SYSCALL_ERROR
        &&& ne == (syscall_error_t { _type: seL4_TruncatedMessage, ..oe })
        &&& n == o
    } else {
        let t = capability->thread_cap_capTCBPtr as int;
        &&& r == exception_t::EXCEPTION_NONE
        &&& ne == oe
        &&& exists|k1: KernelState, k2: KernelState|
            {
                &&& #[trigger] k1.state_set_from(&o, o.node.ksCurThread as int, ThreadState::ThreadStateRestart)
                &&& #[trigger] k2.register_set_from(&k1, t, TPIDR_EL0 as int, syscall_arg(&o, buffer, 0))
                &&& t == o.node.ksCurThread ==> n.rescheduled_from(&k2)
                &&& t != o.node.ksCurThread ==> n == k2
            }
    }
}

/// The outcome of `decode_set_sched_params` on the inputs it accepts: the truncated-message
/// error, with nothing else changed.
pub open spec fn sched_params_decoded(
    o: KernelState,
    n: KernelState,
    oe: syscall_error_t,
    ne: syscall_error_t,
    r: exception_t,
) -> bool {
    &&& r == exception_t::EXCEPTION_SYSCALL_ERROR
    &&& ne == (syscall_error_t { _type: seL4_TruncatedMessage, ..oe })
    &&& n == o
}

/// What an invocation comes to.
#[derive(Debug, Clone, Copy, PartialEq, Eq, Structural)]
pub enum InvocationOutcome {
    /// Decided by the decoder, with this result.
    Decided(exception_t),
    /// A send to endpoint `ep` with these parameters, for the endpoint code (outside this
    /// library) to perform; the caller already restarts.
    SendIPC { ep: u64, block: bool, call: bool, canGrant: bool, badge: u64, canGrantReply: bool },
    /// A signal to notification `ntfn` with `badge`, for the notification code (outside this
    /// library) to perform; the caller already restarts.
    SendSignal { ntfn: u64, badge: u64 },
    /// A reply to thread `tcb` through the invoked reply capability, for the reply code
    /// (outside this library) to perform; the caller already restarts.
    Reply { tcb: u64, canGrant: bool },
    /// Thread `tcb` is to be suspended; the caller already restarts.
    Suspend { tcb: u64 },
    /// Thread `tcb` is to be resumed; the caller already restarts.
    Resume { tcb: u64 },
    /// The first `n` registers of thread `tcb` are to be written from the message, the thread
    /// resumed afterwards if `resumeTarget`; the caller already restarts.
    WriteRegisters { tcb: u64, resumeTarget: bool, n: usize },
    /// Registers of thread `src` are to be copied to thread `dest` as the bits of `flags` say.
    CopyRegisters { dest: u64, src: u64, flags: usize },
    /// Thread `tcb` is to take the IPC buffer at `bufferAddr` in the frame of `bufferCap` (a
    /// null capability when the address is 0); the caller already restarts.
    SetIPCBuffer { tcb: u64, bufferAddr: usize, bufferCap: cap },
    /// Thread `tcb` is to take fault endpoint `faultEP` and the CSpace and VSpace roots
    /// `croot` and `vroot`; the caller already restarts.
    SetSpace { tcb: u64, faultEP: usize, croot: cap, vroot: cap },
    /// Both of the above at once: `SetSpace`, then `SetIPCBuffer`.
    Configure { tcb: u64, faultEP: usize, croot: cap, vroot: cap, bufferAddr: usize, bufferCap: cap },
    /// An invocation of an interrupt-handler capability, as `decode_irq_handler_invocation`
    /// decides it.
    IrqHandler(IrqHandlerOutcome),
    /// An invocation of the interrupt-control capability, as `decode_irq_control_invocation`
    /// decides it.
    IrqControl(IrqControlOutcome),
    /// An invocation of a CNode, untyped or MMU capability; a thread
    /// invocation that configures the thread or sets its IPC buffer or its spaces, which
    /// `decode_tcb_configure`, `decode_set_ipc_buffer` and `decode_set_space` decode from the
    /// results of deriving the capabilities they install; or one that reads a thread's
    /// registers, whose count this library does not hold. Nothing has changed.
    Elsewhere,
}

/// The preconditions of the thread decoders that `decode_tcb_invocation` dispatches to.
pub open spec fn tcb_invocation_ok(
    ks: &KernelState,
    ntfns: Seq<notification_t>,
    invLabel: MessageLabel,
    length: usize,
    capability: &cap,
    extra_cap: Option<cap>,
) -> bool {
    &&& capability is thread_cap
    &&& ks.valid_tcb(capability->thread_cap_capTCBPtr as int)
    &&& (invLabel == MessageLabel::TCBSetPriority ==> (extra_cap matches Some(cap::thread_cap { capTCBPtr })
        ==> ks.valid_tcb(capTCBPtr as int) && ks.tcbs@[capTCBPtr as int].tcbMCP < CONFIG_NUM_PRIORITIES))
    &&& (invLabel == MessageLabel::TCBSetMCPriority ==> (extra_cap matches Some(cap::thread_cap { capTCBPtr })
        ==> ks.valid_tcb(capTCBPtr as int)))
    &&& (invLabel == MessageLabel::TCBSetSchedParams ==> length < 2 || extra_cap is Some)
    &&& (invLabel == MessageLabel::TCBCopyRegisters ==> extra_cap matches Some(cap::thread_cap { .. }))
    &&& (invLabel == MessageLabel::TCBBindNotification ==> (extra_cap matches Some(
        cap::notification_cap { capNtfnPtr, .. },
    ) ==> capNtfnPtr < ntfns.len()))
    &&& (invLabel == MessageLabel::TCBUnbindNotification ==> ks.tcbs@[capability->thread_cap_capTCBPtr as int].tcbBoundNotification
        < ntfns.len())
}

/// Whether the thread invocation label is one whose decoding lies outside this library.
pub open spec fn tcb_label_elsewhere(l: MessageLabel) -> bool {
    ||| l == MessageLabel::TCBReadRegisters
    ||| l == MessageLabel::TCBConfigure
    ||| l == MessageLabel::TCBSetIPCBuffer
    ||| l == MessageLabel::TCBSetSpace
}

/// The outcome of `decode_tcb_invocation`: `r` and the kernel state `n`, notifications `nn`
/// and error `ne` that it leaves, from state `o`, notifications `on` and error `oe`.
pub open spec fn tcb_invocation_decoded(
    o: KernelState,
    n: KernelState,
    oe: syscall_error_t,
    ne: syscall_error_t,
    on: Seq<notification_t>,
    nn: Seq<notification_t>,
    r: InvocationOutcome,
    invLabel: MessageLabel,
    length: usize,
    capability: &cap,
    buffer: &seL4_IPCBuffer,
    extra_cap: Option<cap>,
) -> bool {
    &&& (invLabel == MessageLabel::TCBSetPriority ==> (r matches InvocationOutcome::Decided(x)
        && set_priority_decoded(o, n, oe, ne, x, capability, length, buffer, extra_cap) && nn == on))
    &&& (invLabel == MessageLabel::TCBSetMCPriority ==> (r matches InvocationOutcome::Decided(x)
        && set_mc_priority_decoded(o, n, oe, ne, x, capability, length, buffer, extra_cap) && nn == on))
    &&& (invLabel == MessageLabel::TCBSetSchedParams ==> (r matches InvocationOutcome::Decided(x)
        && sched_params_decoded(o, n, oe, ne, x) && nn == on))
    &&& (invLabel == MessageLabel::TCBSetTLSBase ==> (r matches InvocationOutcome::Decided(x)
        && tls_base_decoded(o, n, oe, ne, x, capability, length, buffer) && nn == on))
    &&& (invLabel == MessageLabel::TCBBindNotification ==> (r matches InvocationOutcome::Decided(x)
        && bind_notification_decoded(o, n, oe, ne, on, nn, x, capability, extra_cap)))
    &&& (invLabel == MessageLabel::TCBUnbindNotification ==> (r matches InvocationOutcome::Decided(x)
        && unbind_notification_decoded(o, n, oe, ne, on, nn, x, capability)))
    &&& (invLabel == MessageLabel::TCBSuspend ==> caller_restarted(n, o) && ne == oe && nn == on
        && r == InvocationOutcome::Suspend { tcb: capability->thread_cap_capTCBPtr })
    &&& (invLabel == MessageLabel::TCBResume ==> caller_restarted(n, o) && ne == oe && nn == on
        && r == InvocationOutcome::Resume { tcb: capability->thread_cap_capTCBPtr })
    &&& (invLabel == MessageLabel::TCBWriteRegisters ==> write_registers_decoded(o, n, oe, ne, r, capability, length, buffer)
        && nn == on)
    &&& (invLabel == MessageLabel::TCBCopyRegisters ==> n == o && ne == oe && nn == on
        && r == copy_registers_outcome(&o, capability, buffer, extra_cap))
    &&& (tcb_label_elsewhere(invLabel) ==> r == InvocationOutcome::Elsewhere && n == o && ne == oe && nn == on)
    &&& (!tcb_label_elsewhere(invLabel) && invLabel != MessageLabel::TCBSuspend && invLabel != MessageLabel::TCBResume
        && invLabel != MessageLabel::TCBWriteRegisters && invLabel != MessageLabel::TCBCopyRegisters
        && invLabel != MessageLabel::TCBSetPriority && invLabel
        != MessageLabel::TCBSetMCPriority && invLabel != MessageLabel::TCBSetSchedParams && invLabel
        != MessageLabel::TCBSetTLSBase && invLabel != MessageLabel::TCBBindNotification && invLabel
        != MessageLabel::TCBUnbindNotification ==> {
        &&& r == InvocationOutcome::Decided(exception_t::EXCEPTION_SYSCALL_ERROR)
        &&& ne == (syscall_error_t { _type: seL4_IllegalOperation, ..oe })
        &&& n == o
        &&& nn == on
    })
}

/// Decodes an invocation of the thread of `capability` by its label: priorities, maximum
/// controlled priorities, scheduling parameters, the thread-local storage base, notification
/// binding, suspension, resumption and the writing and copying of registers are decoded here;
/// reading registers, configuring the thread and setting its IPC buffer or spaces are
/// `Elsewhere`; any other label is an illegal operation.
pub fn decode_tcb_invocation(
    ks: &mut KernelState,
    ntfns: &mut Vec<notification_t>,
    invLabel: MessageLabel,
    length: usize,
    capability: &cap,
    buffer: &seL4_IPCBuffer,
    extra_cap: Option<cap>,
    err: &mut syscall_error_t,
) -> (r: InvocationOutcome)
    requires
        old(ks).wf(),
        buffer.wf(),
        tcb_invocation_ok(old(ks), old(ntfns)@, invLabel, length, capability, extra_cap),
    ensures
        final(ks).wf(),
        tcb_invocation_decoded(
            *old(ks),
            *final(ks),
            *old(err),
            *final(err),
            old(ntfns)@,
            final(ntfns)@,
            r,
            invLabel,
            length,
            capability,
            buffer,
            extra_cap,
        ),
{
    match invLabel {
        MessageLabel::TCBSetPriority => InvocationOutcome::Decided(
            decode_set_priority(ks, capability, length, buffer, extra_cap, err),
        ),
        MessageLabel::TCBSetMCPriority => InvocationOutcome::Decided(
            decode_set_mc_priority(ks, capability, length, buffer, extra_cap, err),
        ),
        MessageLabel::TCBSetSchedParams => InvocationOutcome::Decided(
            decode_set_sched_params(ks, capability, length, buffer, extra_cap, err),
        ),
        MessageLabel::TCBSetTLSBase => InvocationOutcome::Decided(
            decode_set_tls_base(ks, capability, length, buffer, err),
        ),
        MessageLabel::TCBBindNotification => InvocationOutcome::Decided(
            decode_bind_notification(ks, ntfns, capability, extra_cap, err),
        ),
        MessageLabel::TCBUnbindNotification => InvocationOutcome::Decided(
            decode_unbind_notification(ks, ntfns, capability, err),
        ),
        MessageLabel::TCBSuspend => {
            restart_caller(ks);
            InvocationOutcome::Suspend { tcb: capability_tcb(capability) }
        },
        MessageLabel::TCBResume => {
            restart_caller(ks);
            InvocationOutcome::Resume { tcb: capability_tcb(capability) }
        },
        MessageLabel::TCBWriteRegisters => decode_write_registers(ks, capability, length, buffer, err),
        MessageLabel::TCBCopyRegisters => decode_copy_registers(ks, capability, buffer, extra_cap),
        MessageLabel::TCBReadRegisters
        | MessageLabel::TCBConfigure
        | MessageLabel::TCBSetIPCBuffer
        | MessageLabel::TCBSetSpace => InvocationOutcome::Elsewhere,
        _ => {
            err._type = seL4_IllegalOperation;
            InvocationOutcome::Decided(exception_t::EXCEPTION_SYSCALL_ERROR)
        },
    }
}

/// The state `o` with the current thread restarted, as `n`.
pub open spec fn caller_restarted(n: KernelState, o: KernelState) -> bool {
    n.state_set_from(&o, o.node.ksCurThread as int, ThreadState::ThreadStateRestart)
}

/// Decodes an invocation of `capability`: a null or zombie capability, or an endpoint,
/// notification or reply capability that may not be used so, is an invalid capability; a
/// usable endpoint, notification or reply capability restarts the caller and names the send,
/// signal or reply to carry out; thread, domain and interrupt capabilities are decoded by their
/// decoders (`irq_active`, `res_ret` and `dest_cap` serve the interrupt-control decoder); the
/// other capabilities are `Elsewhere`.
pub fn decode_invocation(
    ks: &mut KernelState,
    ntfns: &mut Vec<notification_t>,
    label: MessageLabel,
    length: usize,
    capability: &cap,
    block: bool,
    call: bool,
    buffer: &seL4_IPCBuffer,
    extra_cap: Option<cap>,
    irq_active: &Vec<bool>,
    res_ret: resolveAddressBits_ret_t,
    dest_cap: cap,
    err: &mut syscall_error_t,
    current_lookup_fault: &mut lookup_fault,
) -> (r: InvocationOutcome)
    requires
        old(ks).wf(),
        buffer.wf(),
        capability is irq_control_cap ==> irq_active.len() >= 1,
        capability is thread_cap ==> tcb_invocation_ok(old(ks), old(ntfns)@, label, length, capability, extra_cap),
        capability is domain_cap ==> (extra_cap matches Some(cap::thread_cap { capTCBPtr }) ==> old(ks).valid_tcb(
            capTCBPtr as int,
        )),
    ensures
        final(ks).wf(),
        !(capability is irq_control_cap) ==> *final(current_lookup_fault) == *old(current_lookup_fault),
        match *capability {
            cap::null_cap | cap::zombie_cap { .. } => {
                &&& r == InvocationOutcome::Decided(exception_t::EXCEPTION_SYSCALL_ERROR)
                &&& *final(err) == (syscall_error_t { _type: seL4_InvalidCapability, invalidCapNumber: 0, ..*old(err) })
                &&& *final(ks) == *old(ks)
                &&& final(ntfns)@ == old(ntfns)@
            },
            cap::endpoint_cap { capEPBadge, capCanGrantReply, capCanGrant, capCanSend, capEPPtr, .. } => {
                &&& final(ntfns)@ == old(ntfns)@
                &&& capCanSend == 0 ==> {
                    &&& r == InvocationOutcome::Decided(exception_t::EXCEPTION_SYSCALL_ERROR)
                    &&& *final(err) == (syscall_error_t { _type: seL4_InvalidCapability, invalidCapNumber: 0, ..*old(err) })
                    &&& *final(ks) == *old(ks)
                }
                &&& capCanSend != 0 ==> {
                    &&& r == (InvocationOutcome::SendIPC {
                        ep: capEPPtr,
                        block,
                        call,
                        canGrant: capCanGrant != 0,
                        badge: capEPBadge,
                        canGrantReply: capCanGrantReply != 0,
                    })
                    &&& *final(err) == *old(err)
                    &&& caller_restarted(*final(ks), *old(ks))
                }
            },
            cap::notification_cap { capNtfnBadge, capNtfnCanSend, capNtfnPtr, .. } => {
                &&& final(ntfns)@ == old(ntfns)@
                &&& capNtfnCanSend == 0 ==> {
                    &&& r == InvocationOutcome::Decided(exception_t::EXCEPTION_SYSCALL_ERROR)
                    &&& *final(err) == (syscall_error_t { _type: seL4_InvalidCapability, invalidCapNumber: 0, ..*old(err) })
                    &&& *final(ks) == *old(ks)
                }
                &&& capNtfnCanSend != 0 ==> {
                    &&& r == (InvocationOutcome::SendSignal { ntfn: capNtfnPtr, badge: capNtfnBadge })
                    &&& *final(err) == *old(err)
                    &&& caller_restarted(*final(ks), *old(ks))
                }
            },
            cap::reply_cap { capReplyCanGrant, capReplyMaster, capTCBPtr } => {
                &&& final(ntfns)@ == old(ntfns)@
                &&& capReplyMaster != 0 ==> {
                    &&& r == InvocationOutcome::Decided(exception_t::EXCEPTION_SYSCALL_ERROR)
                    &&& *final(err) == (syscall_error_t { _type: seL4_InvalidCapability, invalidCapNumber: 0, ..*old(err) })
                    &&& *final(ks) == *old(ks)
                }
                &&& capReplyMaster == 0 ==> {
                    &&& r == (InvocationOutcome::Reply { tcb: capTCBPtr, canGrant: capReplyCanGrant != 0 })
                    &&& *final(err) == *old(err)
                    &&& caller_restarted(*final(ks), *old(ks))
                }
            },
            cap::thread_cap { .. } => tcb_invocation_decoded(
                *old(ks),
                *final(ks),
                *old(err),
                *final(err),
                old(ntfns)@,
                final(ntfns)@,
                r,
                label,
                length,
                capability,
                buffer,
                extra_cap,
            ),
            cap::irq_control_cap => {
                &&& final(ntfns)@ == old(ntfns)@
                &&& r matches InvocationOutcome::IrqControl(x) && irq_control_decoded(
                    *old(ks),
                    *final(ks),
                    *old(err),
                    *final(err),
                    *old(current_lookup_fault),
                    *final(current_lookup_fault),
                    x,
                    label,
                    length,
                    buffer,
                    extra_cap,
                    irq_active@,
                    res_ret,
                    dest_cap,
                )
            },
            cap::irq_handler_cap { capIRQ } => {
                &&& final(ntfns)@ == old(ntfns)@
                &&& r matches InvocationOutcome::IrqHandler(x) && irq_handler_decoded(
                    *old(ks),
                    *final(ks),
                    *old(err),
                    *final(err),
                    x,
                    label,
                    capIRQ as usize,
                    extra_cap,
                )
            },
            cap::domain_cap => {
                &&& final(ntfns)@ == old(ntfns)@
                &&& r matches InvocationOutcome::Decided(x) && domain_invocation_decoded(
                    *old(ks),
                    *final(ks),
                    *old(err),
                    *final(err),
                    x,
                    label,
                    length,
                    buffer,
                    extra_cap,
                )
            },
            _ => {
                &&& r == InvocationOutcome::Elsewhere
                &&& *final(ks) == *old(ks)
                &&& *final(err) == *old(err)
                &&& final(ntfns)@ == old(ntfns)@
            },
        },
{
    match capability {
        cap::null_cap | cap::zombie_cap { .. } => {
            err._type = seL4_InvalidCapability;
            err.invalidCapNumber = 0;
            InvocationOutcome::Decided(exception_t::EXCEPTION_SYSCALL_ERROR)
        },
        cap::endpoint_cap { capEPBadge, capCanGrantReply, capCanGrant, capCanSend, capEPPtr, .. } => {
            if *capCanSend == 0 {
                err._type = seL4_InvalidCapability;
                err.invalidCapNumber = 0;
                return InvocationOutcome::Decided(exception_t::EXCEPTION_SYSCALL_ERROR);
            }
            restart_caller(ks);
            InvocationOutcome::SendIPC {
                ep: *capEPPtr,
                block,
                call,
                canGrant: *capCanGrant != 0,
                badge: *capEPBadge,
                canGrantReply: *capCanGrantReply != 0,
            }
        },
        cap::notification_cap { capNtfnBadge, capNtfnCanSend, capNtfnPtr, .. } => {
            if *capNtfnCanSend == 0 {
                err._type = seL4_InvalidCapability;
                err.invalidCapNumber = 0;
                return InvocationOutcome::Decided(exception_t::EXCEPTION_SYSCALL_ERROR);
            }
            restart_caller(ks);
            InvocationOutcome::SendSignal { ntfn: *capNtfnPtr, badge: *capNtfnBadge }
        },
        cap::reply_cap { capReplyCanGrant, capReplyMaster, capTCBPtr } => {
            if *capReplyMaster != 0 {
                err._type = seL4_InvalidCapability;
                err.invalidCapNumber = 0;
                return InvocationOutcome::Decided(exception_t::EXCEPTION_SYSCALL_ERROR);
            }
            restart_caller(ks);
            InvocationOutcome::Reply { tcb: *capTCBPtr, canGrant: *capReplyCanGrant != 0 }
        },
        cap::thread_cap { .. } => decode_tcb_invocation(ks, ntfns, label, length, capability, buffer, extra_cap, err),
        cap::domain_cap => InvocationOutcome::Decided(
            decode_domain_invocation(ks, label, length, buffer, extra_cap, err),
        ),
        cap::irq_handler_cap { capIRQ } => InvocationOutcome::IrqHandler(
            decode_irq_handler_invocation(ks, label, *capIRQ as usize, extra_cap, err),
        ),
        cap::irq_control_cap => InvocationOutcome::IrqControl(
            decode_irq_control_invocation(
                ks,
                label,
                length,
                buffer,
                extra_cap,
                irq_active,
                res_ret,
                dest_cap,
                err,
                current_lookup_fault,
            ),
        ),
        _ => InvocationOutcome::Elsewhere,
    }
}

/// Puts the current thread in the restart state.
fn restart_caller(ks: &mut KernelState)
    requires
        old(ks).wf(),
    ensures
        final(ks).wf(),
        caller_restarted(*final(ks), *old(ks)),
{
    let cur = get_currenct_thread(ks);
    set_thread_state(ks, cur, ThreadState::ThreadStateRestart);
    proof {
        assert(ks.tcbs@ =~= old(ks).tcbs@.update(cur as int, ks.tcbs@[cur as int]));
    }
}

/// What an invocation of an interrupt-handler capability comes to.
#[derive(Debug, Clone, Copy, PartialEq, Eq, Structural)]
pub enum IrqHandlerOutcome {
    /// Decided by the decoder, with this result.
    Decided(exception_t),
    /// Interrupt `irq` is to signal through capability `ntfn`; the caller already restarts.
    SetHandler { irq: usize, ntfn: cap },
    /// Interrupt `irq` is to lose its handler; the caller already restarts.
    ClearHandler { irq: usize },
}

/// The decision of an invocation of the handler capability of interrupt `irq`, from the state
/// before (`o`, `oe`) to the state after (`n`, `ne`).
pub open spec fn irq_handler_decoded(
    o: KernelState,
    n: KernelState,
    oe: syscall_error_t,
    ne: syscall_error_t,
    r: IrqHandlerOutcome,
    label: MessageLabel,
    irq: usize,
    extra_cap: Option<cap>,
) -> bool {
    if label == MessageLabel::IRQAckIRQ {
        &&& r == IrqHandlerOutcome::Decided(exception_t::EXCEPTION_NONE)
        &&& ne == oe
        &&& caller_restarted(n, o)
    } else if label == MessageLabel::IRQSetIRQHandler {
        if extra_cap is None {
            &&& r == IrqHandlerOutcome::Decided(exception_t::EXCEPTION_SYSCALL_ERROR)
            &&& ne == (syscall_error_t { _type: seL4_TruncatedMessage, ..oe })
            &&& n == o
        } else if extra_cap->0 matches cap::notification_cap { capNtfnCanSend, .. } && capNtfnCanSend == 0 {
            &&& r == IrqHandlerOutcome::Decided(exception_t::EXCEPTION_SYSCALL_ERROR)
            &&& ne == (syscall_error_t { _type: seL4_InvalidCapability, invalidCapNumber: 0, ..oe })
            &&& n == o
        } else {
            &&& r == (IrqHandlerOutcome::SetHandler { irq, ntfn: extra_cap->0 })
            &&& ne == oe
            &&& caller_restarted(n, o)
        }
    } else if label == MessageLabel::IRQClearIRQHandler {
        &&& r == (IrqHandlerOutcome::ClearHandler { irq })
        &&& ne == oe
        &&& caller_restarted(n, o)
    } else {
        &&& r == IrqHandlerOutcome::Decided(exception_t::EXCEPTION_SYSCALL_ERROR)
        &&& ne == (syscall_error_t { _type: seL4_IllegalOperation, ..oe })
        &&& n == o
    }
}

/// Decodes an invocation of the handler capability of interrupt `irq`: an acknowledgement
/// only restarts the caller; setting the handler needs an extra capability, which, if it is a
/// notification capability, must allow sending; clearing the handler restarts the caller; any
/// other label is an illegal operation. Errors are recorded in `err` and change nothing else.
pub fn decode_irq_handler_invocation(
    ks: &mut KernelState,
    label: MessageLabel,
    irq: usize,
    extra_cap: Option<cap>,
    err: &mut syscall_error_t,
) -> (r: IrqHandlerOutcome)
    requires
        old(ks).wf(),
    ensures
        final(ks).wf(),
        irq_handler_decoded(*old(ks), *final(ks), *old(err), *final(err), r, label, irq, extra_cap),
{
    match label {
        MessageLabel::IRQAckIRQ => {
            restart_caller(ks);
            IrqHandlerOutcome::Decided(exception_t::EXCEPTION_NONE)
        },
        MessageLabel::IRQSetIRQHandler => {
            let ntfn_cap = match extra_cap {
                None => {
                    err._type = seL4_TruncatedMessage;
                    return IrqHandlerOutcome::Decided(exception_t::EXCEPTION_SYSCALL_ERROR);
                },
                Some(c) => c,
            };
            match ntfn_cap {
                cap::notification_cap { capNtfnCanSend, .. } => {
                    if capNtfnCanSend == 0 {
                        err._type = seL4_InvalidCapability;
                        err.invalidCapNumber = 0;
                        return IrqHandlerOutcome::Decided(exception_t::EXCEPTION_SYSCALL_ERROR);
                    }
                },
                _ => {},
            }
            restart_caller(ks);
            IrqHandlerOutcome::SetHandler { irq, ntfn: ntfn_cap }
        },
        MessageLabel::IRQClearIRQHandler => {
            restart_caller(ks);
            IrqHandlerOutcome::ClearHandler { irq }
        },
        _ => {
            err._type = seL4_IllegalOperation;
            IrqHandlerOutcome::Decided(exception_t::EXCEPTION_SYSCALL_ERROR)
        },
    }
}

/// What an invocation of a scheduling-control capability comes to.
#[derive(Debug, Clone, Copy, PartialEq, Eq, Structural)]
pub enum SchedControlOutcome {
    /// Decided by the decoder, with this result.
    Decided(exception_t),
    /// The scheduling context at `sc` is to run on `core` with `budget` every `period` ticks,
    /// at most `max_refills` refills, `badge` and `flags`; the caller already restarts.
    ConfigureFlags { sc: u64, core: usize, budget: u64, period: u64, max_refills: usize, badge: usize, flags: usize },
}

/// A range error with these bounds, the other details kept.
pub open spec fn range_error(e: syscall_error_t, min: usize, max: usize) -> syscall_error_t {
    syscall_error_t { _type: seL4_RangeError, rangeErrorMin: min, rangeErrorMax: max, ..e }
}

/// The decision of a scheduling-control invocation, from the state before (`o`, `oe`) to the
/// state after (`n`, `ne`). Budget and period are given in microseconds and must lie between
/// the smallest budget and the longest period, the budget not above the period; the number of
/// extra refills must leave room in the target scheduling context. Any label but the
/// configuration records an illegal operation and answers no exception.
pub open spec fn sched_control_decoded(
    o: KernelState,
    n: KernelState,
    oe: syscall_error_t,
    ne: syscall_error_t,
    r: SchedControlOutcome,
    invLabel: MessageLabel,
    length: usize,
    core: usize,
    buffer: &seL4_IPCBuffer,
    extra_cap: Option<Option<cap_sched_context_cap>>,
) -> bool {
    let decided = |res: exception_t, e: syscall_error_t|
        n == o && r == SchedControlOutcome::Decided(res) && ne == e;
    let budget_us = syscall_arg(&o, buffer, 0) as u64;
    let period_us = syscall_arg(&o, buffer, 1) as u64;
    let extra_refills = syscall_arg(&o, buffer, 2);
    let budget = us_to_ticks_spec(budget_us as int);
    let period = us_to_ticks_spec(period_us as int);
    if invLabel != MessageLabel::SchedControlConfigureFlags {
        decided(exception_t::EXCEPTION_NONE, syscall_error_t { _type: seL4_IllegalOperation, ..oe })
    } else if extra_cap is None || length < 5 {
        decided(exception_t::EXCEPTION_SYSCALL_ERROR, syscall_error_t { _type: seL4_TruncatedMessage, ..oe })
    } else {
        match extra_cap->0 {
            None => decided(
                exception_t::EXCEPTION_SYSCALL_ERROR,
                syscall_error_t { _type: seL4_InvalidCapability, invalidCapNumber: 1, ..oe },
            ),
            Some(c) => if budget_us > max_period_us() || budget < min_budget() || period_us > max_period_us()
                || period < min_budget() {
                decided(exception_t::EXCEPTION_SYSCALL_ERROR, range_error(oe, 20, max_period_us() as usize))
            } else if budget > period {
                decided(exception_t::EXCEPTION_SYSCALL_ERROR, range_error(oe, 20, period_us as usize))
            } else if extra_refills + MIN_REFILLS > refill_absolute_max_spec(c) {
                decided(
                    exception_t::EXCEPTION_SYSCALL_ERROR,
                    range_error(oe, 0, (refill_absolute_max_spec(c) - MIN_REFILLS) as usize),
                )
            } else {
                &&& caller_restarted(n, o)
                &&& ne == oe
                &&& r == SchedControlOutcome::ConfigureFlags {
                    sc: c.capSCPtr,
                    core,
                    budget: budget as u64,
                    period: period as u64,
                    max_refills: (extra_refills + MIN_REFILLS) as usize,
                    badge: syscall_arg(&o, buffer, 3),
                    flags: syscall_arg(&o, buffer, 4),
                }
            },
        }
    }
}

/// Decodes an invocation of the scheduling-control capability of `core`. `extra_cap` is the
/// message's first extra capability: `None` when the message carries none, `Some(None)` when
/// it is not a scheduling-context capability.
pub fn decode_sched_control_invocation(
    ks: &mut KernelState,
    invLabel: MessageLabel,
    length: usize,
    core: usize,
    buffer: &seL4_IPCBuffer,
    extra_cap: Option<Option<cap_sched_context_cap>>,
    err: &mut syscall_error_t,
) -> (r: SchedControlOutcome)
    requires
        old(ks).wf(),
        buffer.wf(),
        extra_cap matches Some(Some(c)) ==> 7 <= c.capSCSizeBits < 64 && refill_absolute_max_spec(c) <= usize::MAX,
    ensures
        final(ks).wf(),
        sched_control_decoded(*old(ks), *final(ks), *old(err), *final(err), r, invLabel, length, core, buffer, extra_cap),
{
    if invLabel != MessageLabel::SchedControlConfigureFlags {
        err._type = seL4_IllegalOperation;
        return SchedControlOutcome::Decided(exception_t::EXCEPTION_NONE);
    }
    if extra_cap.is_none() || length < 5 {
        err._type = seL4_TruncatedMessage;
        return SchedControlOutcome::Decided(exception_t::EXCEPTION_SYSCALL_ERROR);
    }
    let budget_us = get_syscall_arg(ks, 0, buffer) as u64;
    let period_us = get_syscall_arg(ks, 1, buffer) as u64;
    let extra_refills = get_syscall_arg(ks, 2, buffer);
    let badge = get_syscall_arg(ks, 3, buffer);
    let flags = get_syscall_arg(ks, 4, buffer);
    let target = match extra_cap {
        Some(Some(c)) => c,
        _ => {
            err._type = seL4_InvalidCapability;
            err.invalidCapNumber = 1;
            return SchedControlOutcome::Decided(exception_t::EXCEPTION_SYSCALL_ERROR);
        },
    };
    let max_us = MAX_PERIOD_US();
    if budget_us > max_us || usToTicks(budget_us) < MIN_BUDGET() || period_us > max_us
        || usToTicks(period_us) < MIN_BUDGET() {
        err._type = seL4_RangeError;
        err.rangeErrorMin = MIN_BUDGET_US() as usize;
        err.rangeErrorMax = max_us as usize;
        return SchedControlOutcome::Decided(exception_t::EXCEPTION_SYSCALL_ERROR);
    }
    let budget = usToTicks(budget_us);
    let period = usToTicks(period_us);
    if budget > period {
        err._type = seL4_RangeError;
        err.rangeErrorMin = MIN_BUDGET_US() as usize;
        err.rangeErrorMax = period_us as usize;
        return SchedControlOutcome::Decided(exception_t::EXCEPTION_SYSCALL_ERROR);
    }
    let max_refills = refill_absolute_max(&target);
    if extra_refills > max_refills - MIN_REFILLS {
        err._type = seL4_RangeError;
        err.rangeErrorMin = 0;
        err.rangeErrorMax = max_refills - MIN_REFILLS;
        return SchedControlOutcome::Decided(exception_t::EXCEPTION_SYSCALL_ERROR);
    }
    restart_caller(ks);
    SchedControlOutcome::ConfigureFlags {
        sc: target.capSCPtr,
        core,
        budget,
        period,
        max_refills: extra_refills + MIN_REFILLS,
        badge,
        flags,
    }
}

/// What an invocation of a scheduling-context capability comes to.
#[derive(Debug, Clone, Copy, PartialEq, Eq, Structural)]
pub enum SchedContextOutcome {
    /// Decided by the decoder, with this result.
    Decided(exception_t),
    /// The context's consumed time is to be reported; the caller already restarts.
    Consumed,
    /// The context is to be unbound from its thread and notification; the caller already
    /// restarts.
    Unbind,
    /// The context is to be unbound from the thread or notification of `object`; the caller
    /// already restarts.
    UnbindObject { object: cap },
    /// A binding or a yield, whose checks read the scheduling-context and yield links of
    /// threads, which `tcb_t` does not hold. Nothing has changed.
    Elsewhere,
}

/// The decision of an unbind-object invocation of `sc`: the extra capability must be a thread
/// or notification capability of the object bound to `sc`, and not of the current thread.
pub open spec fn unbind_object_decoded(
    o: KernelState,
    n: KernelState,
    oe: syscall_error_t,
    ne: syscall_error_t,
    r: SchedContextOutcome,
    sc: &sched_context,
    extra_cap: Option<cap>,
) -> bool {
    let decided = |res: exception_t, e: syscall_error_t|
        n == o && r == SchedContextOutcome::Decided(res) && ne == e;
    let illegal = syscall_error_t { _type: seL4_IllegalOperation, ..oe };
    match extra_cap {
        None => decided(exception_t::EXCEPTION_SYSCALL_ERROR, syscall_error_t { _type: seL4_TruncatedMessage, ..oe }),
        Some(cap::thread_cap { capTCBPtr }) => if sc.scTcb != capTCBPtr || sc.scTcb == o.node.ksCurThread {
            decided(exception_t::EXCEPTION_SYSCALL_ERROR, illegal)
        } else {
            caller_restarted(n, o) && ne == oe && r == SchedContextOutcome::UnbindObject { object: extra_cap->0 }
        },
        Some(cap::notification_cap { capNtfnPtr, .. }) => if sc.scNotification != capNtfnPtr {
            decided(exception_t::EXCEPTION_SYSCALL_ERROR, illegal)
        } else {
            caller_restarted(n, o) && ne == oe && r == SchedContextOutcome::UnbindObject { object: extra_cap->0 }
        },
        Some(_) => decided(
            exception_t::EXCEPTION_SYSCALL_ERROR,
            syscall_error_t { _type: seL4_InvalidCapability, invalidCapNumber: 1, ..oe },
        ),
    }
}

/// Decodes an unbind-object invocation of `sc`, with `extra_cap` the message's first extra
/// capability.
pub fn decodeSchedContext_UnbindObject(
    ks: &mut KernelState,
    sc: &sched_context,
    extra_cap: Option<cap>,
    err: &mut syscall_error_t,
) -> (r: SchedContextOutcome)
    requires
        old(ks).wf(),
    ensures
        final(ks).wf(),
        unbind_object_decoded(*old(ks), *final(ks), *old(err), *final(err), r, sc, extra_cap),
{
    let c = match extra_cap {
        None => {
            err._type = seL4_TruncatedMessage;
            return SchedContextOutcome::Decided(exception_t::EXCEPTION_SYSCALL_ERROR);
        },
        Some(c) => c,
    };
    match c {
        cap::thread_cap { capTCBPtr } => {
            if sc.scTcb as u64 != capTCBPtr || sc.scTcb == ks.node.ksCurThread {
                err._type = seL4_IllegalOperation;
                return SchedContextOutcome::Decided(exception_t::EXCEPTION_SYSCALL_ERROR);
            }
        },
        cap::notification_cap { capNtfnPtr, .. } => {
            if sc.scNotification as u64 != capNtfnPtr {
                err._type = seL4_IllegalOperation;
                return SchedContextOutcome::Decided(exception_t::EXCEPTION_SYSCALL_ERROR);
            }
        },
        _ => {
            err._type = seL4_InvalidCapability;
            err.invalidCapNumber = 1;
            return SchedContextOutcome::Decided(exception_t::EXCEPTION_SYSCALL_ERROR);
        },
    }
    restart_caller(ks);
    SchedContextOutcome::UnbindObject { object: c }
}

/// Decodes an invocation of the scheduling context `sc`: reporting its consumed time and
/// unbinding it restart the caller, unless the context runs the current thread; unbinding an
/// object is decoded by `decodeSchedContext_UnbindObject`; any other label is an illegal
/// operation.
pub fn decode_sched_context_invocation(
    ks: &mut KernelState,
    invLabel: MessageLabel,
    sc: &sched_context,
    extra_cap: Option<cap>,
    err: &mut syscall_error_t,
) -> (r: SchedContextOutcome)
    requires
        old(ks).wf(),
    ensures
        final(ks).wf(),
        invLabel == MessageLabel::SchedContextConsumed ==> caller_restarted(*final(ks), *old(ks))
            && *final(err) == *old(err) && r == SchedContextOutcome::Consumed,
        invLabel == MessageLabel::SchedContextUnbind ==> if sc.scTcb == old(ks).node.ksCurThread {
            &&& *final(ks) == *old(ks)
            &&& *final(err) == (syscall_error_t { _type: seL4_IllegalOperation, ..*old(err) })
            &&& r == SchedContextOutcome::Decided(exception_t::EXCEPTION_SYSCALL_ERROR)
        } else {
            caller_restarted(*final(ks), *old(ks)) && *final(err) == *old(err) && r == SchedContextOutcome::Unbind
        },
        invLabel == MessageLabel::SchedContextUnbindObject ==> unbind_object_decoded(
            *old(ks),
            *final(ks),
            *old(err),
            *final(err),
            r,
            sc,
            extra_cap,
        ),
        invLabel == MessageLabel::SchedContextBind || invLabel == MessageLabel::SchedContextYieldTo ==> {
            &&& *final(ks) == *old(ks)
            &&& *final(err) == *old(err)
            &&& r == SchedContextOutcome::Elsewhere
        },
        !(invLabel == MessageLabel::SchedContextConsumed || invLabel == MessageLabel::SchedContextUnbind
            || invLabel == MessageLabel::SchedContextUnbindObject || invLabel == MessageLabel::SchedContextBind
            || invLabel == MessageLabel::SchedContextYieldTo) ==> {
            &&& *final(ks) == *old(ks)
            &&& *final(err) == (syscall_error_t { _type: seL4_IllegalOperation, ..*old(err) })
            &&& r == SchedContextOutcome::Decided(exception_t::EXCEPTION_SYSCALL_ERROR)
        },
{
    match invLabel {
        MessageLabel::SchedContextConsumed => {
            restart_caller(ks);
            SchedContextOutcome::Consumed
        },
        MessageLabel::SchedContextUnbind => {
            if sc.scTcb == ks.node.ksCurThread {
                err._type = seL4_IllegalOperation;
                return SchedContextOutcome::Decided(exception_t::EXCEPTION_SYSCALL_ERROR);
            }
            restart_caller(ks);
            SchedContextOutcome::Unbind
        },
        MessageLabel::SchedContextUnbindObject => decodeSchedContext_UnbindObject(ks, sc, extra_cap, err),
        MessageLabel::SchedContextBind | MessageLabel::SchedContextYieldTo => SchedContextOutcome::Elsewhere,
        _ => {
            err._type = seL4_IllegalOperation;
            SchedContextOutcome::Decided(exception_t::EXCEPTION_SYSCALL_ERROR)
        },
    }
}

/// The thread that a thread capability names.
fn capability_tcb(capability: &cap) -> (r: u64)
    requires
        capability is thread_cap,
    ensures
        r == capability->thread_cap_capTCBPtr,
{
    match capability {
        cap::thread_cap { capTCBPtr } => *capTCBPtr,
        _ => 0,
    }
}

/// The decision of a register-writing invocation of the thread of `capability`: the message
/// names flags and a count, and must hold that many more words; the thread may not be the
/// current one.
pub open spec fn write_registers_decoded(
    o: KernelState,
    n: KernelState,
    oe: syscall_error_t,
    ne: syscall_error_t,
    r: InvocationOutcome,
    capability: &cap,
    length: usize,
    buffer: &seL4_IPCBuffer,
) -> bool {
    let flags = syscall_arg(&o, buffer, 0);
    let w = syscall_arg(&o, buffer, 1);
    let tcb = capability->thread_cap_capTCBPtr;
    if length < 2 || length - 2 < w {
        &&& r == InvocationOutcome::Decided(exception_t::EXCEPTION_SYSCALL_ERROR)
        &&& ne == (syscall_error_t { _type: seL4_TruncatedMessage, ..oe })
        &&& n == o
    } else if tcb == o.node.ksCurThread {
        &&& r == InvocationOutcome::Decided(exception_t::EXCEPTION_SYSCALL_ERROR)
        &&& ne == (syscall_error_t { _type: seL4_IllegalOperation, ..oe })
        &&& n == o
    } else {
        &&& caller_restarted(n, o)
        &&& ne == oe
        &&& r == InvocationOutcome::WriteRegisters { tcb, resumeTarget: flags % 2 == 1, n: w }
    }
}

/// Decodes a register-writing invocation of the thread of `capability`.
pub fn decode_write_registers(
    ks: &mut KernelState,
    capability: &cap,
    length: usize,
    buffer: &seL4_IPCBuffer,
    err: &mut syscall_error_t,
) -> (r: InvocationOutcome)
    requires
        old(ks).wf(),
        buffer.wf(),
        capability is thread_cap,
    ensures
        final(ks).wf(),
        write_registers_decoded(*old(ks), *final(ks), *old(err), *final(err), r, capability, length, buffer),
{
    if length < 2 {
        err._type = seL4_TruncatedMessage;
        return InvocationOutcome::Decided(exception_t::EXCEPTION_SYSCALL_ERROR);
    }
    let flags = get_syscall_arg(ks, 0, buffer);
    let w = get_syscall_arg(ks, 1, buffer);
    if length - 2 < w {
        err._type = seL4_TruncatedMessage;
        return InvocationOutcome::Decided(exception_t::EXCEPTION_SYSCALL_ERROR);
    }
    let tcb = capability_tcb(capability);
    if tcb == ks.node.ksCurThread as u64 {
        err._type = seL4_IllegalOperation;
        return InvocationOutcome::Decided(exception_t::EXCEPTION_SYSCALL_ERROR);
    }
    restart_caller(ks);
    proof {
        assert(flags & 1 == flags % 2) by (bit_vector);
    }
    InvocationOutcome::WriteRegisters { tcb, resumeTarget: flags & 1 != 0, n: w }
}

/// What a register-copying invocation of the thread of `capability` comes to: a copy from
/// the thread of the first extra capability, as the first message word's flags say.
pub open spec fn copy_registers_outcome(
    o: &KernelState,
    capability: &cap,
    buffer: &seL4_IPCBuffer,
    extra_cap: Option<cap>,
) -> InvocationOutcome {
    InvocationOutcome::CopyRegisters {
        dest: capability->thread_cap_capTCBPtr,
        src: extra_cap->0->thread_cap_capTCBPtr,
        flags: syscall_arg(o, buffer, 0),
    }
}

/// Decodes a register-copying invocation of the thread of `capability`, whose first extra
/// capability names the source thread. The caller does not restart here.
pub fn decode_copy_registers(
    ks: &mut KernelState,
    capability: &cap,
    buffer: &seL4_IPCBuffer,
    extra_cap: Option<cap>,
) -> (r: InvocationOutcome)
    requires
        old(ks).wf(),
        buffer.wf(),
        capability is thread_cap,
        extra_cap matches Some(cap::thread_cap { .. }),
    ensures
        *final(ks) == *old(ks),
        r == copy_registers_outcome(old(ks), capability, buffer, extra_cap),
{
    let flags = get_syscall_arg(ks, 0, buffer);
    let src = match extra_cap {
        Some(c) => capability_tcb(&c),
        None => 0,
    };
    InvocationOutcome::CopyRegisters { dest: capability_tcb(capability), src, flags }
}

/// Whether a new IPC buffer at `addr` is refused, and how: with `derived` the result of
/// deriving the buffer's frame capability, `None` when it is accepted (an address of 0 needs
/// no frame), or the answer and the error kind.
pub open spec fn ipc_buffer_refusal(addr: usize, derived: deriveCap_ret) -> Option<(exception_t, usize)> {
    if addr == 0 {
        None
    } else if derived.status != exception_t::EXCEPTION_NONE {
        Some((derived.status, seL4_IllegalOperation))
    } else {
        match derived.capability {
            cap::frame_cap { capFIsDevice, .. } => if capFIsDevice != 0 {
                Some((exception_t::EXCEPTION_SYSCALL_ERROR, seL4_IllegalOperation))
            } else if addr % 1024 != 0 {
                Some((exception_t::EXCEPTION_SYSCALL_ERROR, seL4_AlignmentError))
            } else {
                None
            },
            _ => Some((exception_t::EXCEPTION_SYSCALL_ERROR, seL4_IllegalOperation)),
        }
    }
}

/// The frame capability that a thread's new IPC buffer at `addr` lies in.
pub open spec fn ipc_buffer_cap(addr: usize, derived: deriveCap_ret) -> cap {
    if addr == 0 { cap::null_cap } else { derived.capability }
}

/// Checks a new IPC buffer at `addr`, as `ipc_buffer_refusal` says, recording the error.
fn check_new_ipc_buffer(addr: usize, derived: deriveCap_ret, err: &mut syscall_error_t) -> (r: Option<exception_t>)
    ensures
        match ipc_buffer_refusal(addr, derived) {
            None => r is None && *final(err) == *old(err),
            Some((x, t)) => r == Some(x) && *final(err) == (syscall_error_t { _type: t, ..*old(err) }),
        },
{
    if addr == 0 {
        return None;
    }
    if derived.status != exception_t::EXCEPTION_NONE {
        err._type = seL4_IllegalOperation;
        return Some(derived.status);
    }
    let st = check_ipc_buffer_vaild(addr, &derived.capability, err);
    if st != exception_t::EXCEPTION_NONE {
        return Some(st);
    }
    None
}

/// Whether new CSpace and VSpace roots are refused, and how: with `croot` and `vroot` the
/// results of deriving the root capabilities (updated with the message's root data), and
/// `roots_deleting` whether the thread's present roots are being deleted. `None` when they are
/// accepted: the CSpace root must be a CNode and the VSpace root a mapped page table.
pub open spec fn space_refusal(croot: deriveCap_ret, vroot: deriveCap_ret, roots_deleting: bool) -> Option<exception_t> {
    if roots_deleting {
        Some(exception_t::EXCEPTION_SYSCALL_ERROR)
    } else if croot.status != exception_t::EXCEPTION_NONE {
        Some(croot.status)
    } else if !(croot.capability is cnode_cap) {
        Some(exception_t::EXCEPTION_SYSCALL_ERROR)
    } else if vroot.status != exception_t::EXCEPTION_NONE {
        Some(vroot.status)
    } else if !(vroot.capability matches cap::page_table_cap { capPTIsMapped, .. } && capPTIsMapped != 0) {
        Some(exception_t::EXCEPTION_SYSCALL_ERROR)
    } else {
        None
    }
}

/// Checks new CSpace and VSpace roots, as `space_refusal` says; every refusal is an illegal
/// operation.
fn check_new_space(croot: deriveCap_ret, vroot: deriveCap_ret, roots_deleting: bool, err: &mut syscall_error_t) -> (r: Option<exception_t>)
    ensures
        r == space_refusal(croot, vroot, roots_deleting),
        r is None ==> *final(err) == *old(err),
        r is Some ==> *final(err) == (syscall_error_t { _type: seL4_IllegalOperation, ..*old(err) }),
{
    let refused = if roots_deleting {
        Some(exception_t::EXCEPTION_SYSCALL_ERROR)
    } else if croot.status != exception_t::EXCEPTION_NONE {
        Some(croot.status)
    } else if !matches!(croot.capability, cap::cnode_cap { .. }) {
        Some(exception_t::EXCEPTION_SYSCALL_ERROR)
    } else if vroot.status != exception_t::EXCEPTION_NONE {
        Some(vroot.status)
    } else if !is_valid_vtable_root(&vroot.capability) {
        Some(exception_t::EXCEPTION_SYSCALL_ERROR)
    } else {
        None
    };
    if refused.is_some() {
        err._type = seL4_IllegalOperation;
    }
    refused
}

/// Decodes an IPC-buffer invocation of the thread of `capability`: the message names the
/// buffer address, and `derived` is what deriving its first extra capability in its slot gave.
pub fn decode_set_ipc_buffer(
    ks: &mut KernelState,
    capability: &cap,
    length: usize,
    buffer: &seL4_IPCBuffer,
    extra_cap: Option<cap>,
    derived: deriveCap_ret,
    err: &mut syscall_error_t,
) -> (r: InvocationOutcome)
    requires
        old(ks).wf(),
        buffer.wf(),
        capability is thread_cap,
    ensures
        final(ks).wf(),
        ({
            let addr = syscall_arg(old(ks), buffer, 0);
            if length < 1 || extra_cap is None {
                &&& r == InvocationOutcome::Decided(exception_t::EXCEPTION_SYSCALL_ERROR)
                &&& *final(err) == (syscall_error_t { _type: seL4_TruncatedMessage, ..*old(err) })
                &&& *final(ks) == *old(ks)
            } else if let Some((x, t)) = ipc_buffer_refusal(addr, derived) {
                &&& r == InvocationOutcome::Decided(x)
                &&& *final(err) == (syscall_error_t { _type: t, ..*old(err) })
                &&& *final(ks) == *old(ks)
            } else {
                &&& caller_restarted(*final(ks), *old(ks))
                &&& *final(err) == *old(err)
                &&& r == InvocationOutcome::SetIPCBuffer {
                    tcb: capability->thread_cap_capTCBPtr,
                    bufferAddr: addr,
                    bufferCap: ipc_buffer_cap(addr, derived),
                }
            }
        }),
{
    if length < 1 || extra_cap.is_none() {
        err._type = seL4_TruncatedMessage;
        return InvocationOutcome::Decided(exception_t::EXCEPTION_SYSCALL_ERROR);
    }
    let addr = get_syscall_arg(ks, 0, buffer);
    if let Some(x) = check_new_ipc_buffer(addr, derived, err) {
        return InvocationOutcome::Decided(x);
    }
    let buffer_cap = if addr == 0 { cap::null_cap } else { derived.capability };
    restart_caller(ks);
    InvocationOutcome::SetIPCBuffer { tcb: capability_tcb(capability), bufferAddr: addr, bufferCap: buffer_cap }
}

/// Decodes a space invocation of the thread of `capability`: the message names the fault
/// endpoint and the root data, its first two extra capabilities are the new roots, `croot` and
/// `vroot` what deriving them (updated with the root data) gave, and `roots_deleting` whether
/// the thread's present CSpace or VSpace root is being deleted.
pub fn decode_set_space(
    ks: &mut KernelState,
    capability: &cap,
    length: usize,
    buffer: &seL4_IPCBuffer,
    extra_caps: (Option<cap>, Option<cap>),
    croot: deriveCap_ret,
    vroot: deriveCap_ret,
    roots_deleting: bool,
    err: &mut syscall_error_t,
) -> (r: InvocationOutcome)
    requires
        old(ks).wf(),
        buffer.wf(),
        capability is thread_cap,
    ensures
        final(ks).wf(),
        if length < 3 || extra_caps.0 is None || extra_caps.1 is None {
            &&& r == InvocationOutcome::Decided(exception_t::EXCEPTION_SYSCALL_ERROR)
            &&& *final(err) == (syscall_error_t { _type: seL4_TruncatedMessage, ..*old(err) })
            &&& *final(ks) == *old(ks)
        } else if let Some(x) = space_refusal(croot, vroot, roots_deleting) {
            &&& r == InvocationOutcome::Decided(x)
            &&& *final(err) == (syscall_error_t { _type: seL4_IllegalOperation, ..*old(err) })
            &&& *final(ks) == *old(ks)
        } else {
            &&& caller_restarted(*final(ks), *old(ks))
            &&& *final(err) == *old(err)
            &&& r == InvocationOutcome::SetSpace {
                tcb: capability->thread_cap_capTCBPtr,
                faultEP: syscall_arg(old(ks), buffer, 0),
                croot: croot.capability,
                vroot: vroot.capability,
            }
        },
{
    if length < 3 || extra_caps.0.is_none() || extra_caps.1.is_none() {
        err._type = seL4_TruncatedMessage;
        return InvocationOutcome::Decided(exception_t::EXCEPTION_SYSCALL_ERROR);
    }
    let fault_ep = get_syscall_arg(ks, 0, buffer);
    if let Some(x) = check_new_space(croot, vroot, roots_deleting, err) {
        return InvocationOutcome::Decided(x);
    }
    restart_caller(ks);
    InvocationOutcome::SetSpace { tcb: capability_tcb(capability), faultEP: fault_ep, croot: croot.capability, vroot: vroot.capability }
}

/// Decodes a configuration of the thread of `capability`: the message names the fault
/// endpoint, the root data and the IPC buffer address; its three extra capabilities are the
/// new CSpace and VSpace roots and the buffer frame, and `croot`, `vroot` and `derived_buffer`
/// what deriving them (the roots updated with the root data) gave; `roots_deleting` says
/// whether the thread's present CSpace or VSpace root is being deleted. The buffer is checked
/// before the roots.
pub fn decode_tcb_configure(
    ks: &mut KernelState,
    capability: &cap,
    length: usize,
    buffer: &seL4_IPCBuffer,
    extra_caps: (Option<cap>, Option<cap>, Option<cap>),
    croot: deriveCap_ret,
    vroot: deriveCap_ret,
    derived_buffer: deriveCap_ret,
    roots_deleting: bool,
    err: &mut syscall_error_t,
) -> (r: InvocationOutcome)
    requires
        old(ks).wf(),
        buffer.wf(),
        capability is thread_cap,
    ensures
        final(ks).wf(),
        ({
            let addr = syscall_arg(old(ks), buffer, 3);
            if length < 4 || extra_caps.0 is None || extra_caps.1 is None || extra_caps.2 is None {
                &&& r == InvocationOutcome::Decided(exception_t::EXCEPTION_SYSCALL_ERROR)
                &&& *final(err) == (syscall_error_t { _type: seL4_TruncatedMessage, ..*old(err) })
                &&& *final(ks) == *old(ks)
            } else if let Some((x, t)) = ipc_buffer_refusal(addr, derived_buffer) {
                &&& r == InvocationOutcome::Decided(x)
                &&& *final(err) == (syscall_error_t { _type: t, ..*old(err) })
                &&& *final(ks) == *old(ks)
            } else if let Some(x) = space_refusal(croot, vroot, roots_deleting) {
                &&& r == InvocationOutcome::Decided(x)
                &&& *final(err) == (syscall_error_t { _type: seL4_IllegalOperation, ..*old(err) })
                &&& *final(ks) == *old(ks)
            } else {
                &&& caller_restarted(*final(ks), *old(ks))
                &&& *final(err) == *old(err)
                &&& r == InvocationOutcome::Configure {
                    tcb: capability->thread_cap_capTCBPtr,
                    faultEP: syscall_arg(old(ks), buffer, 0),
                    croot: croot.capability,
                    vroot: vroot.capability,
                    bufferAddr: addr,
                    bufferCap: ipc_buffer_cap(addr, derived_buffer),
                }
            }
        }),
{
    if length < 4 || extra_caps.0.is_none() || extra_caps.1.is_none() || extra_caps.2.is_none() {
        err._type = seL4_TruncatedMessage;
        return InvocationOutcome::Decided(exception_t::EXCEPTION_SYSCALL_ERROR);
    }
    let fault_ep = get_syscall_arg(ks, 0, buffer);
    let addr = get_syscall_arg(ks, 3, buffer);
    if let Some(x) = check_new_ipc_buffer(addr, derived_buffer, err) {
        return InvocationOutcome::Decided(x);
    }
    if let Some(x) = check_new_space(croot, vroot, roots_deleting, err) {
        return InvocationOutcome::Decided(x);
    }
    let buffer_cap = if addr == 0 { cap::null_cap } else { derived_buffer.capability };
    restart_caller(ks);
    InvocationOutcome::Configure {
        tcb: capability_tcb(capability),
        faultEP: fault_ep,
        croot: croot.capability,
        vroot: vroot.capability,
        bufferAddr: addr,
        bufferCap: buffer_cap,
    }
}

/// What an invocation of the interrupt-control capability comes to.
#[derive(Debug, Clone, Copy, PartialEq, Eq, Structural)]
pub enum IrqControlOutcome {
    /// Decided by the decoder, with this result.
    Decided(exception_t),
    /// A handler capability for interrupt `irq` is to be issued into the slot at `dest`; the
    /// caller already restarts.
    IssueHandler { irq: usize, dest: usize },
}

/// The decision of an interrupt-control invocation, from the state before (`o`, `oe`, `olf`)
/// to the state after (`n`, `ne`, `nlf`). `irq_active[i]` says whether interrupt `i` has a
/// handler (the last index is the highest interrupt); `res_ret` is what resolving the
/// message's slot index under the first extra capability gave, and `dest_cap` the capability
/// in the slot it names. The plain label asks for an empty slot; the label with a trigger does
/// not check the slot.
pub open spec fn irq_control_decoded(
    o: KernelState,
    n: KernelState,
    oe: syscall_error_t,
    ne: syscall_error_t,
    olf: lookup_fault,
    nlf: lookup_fault,
    r: IrqControlOutcome,
    label: MessageLabel,
    length: usize,
    buffer: &seL4_IPCBuffer,
    extra_cap: Option<cap>,
    irq_active: Seq<bool>,
    res_ret: resolveAddressBits_ret_t,
    dest_cap: cap,
) -> bool {
    let decided = |x: exception_t, e: syscall_error_t|
        n == o && r == IrqControlOutcome::Decided(x) && ne == e && nlf == olf;
    let plain = label == MessageLabel::IRQIssueIRQHandler;
    let trigger = label == MessageLabel::ARMIRQIssueIRQHandlerTrigger;
    let irq = syscall_arg(&o, buffer, 0);
    let depth = syscall_arg(&o, buffer, if plain { 2 } else { 3 });
    let max_irq = irq_active.len() - 1;
    if !plain && !trigger {
        decided(exception_t::EXCEPTION_SYSCALL_ERROR, syscall_error_t { _type: seL4_IllegalOperation, ..oe })
    } else if length < (if plain { 3usize } else { 4usize }) || extra_cap is None {
        decided(exception_t::EXCEPTION_SYSCALL_ERROR, syscall_error_t { _type: seL4_TruncatedMessage, ..oe })
    } else if irq > max_irq {
        decided(
            exception_t::EXCEPTION_SYSCALL_ERROR,
            syscall_error_t { _type: seL4_RangeError, rangeErrorMin: 0, rangeErrorMax: max_irq as usize, ..oe },
        )
    } else if irq_active[irq as int] {
        decided(exception_t::EXCEPTION_SYSCALL_ERROR, syscall_error_t { _type: seL4_RevokeFirst, ..oe })
    } else if lookup_slot_result(&extra_cap->0, depth, res_ret).status != exception_t::EXCEPTION_NONE {
        let (e, lf) = lookup_slot_effect(false, &extra_cap->0, depth, res_ret, oe, olf);
        &&& n == o
        &&& r == IrqControlOutcome::Decided(exception_t::EXCEPTION_SYSCALL_ERROR)
        &&& ne == e
        &&& nlf == lf
    } else if plain && !(dest_cap is null_cap) {
        decided(exception_t::EXCEPTION_SYSCALL_ERROR, syscall_error_t { _type: seL4_DeleteFirst, ..oe })
    } else {
        &&& caller_restarted(n, o)
        &&& ne == oe
        &&& nlf == olf
        &&& r == IrqControlOutcome::IssueHandler { irq, dest: res_ret.slot }
    }
}

/// Decodes an invocation of the interrupt-control capability: issuing a handler capability
/// for an interrupt, with or without a trigger mode, into a slot named by the message.
pub fn decode_irq_control_invocation(
    ks: &mut KernelState,
    label: MessageLabel,
    length: usize,
    buffer: &seL4_IPCBuffer,
    extra_cap: Option<cap>,
    irq_active: &Vec<bool>,
    res_ret: resolveAddressBits_ret_t,
    dest_cap: cap,
    err: &mut syscall_error_t,
    current_lookup_fault: &mut lookup_fault,
) -> (r: IrqControlOutcome)
    requires
        old(ks).wf(),
        buffer.wf(),
        irq_active.len() >= 1,
    ensures
        final(ks).wf(),
        irq_control_decoded(
            *old(ks),
            *final(ks),
            *old(err),
            *final(err),
            *old(current_lookup_fault),
            *final(current_lookup_fault),
            r,
            label,
            length,
            buffer,
            extra_cap,
            irq_active@,
            res_ret,
            dest_cap,
        ),
{
    let plain = label == MessageLabel::IRQIssueIRQHandler;
    if !plain && label != MessageLabel::ARMIRQIssueIRQHandlerTrigger {
        err._type = seL4_IllegalOperation;
        return IrqControlOutcome::Decided(exception_t::EXCEPTION_SYSCALL_ERROR);
    }
    let min_length: usize = if plain { 3 } else { 4 };
    let cnode = match extra_cap {
        Some(c) => c,
        None => {
            err._type = seL4_TruncatedMessage;
            return IrqControlOutcome::Decided(exception_t::EXCEPTION_SYSCALL_ERROR);
        },
    };
    if length < min_length {
        err._type = seL4_TruncatedMessage;
        return IrqControlOutcome::Decided(exception_t::EXCEPTION_SYSCALL_ERROR);
    }
    let irq = get_syscall_arg(ks, 0, buffer);
    let depth = get_syscall_arg(ks, if plain { 2 } else { 3 }, buffer);
    let max_irq = irq_active.len() - 1;
    if irq > max_irq {
        err._type = seL4_RangeError;
        err.rangeErrorMin = 0;
        err.rangeErrorMax = max_irq;
        return IrqControlOutcome::Decided(exception_t::EXCEPTION_SYSCALL_ERROR);
    }
    if irq_active[irq] {
        err._type = seL4_RevokeFirst;
        return IrqControlOutcome::Decided(exception_t::EXCEPTION_SYSCALL_ERROR);
    }
    let lu_ret = lookupSlotForCNodeOp(false, &cnode, depth, res_ret, err, current_lookup_fault);
    if lu_ret.status != exception_t::EXCEPTION_NONE {
        return IrqControlOutcome::Decided(lu_ret.status);
    }
    if plain && !matches!(dest_cap, cap::null_cap) {
        err._type = seL4_DeleteFirst;
        return IrqControlOutcome::Decided(exception_t::EXCEPTION_SYSCALL_ERROR);
    }
    restart_caller(ks);
    IrqControlOutcome::IssueHandler { irq, dest: lu_ret.slot }
}
} // verus!
