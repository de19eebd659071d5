//! System-call entry: which handler a system-call number asks for, the yield handled here,
//! and the scheduling that ends every system call.
use vstd::prelude::*;
use crate::fault::ThreadState;
use crate::invocation::{handle_yield, yielded_from};
use crate::scheduler::{
    strip_sched, KernelState, activateThread, schedule, SchedulerAction_ChooseNewThread,
    SchedulerAction_ResumeCurrentThread,
};
use crate::structures::exception_t;
use crate::tcb::is_runnable_spec;

verus! {

/// Call: send and wait for the reply.
pub const SysCall: isize = -1;
/// Reply, then receive.
pub const SysReplyRecv: isize = -2;
/// Blocking send.
pub const SysSend: isize = -3;
/// Non-blocking send.
pub const SysNBSend: isize = -4;
/// Blocking receive.
pub const SysRecv: isize = -5;
/// Reply.
pub const SysReply: isize = -6;
/// Yield the processor.
pub const SysYield: isize = -7;
/// Non-blocking receive.
pub const SysNBRecv: isize = -8;
/// Highest system-call number.
pub const SYSCALL_MAX: isize = SysCall;
/// Lowest system-call number.
pub const SYSCALL_MIN: isize = SysNBRecv;

/// The handler a system call asks for: an invocation, a receive, a reply or a reply and
/// receive, which are the work of the endpoint and notification code outside this library
/// and come before `handleSyscall`, or the yield, which `handleSyscall` carries out.
#[derive(Debug, Clone, Copy, PartialEq, Eq, Structural)]
pub enum SyscallHandler {
    /// An invocation of the capability in the capability register.
    Invocation { isCall: bool, isBlocking: bool },
    /// A receive on the capability in the capability register.
    Recv { isBlocking: bool },
    /// A reply to the caller.
    Reply,
    /// A reply to the caller followed by a blocking receive.
    ReplyRecv,
    /// The yield.
    Yield,
}

/// The handler that system call `syscall` asks for.
pub open spec fn syscall_handler(syscall: int) -> SyscallHandler {
    if syscall == SysSend {
        SyscallHandler::Invocation { isCall: false, isBlocking: true }
    } else if syscall == SysNBSend {
        SyscallHandler::Invocation { isCall: false, isBlocking: false }
    } else if syscall == SysCall {
        SyscallHandler::Invocation { isCall: true, isBlocking: true }
    } else if syscall == SysRecv {
        SyscallHandler::Recv { isBlocking: true }
    } else if syscall == SysReply {
        SyscallHandler::Reply
    } else if syscall == SysReplyRecv {
        SyscallHandler::ReplyRecv
    } else if syscall == SysNBRecv {
        SyscallHandler::Recv { isBlocking: false }
    } else {
        SyscallHandler::Yield
    }
}

/// The handler that system call `syscall` (a number between `SYSCALL_MIN` and `SYSCALL_MAX`)
/// asks for.
pub fn syscall_handler_of(syscall: usize) -> (r: SyscallHandler)
    requires
        SYSCALL_MIN <= syscall as isize <= SYSCALL_MAX,
    ensures
        r == syscall_handler(syscall as isize as int),
        syscall_handler_documented(syscall as isize as int, r),
{
    let syscall: isize = syscall as isize;
    if syscall == SysSend {
        SyscallHandler::Invocation { isCall: false, isBlocking: true }
    } else if syscall == SysNBSend {
        SyscallHandler::Invocation { isCall: false, isBlocking: false }
    } else if syscall == SysCall {
        SyscallHandler::Invocation { isCall: true, isBlocking: true }
    } else if syscall == SysRecv {
        SyscallHandler::Recv { isBlocking: true }
    } else if syscall == SysReply {
        SyscallHandler::Reply
    } else if syscall == SysReplyRecv {
        SyscallHandler::ReplyRecv
    } else if syscall == SysNBRecv {
        SyscallHandler::Recv { isBlocking: false }
    } else {
        SyscallHandler::Yield
    }
}

/// Handles system call `syscall` (a number between `SYSCALL_MIN` and `SYSCALL_MAX`), in a
/// state in which the send, receive or reply that it asks for (see `syscall_handler_of`) has
/// been done: a yield is carried out here; then, whatever the call, the pending scheduler
/// action is carried out and the thread that is then current resumes. A yield is made by the
/// current thread, which can run.
pub fn handleSyscall(ks: &mut KernelState, syscall: usize) -> (r: exception_t)
    requires
        old(ks).wf(),
        SYSCALL_MIN <= syscall as isize <= SYSCALL_MAX,
        ready_to_schedule(old(ks)),
        syscall_handler(syscall as isize as int) == SyscallHandler::Yield ==> is_runnable_spec(
            old(ks).tcbs@[old(ks).node.ksCurThread as int].tcbState.tsType,
        ),
    ensures
        final(ks).wf(),
        r == exception_t::EXCEPTION_NONE,
        final(ks).node.ksSchedulerAction == SchedulerAction_ResumeCurrentThread,
        final(ks).node.ksIdleThread == old(ks).node.ksIdleThread,
        ({
            let c = final(ks).node.ksCurThread;
            let st = final(ks).tcbs@[c as int].tcbState.tsType;
            st == ThreadState::ThreadStateRunning || (c == final(ks).node.ksIdleThread && st
                == ThreadState::ThreadStateIdleThreadState)
        }),
        syscall_handler(syscall as isize as int) != SyscallHandler::Yield
            && old(ks).node.ksSchedulerAction == SchedulerAction_ResumeCurrentThread
            && old(ks).tcbs@[old(ks).node.ksCurThread as int].tcbState.tsType != ThreadState::ThreadStateRestart
            ==> *final(ks) == *old(ks),
        syscall_handled_from(final(ks), old(ks), syscall as isize as int),
{
    let handler = syscall_handler_of(syscall);
    if handler == SyscallHandler::Yield {
        handle_yield(ks);
        proof {
            lemma_yield_ready(*old(ks), *ks);
        }
    }
    schedule_after_syscall(ks)
}

/// After a yield by a runnable current thread, the state is fit to be scheduled.
proof fn lemma_yield_ready(o: KernelState, y: KernelState)
    requires
        o.wf(),
        y.wf(),
        ready_to_schedule(&o),
        is_runnable_spec(o.tcbs@[o.node.ksCurThread as int].tcbState.tsType),
        y.node.ksSchedulerAction == SchedulerAction_ChooseNewThread,
        y.node.ksCurThread == o.node.ksCurThread,
        y.node.ksIdleThread == o.node.ksIdleThread,
        !o.valid_tcb(o.node.ksSchedulerAction as int) ==> y.requeued_from(&o, o.node.ksCurThread as int),
        o.valid_tcb(o.node.ksSchedulerAction as int) ==> exists|mid: KernelState|
            {
                &&& #[trigger] mid.requeued_from(&o, o.node.ksCurThread as int)
                &&& y.enqueued_from(&mid, o.node.ksSchedulerAction as int)
            },
    ensures
        ready_to_schedule(&y),
{
    let c = o.node.ksCurThread as int;
    let a = o.node.ksSchedulerAction as int;
    let mid = if o.valid_tcb(a) {
        choose|mid: KernelState|
            {
                &&& #[trigger] mid.requeued_from(&o, c)
                &&& y.enqueued_from(&mid, a)
            }
    } else {
        y
    };
    assert(y.same_threads(&o)) by {
        if o.valid_tcb(a) {
            assert forall|j: int| 0 <= j < y.tcbs.len() implies strip_sched(#[trigger] y.tcbs@[j]) == strip_sched(
                o.tcbs@[j],
            ) by {
                assert(strip_sched(y.tcbs@[j]) == strip_sched(mid.tcbs@[j]));
                assert(strip_sched(mid.tcbs@[j]) == strip_sched(o.tcbs@[j]));
            }
        }
    }
    assert forall|t: int| 2 <= t < y.tcbs.len() && #[trigger] y.queued(t) implies is_runnable_spec(
        y.tcbs@[t].tcbState.tsType,
    ) by {
        assert(strip_sched(y.tcbs@[t]) == strip_sched(o.tcbs@[t]));
        if t != c && !(o.valid_tcb(a) && t == a) {
            if o.valid_tcb(a) {
                assert(y.queued(t) == mid.queued(t));
                assert(mid.queued(t) == o.queued(t));
            } else {
                assert(y.queued(t) == o.queued(t));
            }
        }
    }
    assert(strip_sched(y.tcbs@[c]) == strip_sched(o.tcbs@[c]));
    assert(strip_sched(y.tcbs@[y.node.ksIdleThread as int]) == strip_sched(o.tcbs@[o.node.ksIdleThread as int]));
}

/// Whether the current thread and the pending candidate are fit to be scheduled: every queued
/// thread and the pending candidate can run, the current thread can run or is the idle
/// thread unless a new scheduling decision is pending, and the idle thread is in its idle
/// state.
pub open spec fn ready_to_schedule(ks: &KernelState) -> bool {
    let c = ks.tcbs@[ks.node.ksCurThread as int].tcbState.tsType;
    &&& ks.queued_runnable()
    &&& ks.valid_tcb(ks.node.ksSchedulerAction as int) ==> is_runnable_spec(
        ks.tcbs@[ks.node.ksSchedulerAction as int].tcbState.tsType,
    )
    &&& (is_runnable_spec(c) || ks.node.ksCurThread == ks.node.ksIdleThread
        || ks.node.ksSchedulerAction != SchedulerAction_ResumeCurrentThread)
    &&& ks.tcbs@[ks.node.ksIdleThread as int].tcbState.tsType == ThreadState::ThreadStateIdleThreadState
}

/// The state `n` that ending a system call gives from `o`: the pending scheduler action is
/// carried out (`scheduled_from`) and the thread that is then current activated
/// (`activated_from`).
pub open spec fn ended_from(n: &KernelState, o: &KernelState) -> bool {
    exists|s: KernelState| #[trigger] s.scheduled_from(o) && n.activated_from(&s)
}

/// The state `n` that system call `syscall` gives from `o`, once its send, receive or reply
/// work is done: a yield (`yielded_from`) if it asks for one, then the end of the call.
pub open spec fn syscall_handled_from(n: &KernelState, o: &KernelState, syscall: int) -> bool {
    if syscall_handler(syscall) == SyscallHandler::Yield {
        exists|y: KernelState| #[trigger] yielded_from(&y, o) && ended_from(n, &y)
    } else {
        ended_from(n, o)
    }
}

/// Ends a system call: carries out the pending scheduler action and resumes the thread that
/// is then current.
pub fn schedule_after_syscall(ks: &mut KernelState) -> (r: exception_t)
    requires
        old(ks).wf(),
        ready_to_schedule(old(ks)),
    ensures
        final(ks).wf(),
        r == exception_t::EXCEPTION_NONE,
        final(ks).node.ksSchedulerAction == SchedulerAction_ResumeCurrentThread,
        final(ks).node.ksIdleThread == old(ks).node.ksIdleThread,
        old(ks).node.ksSchedulerAction == SchedulerAction_ResumeCurrentThread
            && old(ks).tcbs@[old(ks).node.ksCurThread as int].tcbState.tsType != ThreadState::ThreadStateRestart
            ==> *final(ks) == *old(ks),
        ({
            let c = final(ks).node.ksCurThread;
            let st = final(ks).tcbs@[c as int].tcbState.tsType;
            st == ThreadState::ThreadStateRunning || (c == final(ks).node.ksIdleThread && st
                == ThreadState::ThreadStateIdleThreadState)
        }),
        ended_from(final(ks), old(ks)),
{
    schedule(ks);
    let ghost k = *ks;
    proof {
        let o = *old(ks);
        let c = k.node.ksCurThread as int;
        assert(crate::scheduler::strip_sched(k.tcbs@[c]) == crate::scheduler::strip_sched(o.tcbs@[c]));
        assert(crate::scheduler::strip_sched(k.tcbs@[k.node.ksIdleThread as int]) == crate::scheduler::strip_sched(
            o.tcbs@[o.node.ksIdleThread as int],
        ));
    }
    proof {
        assert(k.scheduled_from(old(ks)));
    }
    activateThread(ks);
    proof {
        assert(ks.activated_from(&k));
    }
    exception_t::EXCEPTION_NONE
}


/// Takes system call `syscall` on the slow path: a number outside `SYSCALL_MIN` to
/// `SYSCALL_MAX` is an unknown system call, whose fault is raised by the fault-delivery code
/// (`None`, nothing changed); any other is handled by `handleSyscall`.
pub fn slowpath(ks: &mut KernelState, syscall: usize) -> (r: Option<exception_t>)
    requires
        old(ks).wf(),
        SYSCALL_MIN <= syscall as isize <= SYSCALL_MAX ==> ready_to_schedule(old(ks)),
        SYSCALL_MIN <= syscall as isize <= SYSCALL_MAX && syscall_handler(syscall as isize as int)
            == SyscallHandler::Yield ==> is_runnable_spec(
            old(ks).tcbs@[old(ks).node.ksCurThread as int].tcbState.tsType,
        ),
    ensures
        final(ks).wf(),
        !(SYSCALL_MIN <= syscall as isize <= SYSCALL_MAX) ==> r is None && *final(ks) == *old(ks),
        SYSCALL_MIN <= syscall as isize <= SYSCALL_MAX ==> {
            &&& r == Some(exception_t::EXCEPTION_NONE)
            &&& syscall_handled_from(final(ks), old(ks), syscall as isize as int)
            &&& final(ks).node.ksSchedulerAction == SchedulerAction_ResumeCurrentThread
            &&& ({
                let c = final(ks).node.ksCurThread;
                let st = final(ks).tcbs@[c as int].tcbState.tsType;
                st == ThreadState::ThreadStateRunning || (c == final(ks).node.ksIdleThread && st
                    == ThreadState::ThreadStateIdleThreadState)
            })
        },
{
    let s: isize = syscall as isize;
    if s < SYSCALL_MIN || s > SYSCALL_MAX {
        None
    } else {
        Some(handleSyscall(ks, syscall))
    }
}

/// What the system-call numbers mean: the three sends (blocking send, non-blocking send, call)
/// are invocations, blocking except the non-blocking send, and only the call waits for a
/// reply; the two receives block except the non-blocking receive; reply, reply-and-receive
/// and yield are themselves.
pub open spec fn syscall_handler_documented(s: int, h: SyscallHandler) -> bool {
    &&& (h is Invocation <==> (s == SysSend || s == SysNBSend || s == SysCall))
    &&& (h matches SyscallHandler::Invocation { isCall, isBlocking } ==> (isCall <==> s == SysCall) && (isBlocking
        <==> s != SysNBSend))
    &&& (h is Recv <==> (s == SysRecv || s == SysNBRecv))
    &&& (h matches SyscallHandler::Recv { isBlocking } ==> (isBlocking <==> s == SysRecv))
    &&& (h is Reply <==> s == SysReply)
    &&& (h is ReplyRecv <==> s == SysReplyRecv)
    &&& (h is Yield <==> s == SysYield)
}

/// Every system-call number between `SYSCALL_MIN` and `SYSCALL_MAX` asks for the handler its
/// name says; in particular a blocking and a non-blocking send differ only in blocking, and
/// so do the two receives.
pub proof fn lemma_syscall_handlers(s: int)
    requires
        SYSCALL_MIN <= s <= SYSCALL_MAX,
    ensures
        syscall_handler_documented(s, syscall_handler(s)),
        syscall_handler(SysSend as int) != syscall_handler(SysNBSend as int),
        syscall_handler(SysRecv as int) != syscall_handler(SysNBRecv as int),
{
}
} // verus!
