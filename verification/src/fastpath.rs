//! Checks and copies of the IPC fast path.
use vstd::prelude::*;
use crate::cap::{cap, cte_t};
use crate::tcb::{tcb_t, n_contextRegisters, same_but_mrs};
use crate::scheduler::KernelState;
use crate::config::{tcbCTable, tcbVTable, tcbCaller, CONFIG_NUM_PRIORITIES};
use crate::fault::seL4_Fault;
use crate::notification::{notification_t, NtfnState_Active};

verus! {

/// Width of the length field of a message-info word.
pub const seL4_MsgLengthBits: u64 = 7;
/// Width of the extra-capability count field of a message-info word.
pub const seL4_MsgExtraCapBits: u64 = 2;

/// Whether a message cannot take the fast path: its length and extra-capability fields,
/// taken together as the low nine bits of the message-info word, exceed 4 (so it carries
/// extra capabilities or more words than the machine message registers hold).
pub fn fastpath_mi_check(msgInfo: usize) -> (r: bool)
    ensures
        r == (msgInfo % 512 > 4),
{
    let m: usize = crate::utils::MASK(seL4_MsgLengthBits + seL4_MsgExtraCapBits) as usize;
    proof {
        vstd::arithmetic::power2::lemma2_to64();
        assert(m == 511);
        assert(msgInfo & 511usize == msgInfo % 512) by (bit_vector);
    }
    (msgInfo & m) > 4
}

/// Whether a capability can be a thread's VSpace root on the fast path: a mapped page table.
pub fn isValidVTableRoot_fp(capability: &cap) -> (r: bool)
    ensures
        r == (match *capability {
            cap::page_table_cap { capPTIsMapped, .. } => capPTIsMapped != 0,
            _ => false,
        }),
{
    match capability {
        cap::page_table_cap { capPTIsMapped, .. } => *capPTIsMapped != 0,
        _ => false,
    }
}

/// Copies the first `length` machine message registers of `src` to `dest`.
pub fn fastpath_copy_mrs(length: usize, src: &tcb_t, dest: &mut tcb_t)
    requires
        src.wf(),
        old(dest).wf(),
        2 + length <= n_contextRegisters,
    ensures
        final(dest).wf(),
        forall|k: int|
            0 <= k < n_contextRegisters ==> #[trigger] final(dest).tcbArch.registers@[k] == if 2 <= k < 2 + length {
                src.tcbArch.registers@[k]
            } else {
                old(dest).tcbArch.registers@[k]
            },
        final(dest).ipcBuffer.msg@ == old(dest).ipcBuffer.msg@,
        same_but_mrs(*old(dest), *final(dest)),
{
    let mut i: usize = 2;
    while i < 2 + length
        invariant
            2 <= i <= 2 + length,
            2 + length <= n_contextRegisters,
            src.wf(),
            dest.wf(),
            forall|k: int|
                0 <= k < n_contextRegisters ==> #[trigger] dest.tcbArch.registers@[k] == if 2 <= k < i {
                    src.tcbArch.registers@[k]
                } else {
                    old(dest).tcbArch.registers@[k]
                },
            dest.ipcBuffer.msg@ == old(dest).ipcBuffer.msg@,
            same_but_mrs(*old(dest), *dest),
        decreases 2 + length - i,
    {
        let v = src.tcbArch.registers[i];
        dest.tcbArch.registers.set(i, v);
        i = i + 1;
    }
}


/// Bits in a capability pointer.
pub const fp_wordBits: u64 = 64;

/// The capability that the fast-path lookup of `cptr` reaches from CNode capability `c`,
/// `bits` bits of `cptr` having been resolved already: the guard of `c` must match the next
/// bits of `cptr`, the bits after it select a slot of the CNode, and the walk goes on through
/// the capability found there while it is a CNode capability and bits of `cptr` remain. A guard
/// that does not match, or more bits resolved than `cptr` has, give the null capability.
/// `slots` holds every capability slot, a CNode's slots starting at its pointer.
pub open spec fn lookup_fp_from(slots: Seq<cte_t>, c: cap, cptr: u64, bits: u64) -> cap
    decreases fp_wordBits - bits,
{
    match c {
        cap::cnode_cap { capCNodeRadix, capCNodeGuardSize, capCNodeGuard, capCNodePtr } => {
            let cptr2 = cptr << bits;
            if capCNodeGuardSize != 0 && cptr2 >> ((fp_wordBits - capCNodeGuardSize) as u64) != capCNodeGuard {
                cap::null_cap
            } else {
                let radix = (cptr2 << capCNodeGuardSize) >> ((fp_wordBits - capCNodeRadix) as u64);
                let next = slots[capCNodePtr + radix].capability;
                let nbits = bits + capCNodeGuardSize + capCNodeRadix;
                if bits < nbits < fp_wordBits && next is cnode_cap {
                    lookup_fp_from(slots, next, cptr, nbits as u64)
                } else if nbits > fp_wordBits {
                    cap::null_cap
                } else {
                    next
                }
            }
        },
        _ => cap::null_cap,
    }
}

/// Whether the fast-path lookup of `cptr` from CNode capability `c`, `bits` bits resolved,
/// stays within what the machine can do: every CNode it passes has a guard narrower than a
/// word, a radix of one to 64 bits, and the slot it selects lies in `slots`.
pub open spec fn lookup_fp_defined(slots: Seq<cte_t>, c: cap, cptr: u64, bits: u64) -> bool
    decreases fp_wordBits - bits,
{
    match c {
        cap::cnode_cap { capCNodeRadix, capCNodeGuardSize, capCNodeGuard, capCNodePtr } => {
            let cptr2 = cptr << bits;
            &&& bits < fp_wordBits
            &&& capCNodeGuardSize < fp_wordBits
            &&& 1 <= capCNodeRadix <= fp_wordBits
            &&& !(capCNodeGuardSize != 0 && cptr2 >> ((fp_wordBits - capCNodeGuardSize) as u64) != capCNodeGuard) ==> {
                let radix = (cptr2 << capCNodeGuardSize) >> ((fp_wordBits - capCNodeRadix) as u64);
                let next = slots[capCNodePtr + radix].capability;
                let nbits = bits + capCNodeGuardSize + capCNodeRadix;
                &&& capCNodePtr + radix < slots.len()
                &&& (bits < nbits < fp_wordBits && next is cnode_cap) ==> lookup_fp_defined(
                    slots,
                    next,
                    cptr,
                    nbits as u64,
                )
            }
        },
        _ => true,
    }
}

/// Looks up capability pointer `cptr` in the CNode of `capability` the fast way: the null
/// capability unless `capability` is a CNode capability, else the capability that
/// `lookup_fp_from` reaches.
pub fn lookup_fp(slots: &Vec<cte_t>, capability: &cap, cptr: usize) -> (r: cap)
    requires
        lookup_fp_defined(slots@, *capability, cptr as u64, 0),
    ensures
        r == lookup_fp_from(slots@, *capability, cptr as u64, 0),
{
    let w: u64 = cptr as u64;
    let mut c: cap = *capability;
    if !matches!(c, cap::cnode_cap { .. }) {
        return cap::null_cap;
    }
    let mut bits: u64 = 0;
    loop
        invariant
            c is cnode_cap,
            bits < fp_wordBits,
            lookup_fp_defined(slots@, c, w, bits),
            lookup_fp_from(slots@, c, w, bits) == lookup_fp_from(slots@, *capability, w, 0),
            w == cptr as u64,
        decreases fp_wordBits - bits,
    {
        let (guardBits, radixBits, capGuard, ptr) = match c {
            cap::cnode_cap { capCNodeRadix, capCNodeGuardSize, capCNodeGuard, capCNodePtr } => (
                capCNodeGuardSize,
                capCNodeRadix,
                capCNodeGuard,
                capCNodePtr,
            ),
            _ => (0, 1, 0, 0),
        };
        proof {
            assert(c == cap::cnode_cap {
                capCNodeRadix: radixBits,
                capCNodeGuardSize: guardBits,
                capCNodeGuard: capGuard,
                capCNodePtr: ptr,
            });
        }
        let cptr2 = w << bits;
        if guardBits != 0 && cptr2 >> (fp_wordBits - guardBits) != capGuard {
            return cap::null_cap;
        }
        let radix = (cptr2 << guardBits) >> (fp_wordBits - radixBits);
        // The slot index stays below the number of slots, which fits a word.
        let _slot_count: usize = slots.len();
        let idx: u64 = ptr + radix;
        let next = slots[idx as usize].capability;
        let nbits = bits + guardBits + radixBits;
        if nbits < fp_wordBits && matches!(next, cap::cnode_cap { .. }) {
            c = next;
            bits = nbits;
        } else {
            if nbits > fp_wordBits {
                return cap::null_cap;
            }
            return next;
        }
    }
}

/// Endpoint state: nobody waits.
pub const EPState_Idle: usize = 0;
/// Endpoint state: senders wait.
pub const EPState_Send: usize = 1;
/// Endpoint state: receivers wait.
pub const EPState_Recv: usize = 2;

/// An endpoint: its state and the queue of threads waiting on it.
#[derive(Debug, Clone, Copy, PartialEq, Eq, Structural)]
pub struct endpoint_t {
    pub state: usize,
    pub epQueue_head: usize,
    pub epQueue_tail: usize,
}

/// Whether no ready queue of domain 0 above priority `prio` holds a thread.
pub open spec fn fp_highest(ks: &KernelState, prio: int) -> bool {
    forall|q: int| prio < q < CONFIG_NUM_PRIORITIES ==> #[trigger] ks.rq_of(0, q).len() == 0
}

/// Whether a thread's VSpace slot holds a mapped page table.
pub open spec fn fp_vtable_ok(t: tcb_t) -> bool {
    t.cspace@[tcbVTable as int].capability matches cap::page_table_cap { capPTIsMapped, .. } && capPTIsMapped != 0
}

/// The endpoint capability that the current thread's capability pointer `cptr` reaches.
pub open spec fn fp_ep_cap(ks: &KernelState, slots: Seq<cte_t>, cptr: usize) -> cap {
    lookup_fp_from(
        slots,
        ks.tcbs@[ks.node.ksCurThread as int].cspace@[tcbCTable as int].capability,
        cptr as u64,
        0,
    )
}

/// Whether a call with message-info word `msgInfo` on capability pointer `cptr` can take the
/// fast path: a short message without extra capabilities from a thread without a fault, an
/// endpoint capability that may send, a receiver waiting on the endpoint with a mapped page
/// table, that receiver at least as urgent as the caller or the most urgent ready thread,
/// and a capability that may grant or grant a reply.
pub open spec fn fastpath_call_ok(
    ks: &KernelState,
    slots: Seq<cte_t>,
    eps: Seq<endpoint_t>,
    cptr: usize,
    msgInfo: usize,
) -> bool {
    let cur = ks.tcbs@[ks.node.ksCurThread as int];
    let ep_cap = fp_ep_cap(ks, slots, cptr);
    &&& msgInfo % 512 <= 4
    &&& cur.tcbFault is seL4_Fault_NullFault
    &&& ep_cap matches cap::endpoint_cap { capCanSend, capEPPtr, capCanGrant, capCanGrantReply, .. } && {
        let ep = eps[capEPPtr as int];
        let dest = ks.tcbs@[ep.epQueue_head as int];
        &&& capCanSend != 0
        &&& ep.state == EPState_Recv
        &&& fp_vtable_ok(dest)
        &&& !(dest.tcbPriority < cur.tcbPriority && !fp_highest(ks, dest.tcbPriority as int))
        &&& !(capCanGrant == 0 && capCanGrantReply == 0)
    }
}

/// Whether the fast call path can read what it needs: the lookup stays within the machine,
/// the endpoint lies in `eps`, and a receiver waiting on it is a thread.
pub open spec fn fastpath_call_readable(ks: &KernelState, slots: Seq<cte_t>, eps: Seq<endpoint_t>, cptr: usize) -> bool {
    let ep_cap = fp_ep_cap(ks, slots, cptr);
    &&& lookup_fp_defined(
        slots,
        ks.tcbs@[ks.node.ksCurThread as int].cspace@[tcbCTable as int].capability,
        cptr as u64,
        0,
    )
    &&& ep_cap matches cap::endpoint_cap { capEPPtr, .. } ==> {
        &&& capEPPtr < eps.len()
        &&& eps[capEPPtr as int].state == EPState_Recv ==> ks.valid_tcb(eps[capEPPtr as int].epQueue_head as int)
    }
}

/// The checks that decide whether a call takes the fast path; the slow path is taken
/// otherwise.
pub fn fastpath_call_check(
    ks: &KernelState,
    slots: &Vec<cte_t>,
    eps: &Vec<endpoint_t>,
    cptr: usize,
    msgInfo: usize,
) -> (r: bool)
    requires
        ks.wf(),
        fastpath_call_readable(ks, slots@, eps@, cptr),
    ensures
        r == fastpath_call_ok(ks, slots@, eps@, cptr, msgInfo),
        r ==> fastpath_call_respects_priority(ks, slots@, eps@, cptr),
{
    let cur = ks.node.ksCurThread;
    if fastpath_mi_check(msgInfo) || !matches!(ks.tcbs[cur].tcbFault, seL4_Fault::seL4_Fault_NullFault) {
        return false;
    }
    let ep_cap = lookup_fp(slots, &ks.tcbs[cur].cspace[tcbCTable].capability, cptr);
    // Endpoint pointers index `eps`, whose length fits a word.
    let _ep_count: usize = eps.len();
    match ep_cap {
        cap::endpoint_cap { capCanSend, capEPPtr, capCanGrant, capCanGrantReply, .. } => {
            if capCanSend == 0 {
                return false;
            }
            let ep = eps[capEPPtr as usize];
            if ep.state != EPState_Recv {
                return false;
            }
            let dest = ep.epQueue_head;
            if !isValidVTableRoot_fp(&ks.tcbs[dest].cspace[tcbVTable].capability) {
                return false;
            }
            if ks.tcbs[dest].tcbPriority < ks.tcbs[cur].tcbPriority && !ks.isHighestPrio(
                0,
                ks.tcbs[dest].tcbPriority,
            ) {
                return false;
            }
            !(capCanGrant == 0 && capCanGrantReply == 0)
        },
        _ => false,
    }
}

/// Whether a reply-and-receive with message-info word `msgInfo` on capability pointer `cptr`
/// can take the fast path: a short message without extra capabilities from a thread without
/// a fault, an endpoint capability that may send, no signal pending on the thread's bound
/// notification, no sender waiting on the endpoint, a reply capability in the caller slot
/// whose thread has no fault, a mapped page table and no more urgent ready thread.
pub open spec fn fastpath_reply_recv_ok(
    ks: &KernelState,
    slots: Seq<cte_t>,
    ntfns: Seq<notification_t>,
    eps: Seq<endpoint_t>,
    cptr: usize,
    msgInfo: usize,
) -> bool {
    let cur = ks.tcbs@[ks.node.ksCurThread as int];
    let ep_cap = fp_ep_cap(ks, slots, cptr);
    &&& msgInfo % 512 <= 4
    &&& cur.tcbFault is seL4_Fault_NullFault
    &&& ep_cap matches cap::endpoint_cap { capCanSend, capEPPtr, .. } && {
        &&& capCanSend != 0
        &&& (cur.tcbBoundNotification != 0 ==> ntfns[cur.tcbBoundNotification as int].state != NtfnState_Active)
        &&& eps[capEPPtr as int].state != EPState_Send
        &&& cur.cspace@[tcbCaller as int].capability matches cap::reply_cap { capTCBPtr, .. } && {
            let caller = ks.tcbs@[capTCBPtr as int];
            &&& caller.tcbFault is seL4_Fault_NullFault
            &&& fp_vtable_ok(caller)
            &&& fp_highest(ks, caller.tcbPriority as int)
        }
    }
}

/// Whether the fast reply-and-receive path can read what it needs: the lookup stays within
/// the machine, the endpoint and the bound notification lie in `eps` and `ntfns`, and the
/// caller slot's reply capability names a thread.
pub open spec fn fastpath_reply_recv_readable(
    ks: &KernelState,
    slots: Seq<cte_t>,
    ntfns: Seq<notification_t>,
    eps: Seq<endpoint_t>,
    cptr: usize,
) -> bool {
    let cur = ks.tcbs@[ks.node.ksCurThread as int];
    &&& lookup_fp_defined(slots, cur.cspace@[tcbCTable as int].capability, cptr as u64, 0)
    &&& fp_ep_cap(ks, slots, cptr) matches cap::endpoint_cap { capEPPtr, .. } ==> capEPPtr < eps.len()
    &&& cur.tcbBoundNotification < ntfns.len()
    &&& cur.cspace@[tcbCaller as int].capability matches cap::reply_cap { capTCBPtr, .. } ==> ks.valid_tcb(
        capTCBPtr as int,
    )
}

/// The checks that decide whether a reply-and-receive takes the fast path; the slow path is
/// taken otherwise.
pub fn fastpath_reply_recv_check(
    ks: &KernelState,
    slots: &Vec<cte_t>,
    ntfns: &Vec<notification_t>,
    eps: &Vec<endpoint_t>,
    cptr: usize,
    msgInfo: usize,
) -> (r: bool)
    requires
        ks.wf(),
        fastpath_reply_recv_readable(ks, slots@, ntfns@, eps@, cptr),
    ensures
        r == fastpath_reply_recv_ok(ks, slots@, ntfns@, eps@, cptr, msgInfo),
{
    let cur = ks.node.ksCurThread;
    if fastpath_mi_check(msgInfo) || !matches!(ks.tcbs[cur].tcbFault, seL4_Fault::seL4_Fault_NullFault) {
        return false;
    }
    let ep_cap = lookup_fp(slots, &ks.tcbs[cur].cspace[tcbCTable].capability, cptr);
    // Endpoint pointers index `eps`, whose length fits a word.
    let _ep_count: usize = eps.len();
    match ep_cap {
        cap::endpoint_cap { capCanSend, capEPPtr, .. } => {
            if capCanSend == 0 {
                return false;
            }
            let bound = ks.tcbs[cur].tcbBoundNotification;
            if bound != 0 && ntfns[bound].state == NtfnState_Active {
                return false;
            }
            if eps[capEPPtr as usize].state == EPState_Send {
                return false;
            }
            match ks.tcbs[cur].cspace[tcbCaller].capability {
                cap::reply_cap { capTCBPtr, .. } => {
                    let caller = capTCBPtr as usize;
                    if !matches!(ks.tcbs[caller].tcbFault, seL4_Fault::seL4_Fault_NullFault) {
                        return false;
                    }
                    if !isValidVTableRoot_fp(&ks.tcbs[caller].cspace[tcbVTable].capability) {
                        return false;
                    }
                    ks.isHighestPrio(0, ks.tcbs[caller].tcbPriority)
                },
                _ => false,
            }
        },
        _ => false,
    }
}

/// The receiver that a fast call through `cptr` would switch to is at least as urgent as the
/// caller, or no ready thread of domain 0 is more urgent than it.
pub open spec fn fastpath_call_respects_priority(ks: &KernelState, slots: Seq<cte_t>, eps: Seq<endpoint_t>, cptr: usize) -> bool {
    let cur = ks.tcbs@[ks.node.ksCurThread as int];
    let ep_cap = fp_ep_cap(ks, slots, cptr);
    let dest = ks.tcbs@[eps[ep_cap->capEPPtr as int].epQueue_head as int];
    ||| dest.tcbPriority >= cur.tcbPriority
    ||| forall|q: int| dest.tcbPriority < q < CONFIG_NUM_PRIORITIES ==> #[trigger] ks.rq_of(0, q).len() == 0
}

/// A call takes the fast path only through an endpoint capability that may send and grant, to
/// a receiver waiting on the endpoint, and never ahead of a more urgent ready thread: the
/// receiver is at least as urgent as the caller, or nothing ready in domain 0 is more urgent
/// than the receiver.
pub proof fn lemma_fastpath_call_priority(
    ks: &KernelState,
    slots: Seq<cte_t>,
    eps: Seq<endpoint_t>,
    cptr: usize,
    msgInfo: usize,
)
    requires
        fastpath_call_ok(ks, slots, eps, cptr, msgInfo),
    ensures
        msgInfo % 512 <= 4,
        ks.tcbs@[ks.node.ksCurThread as int].tcbFault is seL4_Fault_NullFault,
        fp_ep_cap(ks, slots, cptr) is endpoint_cap,
        fp_ep_cap(ks, slots, cptr)->capCanSend != 0,
        fp_ep_cap(ks, slots, cptr)->capCanGrant != 0 || fp_ep_cap(ks, slots, cptr)->capCanGrantReply != 0,
        eps[fp_ep_cap(ks, slots, cptr)->capEPPtr as int].state == EPState_Recv,
        fp_vtable_ok(ks.tcbs@[eps[fp_ep_cap(ks, slots, cptr)->capEPPtr as int].epQueue_head as int]),
        fastpath_call_respects_priority(ks, slots, eps, cptr),
{
}

/// A reply-and-receive takes the fast path only when the caller has no fault, its message
/// is short and carries few capabilities, the endpoint capability may send, no signal is
/// pending on its bound notification, no sender waits on the endpoint, and the thread replied
/// to has no fault, a mapped VSpace and no more urgent ready thread in domain 0 (it is then
/// switched to ahead of every other ready thread).
pub proof fn lemma_fastpath_reply_recv_conditions(
    ks: &KernelState,
    slots: Seq<cte_t>,
    ntfns: Seq<notification_t>,
    eps: Seq<endpoint_t>,
    cptr: usize,
    msgInfo: usize,
)
    requires
        fastpath_reply_recv_ok(ks, slots, ntfns, eps, cptr, msgInfo),
    ensures
        ({
            let cur = ks.tcbs@[ks.node.ksCurThread as int];
            let ep_cap = fp_ep_cap(ks, slots, cptr);
            let caller_cap = cur.cspace@[tcbCaller as int].capability;
            let caller = ks.tcbs@[caller_cap->reply_cap_capTCBPtr as int];
            &&& msgInfo % 512 <= 4
            &&& cur.tcbFault is seL4_Fault_NullFault
            &&& ep_cap is endpoint_cap && ep_cap->capCanSend != 0
            &&& eps[ep_cap->capEPPtr as int].state != EPState_Send
            &&& cur.tcbBoundNotification != 0 ==> ntfns[cur.tcbBoundNotification as int].state != NtfnState_Active
            &&& caller_cap is reply_cap
            &&& caller.tcbFault is seL4_Fault_NullFault
            &&& fp_vtable_ok(caller)
            &&& forall|q: int| caller.tcbPriority < q < CONFIG_NUM_PRIORITIES ==> #[trigger] ks.rq_of(0, q).len() == 0
        }),
{
}
} // verus!
