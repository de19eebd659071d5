//! Finalising a capability: what is left of it and what the kernel must clean up when the
//! last capability to an object goes.
use vstd::prelude::*;
use crate::cap::{cap, cap_pub_func, is_arch_cap_spec, ZombieType_ZombieTCB, TCB_CNODE_RADIX};
use crate::config::{seL4_TCBBits, tcbCNodeEntries};
use crate::utils::{MASK, mask_spec};

verus! {

/// What finalising a capability leaves: the capability that stands for the object while it is
/// torn down, and the capability whose deletion needs further cleanup.
#[derive(Debug, Clone, Copy, PartialEq, Eq, Structural)]
pub struct finaliseCap_ret {
    pub remainder: cap,
    pub cleanupInfo: cap,
}

/// The cleanup that finalising a capability asks of the object's own code.
#[derive(Debug, Clone, Copy, PartialEq, Eq, Structural)]
pub enum FinaliseWork {
    /// Nothing to clean up.
    Nothing,
    /// Every thread waiting on endpoint `ep` is released (the endpoint code).
    CancelAllIPC { ep: u64 },
    /// Notification `ntfn` loses its bound thread and every waiting thread is released (the
    /// notification code).
    CancelAllSignals { ntfn: u64 },
    /// Thread `tcb` loses its bound notification, its IPC is cancelled and it is suspended,
    /// in that order.
    TeardownThread { tcb: u64 },
    /// Interrupt `irq` loses its handler (the interrupt code).
    DeletingIRQHandler { irq: u64 },
    /// The architecture's cleanup of a frame, page-table, VSpace or ASID capability: unmapping
    /// or deleting the ASID (the VSpace code).
    Arch { capability: cap, is_final: bool },
}

/// The zombie capability that stands for an object of `number` slots at `ptr` while it is torn
/// down: `zombie_type` is the radix of a CNode or the thread type; the slot count is kept in the
/// bits below the object's alignment.
pub open spec fn zombie_new_spec(number: u64, zombie_type: u64, ptr: u64) -> cap {
    let m = if zombie_type == ZombieType_ZombieTCB {
        mask_spec((TCB_CNODE_RADIX + 1) as u64)
    } else {
        mask_spec((zombie_type + 1) as u64)
    };
    cap::zombie_cap { capZombieID: (ptr & !m) | (number & m), capZombieType: zombie_type }
}

/// Builds the zombie capability of an object of `number` slots at `ptr`.
pub fn Zombie_new(number: u64, zombie_type: u64, ptr: u64) -> (r: cap)
    requires
        zombie_type == ZombieType_ZombieTCB || zombie_type < 63,
    ensures
        r == zombie_new_spec(number, zombie_type, ptr),
{
    let m = if zombie_type == ZombieType_ZombieTCB {
        MASK(TCB_CNODE_RADIX + 1)
    } else {
        MASK(zombie_type + 1)
    };
    cap::zombie_cap { capZombieID: (ptr & !m) | (number & m), capZombieType: zombie_type }
}

/// The address of the first capability slot of the thread at `tcb`: the start of the block
/// that holds the thread.
pub open spec fn tcb_cnode_ptr(tcb: u64) -> u64 {
    tcb & !mask_spec(seL4_TCBBits as u64)
}

/// Whether finalising `c` can be done at once. Only capabilities to objects whose teardown
/// takes several steps (CNodes, threads, zombies, interrupt handlers and the like) cannot.
pub open spec fn finalises_at_once(c: cap) -> bool {
    is_arch_cap_spec(c) || c is endpoint_cap || c is notification_cap || c is reply_cap || c is null_cap
        || c is domain_cap
}

/// What finalising `c` gives, `is_final` when it is the last capability to its object.
pub open spec fn finalise_cap_spec(c: cap, is_final: bool) -> (finaliseCap_ret, FinaliseWork) {
    let none = finaliseCap_ret { remainder: cap::null_cap, cleanupInfo: cap::null_cap };
    if is_arch_cap_spec(c) {
        (none, FinaliseWork::Arch { capability: c, is_final })
    } else {
        match c {
            cap::endpoint_cap { capEPPtr, .. } => (
                none,
                if is_final { FinaliseWork::CancelAllIPC { ep: capEPPtr } } else { FinaliseWork::Nothing },
            ),
            cap::notification_cap { capNtfnPtr, .. } => (
                none,
                if is_final { FinaliseWork::CancelAllSignals { ntfn: capNtfnPtr } } else { FinaliseWork::Nothing },
            ),
            cap::cnode_cap { capCNodeRadix, capCNodePtr, .. } => if is_final {
                (
                    finaliseCap_ret {
                        remainder: zombie_new_spec(1u64 << capCNodeRadix, capCNodeRadix, capCNodePtr),
                        cleanupInfo: cap::null_cap,
                    },
                    FinaliseWork::Nothing,
                )
            } else {
                (none, FinaliseWork::Nothing)
            },
            cap::thread_cap { capTCBPtr } => if is_final {
                (
                    finaliseCap_ret {
                        remainder: zombie_new_spec(
                            tcbCNodeEntries as u64,
                            ZombieType_ZombieTCB,
                            tcb_cnode_ptr(capTCBPtr),
                        ),
                        cleanupInfo: cap::null_cap,
                    },
                    FinaliseWork::TeardownThread { tcb: capTCBPtr },
                )
            } else {
                (none, FinaliseWork::Nothing)
            },
            cap::zombie_cap { .. } => (finaliseCap_ret { remainder: c, cleanupInfo: cap::null_cap }, FinaliseWork::Nothing),
            cap::irq_handler_cap { capIRQ } => if is_final {
                (
                    finaliseCap_ret { remainder: cap::null_cap, cleanupInfo: c },
                    FinaliseWork::DeletingIRQHandler { irq: capIRQ },
                )
            } else {
                (none, FinaliseWork::Nothing)
            },
            _ => (none, FinaliseWork::Nothing),
        }
    }
}

/// Finalises `capability`, `is_final` when it is the last capability to its object: returns
/// what is left of it and the cleanup that the object's code must then do. A capability whose
/// object needs several steps to tear down cannot be finalised while `exposed`.
pub fn finaliseCap(capability: &cap, is_final: bool, exposed: bool) -> (r: (finaliseCap_ret, FinaliseWork))
    requires
        exposed ==> finalises_at_once(*capability),
        capability matches cap::cnode_cap { capCNodeRadix, .. } ==> capCNodeRadix < 63,
    ensures
        r == finalise_cap_spec(*capability, is_final),
        !is_final && !is_arch_cap_spec(*capability) ==> r.1 == FinaliseWork::Nothing,
        !is_final && !is_arch_cap_spec(*capability) && !(*capability is zombie_cap) ==> r.0.remainder
            == cap::null_cap && r.0.cleanupInfo == cap::null_cap,
{
    let none = finaliseCap_ret { remainder: cap::null_cap, cleanupInfo: cap::null_cap };
    if capability.isArchCap() {
        return (none, FinaliseWork::Arch { capability: *capability, is_final });
    }
    match capability {
        cap::endpoint_cap { capEPPtr, .. } => {
            if is_final {
                (none, FinaliseWork::CancelAllIPC { ep: *capEPPtr })
            } else {
                (none, FinaliseWork::Nothing)
            }
        },
        cap::notification_cap { capNtfnPtr, .. } => {
            if is_final {
                (none, FinaliseWork::CancelAllSignals { ntfn: *capNtfnPtr })
            } else {
                (none, FinaliseWork::Nothing)
            }
        },
        cap::cnode_cap { capCNodeRadix, capCNodePtr, .. } => {
            if is_final {
                let z = Zombie_new(1u64 << *capCNodeRadix, *capCNodeRadix, *capCNodePtr);
                (finaliseCap_ret { remainder: z, cleanupInfo: cap::null_cap }, FinaliseWork::Nothing)
            } else {
                (none, FinaliseWork::Nothing)
            }
        },
        cap::thread_cap { capTCBPtr } => {
            if is_final {
                let cte_ptr = *capTCBPtr & !MASK(seL4_TCBBits as u64);
                let z = Zombie_new(tcbCNodeEntries as u64, ZombieType_ZombieTCB, cte_ptr);
                (
                    finaliseCap_ret { remainder: z, cleanupInfo: cap::null_cap },
                    FinaliseWork::TeardownThread { tcb: *capTCBPtr },
                )
            } else {
                (none, FinaliseWork::Nothing)
            }
        },
        cap::zombie_cap { .. } => (finaliseCap_ret { remainder: *capability, cleanupInfo: cap::null_cap }, FinaliseWork::Nothing),
        cap::irq_handler_cap { capIRQ } => {
            if is_final {
                (
                    finaliseCap_ret { remainder: cap::null_cap, cleanupInfo: *capability },
                    FinaliseWork::DeletingIRQHandler { irq: *capIRQ },
                )
            } else {
                (none, FinaliseWork::Nothing)
            }
        },
        _ => (none, FinaliseWork::Nothing),
    }
}


/// Finalising a capability that is not the last one to its object (other than an
/// architecture capability, whose cleanup the VSpace code decides) asks for no cleanup: the
/// object stays as it is, and nothing of the capability remains but a zombie, which stays a
/// zombie.
pub proof fn lemma_finalise_not_final(c: cap)
    requires
        !is_arch_cap_spec(c),
    ensures
        finalise_cap_spec(c, false).1 == FinaliseWork::Nothing,
        finalise_cap_spec(c, false).0.cleanupInfo == cap::null_cap,
        finalise_cap_spec(c, false).0.remainder == if c is zombie_cap { c } else { cap::null_cap },
{
}

/// Only the last capability to a thread tears the thread down, and then it leaves a zombie
/// for the thread's capability slots in place of the capability.
pub proof fn lemma_finalise_thread(c: cap, is_final: bool)
    requires
        c is thread_cap,
    ensures
        (finalise_cap_spec(c, is_final).1 == (FinaliseWork::TeardownThread { tcb: c->thread_cap_capTCBPtr }))
            == is_final,
        is_final ==> finalise_cap_spec(c, is_final).0.remainder is zombie_cap,
        !is_final ==> finalise_cap_spec(c, is_final).0.remainder == cap::null_cap,
{
}

/// Finalising the last capability to an object asks for its teardown: waiters on an endpoint
/// or notification are released, a thread is torn down, an interrupt loses its handler (its
/// capability left for cleanup); a CNode or thread leaves a zombie of its type in place of the
/// capability, and a zombie stays as it is.
pub proof fn lemma_finalise_final(c: cap)
    requires
        !is_arch_cap_spec(c),
        c is cnode_cap ==> c->capCNodeRadix < 63,
    ensures
        c is endpoint_cap ==> finalise_cap_spec(c, true).1 == (FinaliseWork::CancelAllIPC { ep: c->capEPPtr }),
        c is notification_cap ==> finalise_cap_spec(c, true).1 == (FinaliseWork::CancelAllSignals { ntfn: c->capNtfnPtr }),
        c is thread_cap ==> finalise_cap_spec(c, true).1 == (FinaliseWork::TeardownThread { tcb: c->thread_cap_capTCBPtr }),
        c is irq_handler_cap ==> finalise_cap_spec(c, true).1 == (FinaliseWork::DeletingIRQHandler { irq: c->capIRQ }),
        c is cnode_cap ==> (finalise_cap_spec(c, true).0.remainder is zombie_cap
            && finalise_cap_spec(c, true).0.remainder->capZombieType == c->capCNodeRadix),
        c is thread_cap ==> (finalise_cap_spec(c, true).0.remainder is zombie_cap
            && finalise_cap_spec(c, true).0.remainder->capZombieType == ZombieType_ZombieTCB),
        c is zombie_cap ==> finalise_cap_spec(c, true).0.remainder == c,
        finalise_cap_spec(c, true).0.cleanupInfo == (if c is irq_handler_cap { c } else { cap::null_cap }),
{
}
} // verus!
