//! Faults, lookup failures, thread states and the message-register layout of fault messages.
use vstd::prelude::*;

verus! {

/// Message register of a VM fault's instruction pointer.
pub const seL4_VMFault_IP: usize = 0;
/// Message register of a VM fault's address.
pub const seL4_VMFault_Addr: usize = 1;
/// Message register of a VM fault's instruction-fault flag.
pub const seL4_VMFault_PrefetchFault: usize = 2;
/// Message register of a VM fault's status register.
pub const seL4_VMFault_FSR: usize = 3;
/// Length of a VM fault message.
pub const seL4_VMFault_Length: usize = 4;
/// Message register of a capability fault's instruction pointer.
pub const seL4_CapFault_IP: usize = 0;
/// Message register of a capability fault's address.
pub const seL4_CapFault_Addr: usize = 1;
/// Message register of a capability fault's receive-phase flag.
pub const seL4_CapFault_InRecvPhase: usize = 2;
/// Message register of a capability fault's lookup-failure type.
pub const seL4_CapFault_LookupFailureType: usize = 3;
/// Message register of the bits left when the lookup failed.
pub const seL4_CapFault_BitsLeft: usize = 4;
/// Message register of the bits found on a depth mismatch.
pub const seL4_CapFault_DepthMismatch_BitsFound: usize = 5;
/// Message register of the guard found on a guard mismatch.
pub const seL4_CapFault_GuardMismatch_GuardFound: usize = 5;
/// Message register of the bits found on a guard mismatch.
pub const seL4_CapFault_GuardMismatch_BitsFound: usize = 6;
/// Fault-message identifier of an unknown-syscall fault.
pub const MessageID_Syscall: usize = 0;
/// Fault-message identifier of a user exception.
pub const MessageID_Exception: usize = 1;

/// A fault a thread has raised.
#[derive(Debug, Clone, Copy, PartialEq, Eq, Structural)]
pub enum seL4_Fault {
    seL4_Fault_NullFault,
    seL4_Fault_CapFault { address: u64, inReceivePhase: u64 },
    seL4_Fault_UnknownSyscall { syscallNumber: u64 },
    seL4_Fault_UserException { number: u64, code: u64 },
    seL4_Fault_VMFault { address: u64, FSR: u64, instructionFault: u64 },
}

/// The message label of a fault.
pub open spec fn fault_tag_spec(f: seL4_Fault) -> u64 {
    match f {
        seL4_Fault::seL4_Fault_NullFault => 0,
        seL4_Fault::seL4_Fault_CapFault { .. } => 1,
        seL4_Fault::seL4_Fault_UnknownSyscall { .. } => 2,
        seL4_Fault::seL4_Fault_UserException { .. } => 3,
        seL4_Fault::seL4_Fault_VMFault { .. } => 5,
    }
}

impl seL4_Fault {
    /// The message label of the fault.
    pub fn get_tag(&self) -> (r: u64)
        ensures
            r == fault_tag_spec(*self),
    {
        match self {
            seL4_Fault::seL4_Fault_NullFault => 0,
            seL4_Fault::seL4_Fault_CapFault { .. } => 1,
            seL4_Fault::seL4_Fault_UnknownSyscall { .. } => 2,
            seL4_Fault::seL4_Fault_UserException { .. } => 3,
            seL4_Fault::seL4_Fault_VMFault { .. } => 5,
        }
    }
}

/// Why a capability lookup failed.
#[derive(Debug, Clone, Copy, PartialEq, Eq, Structural)]
pub enum lookup_fault {
    invalid_root,
    missing_capability { bitsLeft: u64 },
    depth_mismatch { bitsFound: u64, bitsLeft: u64 },
    guard_mismatch { guardFound: u64, bitsLeft: u64, bitsFound: u64 },
}

/// The type number of a lookup failure.
pub open spec fn lookup_fault_tag_spec(f: lookup_fault) -> u64 {
    match f {
        lookup_fault::invalid_root => 0,
        lookup_fault::missing_capability { .. } => 1,
        lookup_fault::depth_mismatch { .. } => 2,
        lookup_fault::guard_mismatch { .. } => 3,
    }
}

impl lookup_fault {
    /// The type number of the lookup failure.
    pub fn get_tag(&self) -> (r: u64)
        ensures
            r == lookup_fault_tag_spec(*self),
    {
        match self {
            lookup_fault::invalid_root => 0,
            lookup_fault::missing_capability { .. } => 1,
            lookup_fault::depth_mismatch { .. } => 2,
            lookup_fault::guard_mismatch { .. } => 3,
        }
    }
}

/// The scheduling state of a thread.
#[derive(Debug, Clone, Copy, PartialEq, Eq, Structural)]
pub enum ThreadState {
    ThreadStateInactive,
    ThreadStateRunning,
    ThreadStateRestart,
    ThreadStateBlockedOnReceive,
    ThreadStateBlockedOnSend,
    ThreadStateBlockedOnReply,
    ThreadStateBlockedOnNotification,
    ThreadStateIdleThreadState,
}

/// A thread's state word: its state, whether it is in a ready queue, and the objects it
/// waits on.
#[derive(Debug, Clone, Copy, PartialEq, Eq, Structural)]
pub struct thread_state_t {
    pub tsType: ThreadState,
    pub tcbQueued: u64,
    pub blockingObject: u64,
    pub replyObject: u64,
}

} // verus!
