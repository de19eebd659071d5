//! Notification objects, as far as binding them to threads goes.
use vstd::prelude::*;

verus! {

/// Notification state: no signal pending and nobody waiting.
pub const NtfnState_Idle: usize = 0;
/// Notification state: threads are waiting for a signal.
pub const NtfnState_Waiting: usize = 1;
/// Notification state: a signal is pending.
pub const NtfnState_Active: usize = 2;

/// A notification object: its state, its queue of waiting threads, its message word, the
/// thread bound to it and the scheduling context bound to it (0 if none).
#[derive(Debug, Clone, Copy, PartialEq, Eq, Structural)]
pub struct notification_t {
    pub state: usize,
    pub ntfnQueue_head: usize,
    pub ntfnQueue_tail: usize,
    pub ntfnMsgIdentifier: usize,
    pub ntfnBoundTCB: usize,
    pub ntfnSchedContext: usize,
}

impl notification_t {
    /// Records thread `tcb` as bound to this notification.
    pub fn bind_tcb(&mut self, tcb: usize)
        ensures
            *final(self) == (notification_t { ntfnBoundTCB: tcb, ..*old(self) }),
    {
        self.ntfnBoundTCB = tcb;
    }

    /// Records scheduling context `sc` as bound to this notification.
    pub fn set_ntfnSchedContext(&mut self, sc: usize)
        ensures
            *final(self) == (notification_t { ntfnSchedContext: sc, ..*old(self) }),
    {
        self.ntfnSchedContext = sc;
    }

    /// Forgets the thread bound to this notification.
    pub fn unbind_tcb(&mut self)
        ensures
            *final(self) == (notification_t { ntfnBoundTCB: 0, ..*old(self) }),
    {
        self.ntfnBoundTCB = 0;
    }
}

} // verus!
