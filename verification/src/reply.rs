//! Reply objects, which link a caller waiting for a reply to the thread that will give it.
use vstd::prelude::*;
use crate::fault::{ThreadState, thread_state_t};
use crate::scheduler::{KernelState, SmpStateData, set_thread_state, lemma_wf_tcb_update,
    SchedulerAction_ResumeCurrentThread, SchedulerAction_ChooseNewThread};
use crate::tcb::tcb_t;

verus! {

/// A reply object: the thread it answers and the words of its call-stack links.
#[derive(Debug, Clone, Copy, PartialEq, Eq, Structural)]
pub struct reply {
    pub replyTCB: usize,
    pub replyPrev: u64,
    pub replyNext: u64,
    pub padding: usize,
}

impl reply {
    /// Dissolves the link between this reply object (at `self_ptr`) and thread `tcb`, which
    /// must name each other; the thread becomes inactive.
    pub fn unlink(&mut self, self_ptr: usize, ks: &mut KernelState, tcb: usize)
        requires
            old(ks).wf(),
            old(ks).valid_tcb(tcb as int),
            old(self).replyTCB == tcb,
            old(ks).tcbs@[tcb as int].tcbState.replyObject == self_ptr,
        ensures
            final(ks).wf(),
            *final(self) == (reply { replyTCB: 0, ..*old(self) }),
            final(ks).tcbs@ == old(ks).tcbs@.update(
                tcb as int,
                tcb_t {
                    tcbState: thread_state_t {
                        tsType: ThreadState::ThreadStateInactive,
                        replyObject: 0,
                        ..old(ks).tcbs@[tcb as int].tcbState
                    },
                    ..old(ks).tcbs@[tcb as int]
                },
            ),
            final(ks).node == (if tcb == old(ks).node.ksCurThread && old(ks).node.ksSchedulerAction
                == SchedulerAction_ResumeCurrentThread {
                SmpStateData { ksSchedulerAction: SchedulerAction_ChooseNewThread, ..old(ks).node }
            } else {
                old(ks).node
            }),
            final(ks).ksCurDomain == old(ks).ksCurDomain,
            final(ks).ksDomainTime == old(ks).ksDomainTime,
            final(ks).ksDomScheduleIdx == old(ks).ksDomScheduleIdx,
            final(ks).ksWorkUnitsCompleted == old(ks).ksWorkUnitsCompleted,
            final(ks).ksDomSchedule@ == old(ks).ksDomSchedule@,
    {
        ks.tcbs[tcb].tcbState.replyObject = 0;
        proof {
            lemma_wf_tcb_update(*old(ks), *ks, tcb as int);
        }
        self.replyTCB = 0;
        set_thread_state(ks, tcb, ThreadState::ThreadStateInactive);
    }

    /// Pushes a reply onto a call stack; the reply protocol of scheduling contexts is not
    /// implemented, so nothing changes.
    pub fn push(&mut self, tcb_caller: &mut tcb_t, tcb_callee: &mut tcb_t, canDonate: bool)
        ensures
            *final(self) == *old(self),
            *final(tcb_caller) == *old(tcb_caller),
            *final(tcb_callee) == *old(tcb_callee),
    {
    }

    /// Pops a reply from a call stack; the reply protocol of scheduling contexts is not
    /// implemented, so nothing changes.
    pub fn pop(&mut self, tcb: &mut tcb_t)
        ensures
            *final(self) == *old(self),
            *final(tcb) == *old(tcb),
    {
    }

    /// Removes a reply from a call stack; the reply protocol of scheduling contexts is not
    /// implemented, so nothing changes.
    pub fn remove(&mut self, tcb: &mut tcb_t)
        ensures
            *final(self) == *old(self),
            *final(tcb) == *old(tcb),
    {
    }
}

} // verus!
