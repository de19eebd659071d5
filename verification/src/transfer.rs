//! Fault messages and signals delivered to threads.
use vstd::prelude::*;
use crate::config::seL4_MsgMaxLength;
use crate::fault::{seL4_Fault, fault_tag_spec, MessageID_Syscall, MessageID_Exception};
use crate::message_info::seL4_MessageInfo_t;
use crate::structures::exception_t;
use crate::syscall_utils::lookupSlot_ret_t;
use crate::config::seL4_MsgMaxExtraCaps;
use crate::tcb::seL4_IPCBuffer;
use crate::notification::{notification_t, NtfnState_Active, NtfnState_Idle};
use crate::tcb::{
    tcb_t, ArchReg, same_but_mrs, write_mrs, fault_message_words, next_mr, write_fault_regs,
    message_words, n_syscallMessage, n_exceptionMessage, write_mr, fault_regs, arch_reg_index,
};

verus! {

/// The length a message-info word gives, limited to the longest message.
pub open spec fn message_length(w: u64) -> u64 {
    if w % 128 > seL4_MsgMaxLength {
        seL4_MsgMaxLength as u64
    } else {
        w % 128
    }
}

impl tcb_t {
    /// Sends this thread's fault to `receiver`, its fault handler: the fault message goes to
    /// its message registers, its message-info register gets the fault's label and the message
    /// length, and its badge register the badge of the handler's endpoint capability.
    pub fn do_fault_transfer(&self, receiver: &mut tcb_t, badge: usize)
        requires
            self.wf(),
            old(receiver).wf(),
            !(self.tcbFault is seL4_Fault_NullFault),
        ensures
            final(receiver).wf(),
            ({
                let ok = old(receiver).ipc_buffer_ok(true);
                let w = fault_message_words(*self);
                let st = write_mrs(old(receiver).mrs(), ok, 0, w);
                let sent = next_mr(ok, w.len() - 1);
                &&& final(receiver).tcbArch.registers@ == st.0.update(
                    1,
                    (fault_tag_spec(self.tcbFault) * 4096 + sent) as usize,
                ).update(0, badge)
                &&& final(receiver).ipcBuffer.msg@ == st.1
            }),
            same_but_mrs(*old(receiver), *final(receiver)),
    {
        let sent = self.set_fault_mrs(receiver);
        let msg_info = seL4_MessageInfo_t::new(self.tcbFault.get_tag(), 0, 0, sent as u64);
        let word = msg_info.to_word();
        receiver.tcbArch.set_register(ArchReg::MsgInfo, word as usize);
        receiver.tcbArch.set_register(ArchReg::Badge, badge);
    }

    /// Takes the reply to `receiver`'s fault from this thread's message: for an unknown system
    /// call or a user exception the reply's words are copied back into the fault registers and
    /// the result says whether the label is 0 (the faulting thread is to restart); for other
    /// faults nothing is copied and the result is true.
    pub fn do_fault_reply_transfer(&mut self, receiver: &mut tcb_t) -> (r: bool)
        requires
            old(self).wf(),
            old(receiver).wf(),
        ensures
            *final(self) == *old(self),
            final(receiver).wf(),
            ({
                let w = old(self).tcbArch.registers@[1] as u64;
                let label = w / 4096;
                let length = message_length(w);
                let rd = old(self).ipc_buffer_readable(false);
                match old(receiver).tcbFault {
                    seL4_Fault::seL4_Fault_UnknownSyscall { .. } => {
                        &&& r == (label == 0)
                        &&& final(receiver).tcbArch.registers@ == write_fault_regs(
                            old(receiver).tcbArch.registers@,
                            MessageID_Syscall,
                            message_words(
                                *old(self),
                                rd,
                                if length < n_syscallMessage { length as usize } else { n_syscallMessage },
                            ),
                        )
                        &&& *final(receiver) == (tcb_t { tcbArch: final(receiver).tcbArch, ..*old(receiver) })
                    },
                    seL4_Fault::seL4_Fault_UserException { .. } => {
                        &&& r == (label == 0)
                        &&& final(receiver).tcbArch.registers@ == write_fault_regs(
                            old(receiver).tcbArch.registers@,
                            MessageID_Exception,
                            message_words(
                                *old(self),
                                rd,
                                if length < n_exceptionMessage { length as usize } else { n_exceptionMessage },
                            ),
                        )
                        &&& *final(receiver) == (tcb_t { tcbArch: final(receiver).tcbArch, ..*old(receiver) })
                    },
                    _ => r && *final(receiver) == *old(receiver),
                }
            }),
    {
        let tag = seL4_MessageInfo_t::from_word_security(self.tcbArch.get_register(ArchReg::MsgInfo) as u64);
        let label = tag.label;
        let length = tag.length as usize;
        match receiver.tcbFault {
            seL4_Fault::seL4_Fault_UnknownSyscall { .. } => {
                let n = if length < n_syscallMessage {
                    length
                } else {
                    n_syscallMessage
                };
                self.copy_fault_mrs_for_reply(receiver, MessageID_Syscall, n);
                label == 0
            },
            seL4_Fault::seL4_Fault_UserException { .. } => {
                let n = if length < n_exceptionMessage {
                    length
                } else {
                    n_exceptionMessage
                };
                self.copy_fault_mrs_for_reply(receiver, MessageID_Exception, n);
                label == 0
            },
            _ => true,
        }
    }

    /// Completes a signal on this thread's bound notification (`ntfns` holds the
    /// notifications, indexed by their pointers): if it is active, its message word goes to
    /// the thread's badge register and it becomes idle.
    pub fn complete_signal(&mut self, ntfns: &mut Vec<notification_t>) -> (r: bool)
        requires
            old(self).wf(),
            old(self).tcbBoundNotification < old(ntfns).len(),
        ensures
            final(self).wf(),
            ({
                let p = old(self).tcbBoundNotification as int;
                if p != 0 && old(ntfns)@[p].state == NtfnState_Active {
                    &&& r
                    &&& final(self).tcbArch.registers@ == old(self).tcbArch.registers@.update(
                        0,
                        old(ntfns)@[p].ntfnMsgIdentifier,
                    )
                    &&& *final(self) == (tcb_t { tcbArch: final(self).tcbArch, ..*old(self) })
                    &&& final(ntfns)@ == old(ntfns)@.update(p, notification_t { state: NtfnState_Idle, ..old(ntfns)@[p] })
                } else {
                    &&& !r
                    &&& *final(self) == *old(self)
                    &&& final(ntfns)@ == old(ntfns)@
                }
            }),
    {
        let p = self.tcbBoundNotification;
        if p != 0 {
            let mut n = ntfns[p];
            if n.state == NtfnState_Active {
                self.tcbArch.set_register(ArchReg::Badge, n.ntfnMsgIdentifier);
                n.state = NtfnState_Idle;
                ntfns.set(p, n);
                return true;
            }
        }
        false
    }
}


/// Writes an unknown-system-call fault of `sender` to the message registers of `receiver`:
/// the sender's system-call registers, then the system-call number; returns the message
/// length reached.
pub fn process3(sender: &tcb_t, receiver: &mut tcb_t, _receiveIPCBuffer: usize) -> (r: usize)
    requires
        sender.wf(),
        old(receiver).wf(),
        sender.tcbFault is seL4_Fault_UnknownSyscall,
    ensures
        final(receiver).wf(),
        final(receiver).mrs() == write_mr(
            write_mrs(
                old(receiver).mrs(),
                old(receiver).ipc_buffer_ok(true),
                0,
                fault_regs(*sender, MessageID_Syscall, n_syscallMessage),
            ),
            old(receiver).ipc_buffer_ok(true),
            n_syscallMessage as int,
            sender.tcbFault->seL4_Fault_UnknownSyscall_syscallNumber as usize,
        ),
        r == next_mr(old(receiver).ipc_buffer_ok(true), n_syscallMessage as int),
        same_but_mrs(*old(receiver), *final(receiver)),
{
    sender.copy_syscall_fault_mrs(receiver);
    let number = match sender.tcbFault {
        seL4_Fault::seL4_Fault_UnknownSyscall { syscallNumber } => syscallNumber as usize,
        _ => 0,
    };
    receiver.set_mr(n_syscallMessage, number)
}

/// The index of the first of the lookups `i..n` that failed, or `n` where none did.
pub open spec fn first_failed_lookup(slots: Seq<lookupSlot_ret_t>, i: int, n: int) -> int
    decreases n - i,
{
    if i >= n {
        n
    } else if slots[i].status != exception_t::EXCEPTION_NONE {
        i
    } else {
        first_failed_lookup(slots, i + 1, n)
    }
}

/// The extra-capability slots after the slots found by the first `k` lookups have been stored.
pub open spec fn stored_extra_caps(old_res: Seq<usize>, slots: Seq<lookupSlot_ret_t>, k: int) -> Seq<usize> {
    Seq::new(seL4_MsgMaxExtraCaps as nat, |j: int| if j < k { slots[j].slot } else { old_res[j] })
}

/// The number of extra capabilities that a thread's message-info register names.
pub open spec fn extra_caps_count(t: tcb_t) -> int {
    ((t.tcbArch.registers@[arch_reg_index(ArchReg::MsgInfo)] as u64 / 128) % 4) as int
}

/// What looking up the `n` extra capabilities named in `b` gives, with `slots` the lookups'
/// results and `old_res` the slots stored before: the result, and the stored slots. The
/// first failed lookup gives a capability fault for its pointer; when all succeed, the entry
/// after the found slots is cleared if there is one.
pub open spec fn extra_caps_outcome(
    n: int,
    b: seL4_IPCBuffer,
    old_res: Seq<usize>,
    slots: Seq<lookupSlot_ret_t>,
) -> (Result<(), seL4_Fault>, Seq<usize>) {
    let k = first_failed_lookup(slots, 0, n);
    if k < n {
        (
            Err(seL4_Fault::seL4_Fault_CapFault { address: b.caps_or_badges@[k] as u64, inReceivePhase: 0 }),
            stored_extra_caps(old_res, slots, k),
        )
    } else if n < seL4_MsgMaxExtraCaps {
        (Ok(()), stored_extra_caps(old_res, slots, n).update(n, 0usize))
    } else {
        (Ok(()), stored_extra_caps(old_res, slots, n))
    }
}

impl tcb_t {
    /// Looks up the extra capabilities of this thread's message in its own IPC buffer, when
    /// that buffer can be read: as `lookup_extra_caps_with_buf` on the thread's buffer, and
    /// nothing otherwise.
    pub fn lookup_extra_caps(&self, res: &mut Vec<usize>, slots: &Vec<lookupSlot_ret_t>) -> (r: Result<(), seL4_Fault>)
        requires
            self.wf(),
            old(res).len() == seL4_MsgMaxExtraCaps,
            slots.len() == seL4_MsgMaxExtraCaps,
        ensures
            final(res).len() == seL4_MsgMaxExtraCaps,
            !self.ipc_buffer_readable(false) ==> r is Ok && final(res)@ == old(res)@,
            self.ipc_buffer_readable(false) ==> (r, final(res)@) == extra_caps_outcome(
                extra_caps_count(*self),
                self.ipcBuffer,
                old(res)@,
                slots@,
            ),
    {
        if self.ipc_buffer_usable(false) {
            self.lookup_extra_caps_with_buf(res, Some(&self.ipcBuffer), slots)
        } else {
            Ok(())
        }
    }

    /// Looks up the extra capabilities that this thread's message names in `buf`: `slots[i]`
    /// is what looking up the `i`-th capability pointer of `buf` in the thread's CSpace gave.
    /// Each found slot is stored in `res`; the first lookup that fails gives a capability fault
    /// for its pointer. Without a buffer nothing is looked up.
    pub fn lookup_extra_caps_with_buf(
        &self,
        res: &mut Vec<usize>,
        buf: Option<&seL4_IPCBuffer>,
        slots: &Vec<lookupSlot_ret_t>,
    ) -> (r: Result<(), seL4_Fault>)
        requires
            self.wf(),
            old(res).len() == seL4_MsgMaxExtraCaps,
            slots.len() == seL4_MsgMaxExtraCaps,
            buf matches Some(b) ==> b.wf(),
        ensures
            final(res).len() == seL4_MsgMaxExtraCaps,
            match buf {
                None => r is Ok && final(res)@ == old(res)@,
                Some(b) => (r, final(res)@) == extra_caps_outcome(extra_caps_count(*self), *b, old(res)@, slots@),
            },
    {
        match buf {
            None => Ok(()),
            Some(buffer) => {
                let info = seL4_MessageInfo_t::from_word_security(
                    self.tcbArch.get_register(ArchReg::MsgInfo) as u64,
                );
                let length = info.extraCaps as usize;
                let ghost n = length as int;
                let ghost old_res = res@;
                let mut i: usize = 0;
                while i < length
                    invariant
                        0 <= i <= length,
                        length == n,
                        n <= seL4_MsgMaxExtraCaps,
                        buf == Some(buffer),
                        old_res == old(res)@,
                        self.wf(),
                        n == extra_caps_count(*self),
                        slots.len() == seL4_MsgMaxExtraCaps,
                        buffer.wf(),
                        res.len() == seL4_MsgMaxExtraCaps,
                        forall|j: int| 0 <= j < i ==> slots@[j].status == exception_t::EXCEPTION_NONE,
                        first_failed_lookup(slots@, i as int, n) == first_failed_lookup(slots@, 0, n),
                        res@ == stored_extra_caps(old_res, slots@, i as int),
                    decreases length - i,
                {
                    let cptr = buffer.caps_or_badges[i];
                    if slots[i].status != exception_t::EXCEPTION_NONE {
                        return Err(seL4_Fault::seL4_Fault_CapFault { address: cptr as u64, inReceivePhase: 0 });
                    }
                    res.set(i, slots[i].slot);
                    i = i + 1;
                    proof {
                        assert(res@ =~= stored_extra_caps(old_res, slots@, i as int));
                    }
                }
                if i < seL4_MsgMaxExtraCaps {
                    res.set(i, 0);
                }
                proof {
                    if n < seL4_MsgMaxExtraCaps {
                        assert(res@ =~= stored_extra_caps(old_res, slots@, n).update(n, 0usize));
                    }
                }
                Ok(())
            },
        }
    }
}
} // verus!
