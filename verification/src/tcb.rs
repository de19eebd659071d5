//! Thread control blocks: registers, IPC buffer, message registers and fault messages.
use vstd::prelude::*;
use crate::cap::{cap, cte_t};
use crate::config::{tcbBuffer, tcbCNodeEntries, seL4_MsgMaxLength, seL4_MsgMaxExtraCaps};
use crate::fault::{
    seL4_Fault, lookup_fault, thread_state_t, ThreadState, lookup_fault_tag_spec,
    seL4_CapFault_LookupFailureType, MessageID_Syscall, MessageID_Exception, seL4_CapFault_IP,
    seL4_CapFault_Addr, seL4_CapFault_InRecvPhase, seL4_VMFault_IP, seL4_VMFault_Addr,
    seL4_VMFault_PrefetchFault, seL4_VMFault_FSR,
};

verus! {

/// Number of saved registers of a thread.
pub const n_contextRegisters: usize = 37;
/// Number of message registers passed in machine registers.
pub const msgRegisterNum: usize = 4;
/// Length of an unknown-syscall fault message.
pub const n_syscallMessage: usize = 12;
/// Length of a user-exception fault message.
pub const n_exceptionMessage: usize = 3;
/// Register index of the stack pointer.
pub const SP_EL0: usize = 31;
/// Register index of the exception link register, the next instruction.
pub const ELR_EL1: usize = 32;
/// Register index of the saved program status.
pub const SPSR_EL1: usize = 33;
/// Register index of the faulting instruction.
pub const FaultIP_REG: usize = 34;
/// Register index of the thread-local storage base.
pub const TPIDR_EL0: usize = 35;

/// A saved register, by role.
#[derive(Debug, Clone, Copy, PartialEq, Eq, Structural)]
pub enum ArchReg {
    /// Badge of a received message.
    Badge,
    /// Message info word.
    MsgInfo,
    /// Capability pointer of a system call.
    Cap,
    /// The `i`-th message register.
    Msg(usize),
    /// The `i`-th register of a fault message of kind `id`.
    FaultMessage(usize, usize),
    /// Instruction that faulted.
    FaultIP,
    /// Instruction to resume at.
    NextIP,
    /// Thread-local storage base.
    TlsBase,
}

/// Register of the `i`-th word of an unknown-syscall fault message.
pub open spec fn syscall_message_reg(i: int) -> int {
    if i < 8 {
        i
    } else if i == 8 {
        FaultIP_REG as int
    } else if i == 9 {
        SP_EL0 as int
    } else if i == 10 {
        ELR_EL1 as int
    } else {
        SPSR_EL1 as int
    }
}

/// Register of the `i`-th word of a user-exception fault message.
pub open spec fn exception_message_reg(i: int) -> int {
    if i == 0 {
        FaultIP_REG as int
    } else if i == 1 {
        SP_EL0 as int
    } else {
        SPSR_EL1 as int
    }
}

/// Whether a register role names a register.
pub open spec fn arch_reg_valid(r: ArchReg) -> bool {
    match r {
        ArchReg::Msg(i) => i < msgRegisterNum,
        ArchReg::FaultMessage(id, i) => (id == MessageID_Syscall && i < n_syscallMessage) || (id
            == MessageID_Exception && i < n_exceptionMessage),
        _ => true,
    }
}

/// Index of the register that a role names.
pub open spec fn arch_reg_index(r: ArchReg) -> int {
    match r {
        ArchReg::Badge => 0,
        ArchReg::MsgInfo => 1,
        ArchReg::Cap => 0,
        ArchReg::Msg(i) => 2 + i,
        ArchReg::FaultMessage(id, i) => if id == MessageID_Syscall {
            syscall_message_reg(i as int)
        } else {
            exception_message_reg(i as int)
        },
        ArchReg::FaultIP => FaultIP_REG as int,
        ArchReg::NextIP => ELR_EL1 as int,
        ArchReg::TlsBase => TPIDR_EL0 as int,
    }
}

/// Index of the register that a role names.
pub fn arch_reg_to_index(r: ArchReg) -> (i: usize)
    requires
        arch_reg_valid(r),
    ensures
        i == arch_reg_index(r),
        i < n_contextRegisters,
{
    match r {
        ArchReg::Badge => 0,
        ArchReg::MsgInfo => 1,
        ArchReg::Cap => 0,
        ArchReg::Msg(i) => 2 + i,
        ArchReg::FaultMessage(id, i) => {
            if id == MessageID_Syscall {
                if i < 8 {
                    i
                } else if i == 8 {
                    FaultIP_REG
                } else if i == 9 {
                    SP_EL0
                } else if i == 10 {
                    ELR_EL1
                } else {
                    SPSR_EL1
                }
            } else {
                if i == 0 {
                    FaultIP_REG
                } else if i == 1 {
                    SP_EL0
                } else {
                    SPSR_EL1
                }
            }
        },
        ArchReg::FaultIP => FaultIP_REG,
        ArchReg::NextIP => ELR_EL1,
        ArchReg::TlsBase => TPIDR_EL0,
    }
}

/// A thread's saved registers.
#[derive(Debug, Clone)]
pub struct ArchTCB {
    pub registers: Vec<usize>,
}

impl ArchTCB {
    /// All registers zero.
    pub fn default() -> (r: Self)
        ensures
            r.registers@ == Seq::new(n_contextRegisters as nat, |i: int| 0usize),
    {
        let mut v: Vec<usize> = Vec::new();
        let mut i: usize = 0;
        while i < n_contextRegisters
            invariant
                i <= n_contextRegisters,
                v@ == Seq::new(i as nat, |k: int| 0usize),
            decreases n_contextRegisters - i,
        {
            v.push(0);
            i = i + 1;
            assert(v@ =~= Seq::new(i as nat, |k: int| 0usize));
        }
        ArchTCB { registers: v }
    }

    /// The value of a register.
    pub fn get_register(&self, reg: ArchReg) -> (r: usize)
        requires
            arch_reg_valid(reg),
            self.registers.len() == n_contextRegisters,
        ensures
            r == self.registers@[arch_reg_index(reg)],
    {
        self.registers[arch_reg_to_index(reg)]
    }

    /// Sets a register.
    pub fn set_register(&mut self, reg: ArchReg, w: usize)
        requires
            arch_reg_valid(reg),
            old(self).registers.len() == n_contextRegisters,
        ensures
            final(self).registers@ == old(self).registers@.update(arch_reg_index(reg), w),
    {
        let i = arch_reg_to_index(reg);
        self.registers.set(i, w);
    }
}

/// The contents of a thread's IPC buffer.
#[derive(Debug, Clone)]
pub struct seL4_IPCBuffer {
    pub tag: usize,
    pub msg: Vec<usize>,
    pub userData: usize,
    pub caps_or_badges: Vec<usize>,
    pub receiveCNode: usize,
    pub receiveIndex: usize,
    pub receiveDepth: usize,
}

impl seL4_IPCBuffer {
    /// A zeroed buffer.
    pub fn new() -> (r: Self)
        ensures
            r.wf(),
            r.msg@ == Seq::new(seL4_MsgMaxLength as nat, |i: int| 0usize),
    {
        let mut msg: Vec<usize> = Vec::new();
        let mut i: usize = 0;
        while i < seL4_MsgMaxLength
            invariant
                i <= seL4_MsgMaxLength,
                msg@ == Seq::new(i as nat, |k: int| 0usize),
            decreases seL4_MsgMaxLength - i,
        {
            msg.push(0);
            i = i + 1;
            assert(msg@ =~= Seq::new(i as nat, |k: int| 0usize));
        }
        let caps = vec![0usize, 0usize, 0usize];
        seL4_IPCBuffer {
            tag: 0,
            msg,
            userData: 0,
            caps_or_badges: caps,
            receiveCNode: 0,
            receiveIndex: 0,
            receiveDepth: 0,
        }
    }

    /// The buffer has its fixed layout.
    pub open spec fn wf(&self) -> bool {
        &&& self.msg.len() == seL4_MsgMaxLength
        &&& self.caps_or_badges.len() == seL4_MsgMaxExtraCaps
    }
}

/// A thread control block. `cspace` holds the slots of the thread's CNode, and `ipcBuffer`
/// the contents of the buffer that its IPC buffer pointer and frame capability designate.
#[derive(Debug, Clone)]
pub struct tcb_t {
    pub tcbArch: ArchTCB,
    pub tcbState: thread_state_t,
    pub tcbBoundNotification: usize,
    pub tcbFault: seL4_Fault,
    pub tcbLookupFailure: lookup_fault,
    pub domain: usize,
    pub tcbMCP: usize,
    pub tcbPriority: usize,
    pub tcbTimeSlice: usize,
    pub tcbFaultHandler: usize,
    pub tcbIPCBuffer: usize,
    pub tcbSchedNext: usize,
    pub tcbSchedPrev: usize,
    pub tcbEPNext: usize,
    pub tcbEPPrev: usize,
    pub cspace: Vec<cte_t>,
    pub ipcBuffer: seL4_IPCBuffer,
}

/// Whether a thread in this state is stopped: inactive or blocked.
pub open spec fn is_stopped_spec(s: ThreadState) -> bool {
    s == ThreadState::ThreadStateInactive || s == ThreadState::ThreadStateBlockedOnNotification || s
        == ThreadState::ThreadStateBlockedOnReceive || s == ThreadState::ThreadStateBlockedOnReply || s
        == ThreadState::ThreadStateBlockedOnSend
}

/// Whether a thread in this state can run.
pub open spec fn is_runnable_spec(s: ThreadState) -> bool {
    s == ThreadState::ThreadStateRunning || s == ThreadState::ThreadStateRestart
}

/// The message-passing state of a thread: its registers and its IPC buffer's message words.
pub type mr_state = (Seq<usize>, Seq<usize>);

/// Writes message register `offset`: to a machine register below `msgRegisterNum`, to the
/// IPC buffer above if the buffer is accessible, and nowhere otherwise.
pub open spec fn write_mr(st: mr_state, buffer_ok: bool, offset: int, v: usize) -> mr_state {
    if offset < msgRegisterNum {
        (st.0.update(2 + offset, v), st.1)
    } else if buffer_ok {
        (st.0, st.1.update(offset, v))
    } else {
        st
    }
}

/// Writes `words` to the message registers from `offset` on, one after the other.
pub open spec fn write_mrs(st: mr_state, buffer_ok: bool, offset: int, words: Seq<usize>) -> mr_state
    decreases words.len(),
{
    if words.len() == 0 {
        st
    } else {
        write_mr(
            write_mrs(st, buffer_ok, offset, words.drop_last()),
            buffer_ok,
            offset + words.len() - 1,
            words.last(),
        )
    }
}

/// Writing `a` and then `b` right after it is writing `a + b`.
pub proof fn lemma_write_mrs_append(st: mr_state, buffer_ok: bool, offset: int, a: Seq<usize>, b: Seq<usize>)
    ensures
        write_mrs(write_mrs(st, buffer_ok, offset, a), buffer_ok, offset + a.len(), b) == write_mrs(
            st,
            buffer_ok,
            offset,
            a + b,
        ),
    decreases b.len(),
{
    if b.len() == 0 {
        assert(a + b =~= a);
    } else {
        lemma_write_mrs_append(st, buffer_ok, offset, a, b.drop_last());
        assert((a + b).drop_last() =~= a + b.drop_last());
    }
}

/// Writes past the machine registers change nothing when the IPC buffer is inaccessible.
pub proof fn lemma_write_mrs_no_buffer(st: mr_state, offset: int, words: Seq<usize>)
    requires
        offset >= msgRegisterNum,
    ensures
        write_mrs(st, false, offset, words) == st,
    decreases words.len(),
{
    if words.len() > 0 {
        lemma_write_mrs_no_buffer(st, offset, words.drop_last());
    }
}

/// The same thread, but for its message registers: its machine registers and the message
/// words of its IPC buffer.
pub open spec fn same_but_mrs(a: tcb_t, b: tcb_t) -> bool {
    b == (tcb_t {
        tcbArch: ArchTCB { registers: b.tcbArch.registers },
        ipcBuffer: seL4_IPCBuffer { msg: b.ipcBuffer.msg, ..a.ipcBuffer },
        ..a
    })
}

/// Whether message id `id` has fault-message words `0..length`.
pub open spec fn fault_message_fits(id: usize, length: usize) -> bool {
    ||| id == MessageID_Syscall && length <= n_syscallMessage
    ||| id == MessageID_Exception && length <= n_exceptionMessage
}

/// The first `length` words of thread `t`'s fault message of kind `id`, read from its registers.
pub open spec fn fault_regs(t: tcb_t, id: usize, length: usize) -> Seq<usize> {
    Seq::new(
        length as nat,
        |i: int| t.tcbArch.registers@[arch_reg_index(ArchReg::FaultMessage(id, i as usize))],
    )
}

/// The message words that describe a lookup failure: its type number plus one, then its data.
pub open spec fn lookup_fault_words(f: lookup_fault) -> Seq<usize> {
    match f {
        lookup_fault::invalid_root => seq![1usize],
        lookup_fault::missing_capability { bitsLeft } => seq![2usize, bitsLeft as usize],
        lookup_fault::depth_mismatch { bitsFound, bitsLeft } => seq![
            3usize,
            bitsLeft as usize,
            bitsFound as usize,
        ],
        lookup_fault::guard_mismatch { guardFound, bitsLeft, bitsFound } => seq![
            4usize,
            bitsLeft as usize,
            guardFound as usize,
            bitsFound as usize,
        ],
    }
}

/// The message that reports thread `t`'s fault to its fault handler.
pub open spec fn fault_message_words(t: tcb_t) -> Seq<usize> {
    let ip = t.tcbArch.registers@[FaultIP_REG as int];
    match t.tcbFault {
        seL4_Fault::seL4_Fault_CapFault { address, inReceivePhase } => seq![
            ip,
            address as usize,
            inReceivePhase as usize,
        ] + lookup_fault_words(t.tcbLookupFailure),
        seL4_Fault::seL4_Fault_UnknownSyscall { syscallNumber } => fault_regs(
            t,
            MessageID_Syscall,
            n_syscallMessage,
        ).push(syscallNumber as usize),
        seL4_Fault::seL4_Fault_UserException { number, code } => fault_regs(
            t,
            MessageID_Exception,
            n_exceptionMessage,
        ).push(number as usize).push(code as usize),
        seL4_Fault::seL4_Fault_VMFault { address, FSR, instructionFault } => seq![
            ip,
            address as usize,
            instructionFault as usize,
            FSR as usize,
        ],
        seL4_Fault::seL4_Fault_NullFault => Seq::empty(),
    }
}

/// The first `length` message words of thread `t`: the first `msgRegisterNum` from its
/// message registers, the rest from its IPC buffer, and only the first ones if the buffer
/// cannot be used.
pub open spec fn message_words(t: tcb_t, buffer_readable: bool, length: usize) -> Seq<usize> {
    let count: nat = if buffer_readable || length <= msgRegisterNum {
        length as nat
    } else {
        msgRegisterNum as nat
    };
    Seq::new(
        count,
        |i: int|
            if i < msgRegisterNum {
                t.tcbArch.registers@[2 + i]
            } else {
                t.ipcBuffer.msg@[i]
            },
    )
}

/// Writes `words` to the registers of fault-message words `0..` of kind `id`.
pub open spec fn write_fault_regs(regs: Seq<usize>, id: usize, words: Seq<usize>) -> Seq<usize>
    decreases words.len(),
{
    if words.len() == 0 {
        regs
    } else {
        write_fault_regs(regs, id, words.drop_last()).update(
            arch_reg_index(ArchReg::FaultMessage(id, (words.len() - 1) as usize)),
            words.last(),
        )
    }
}

/// Message register `j` of a message-passing state: a machine register below
/// `msgRegisterNum`, a word of the IPC buffer above.
pub open spec fn mr_value(st: mr_state, j: int) -> usize {
    if j < msgRegisterNum {
        st.0[2 + j]
    } else {
        st.1[j]
    }
}

/// Writing a message register that can be written makes it read back the value written and
/// leaves every other message register as it was.
pub proof fn lemma_write_mr_reads_back(st: mr_state, buffer_ok: bool, offset: int, v: usize, j: int)
    requires
        st.0.len() == n_contextRegisters,
        st.1.len() == seL4_MsgMaxLength,
        0 <= offset < seL4_MsgMaxLength,
        0 <= j < seL4_MsgMaxLength,
        offset < msgRegisterNum || buffer_ok,
    ensures
        mr_value(write_mr(st, buffer_ok, offset, v), j) == if j == offset {
            v
        } else {
            mr_value(st, j)
        },
{
}

/// The next message register after writing `offset`, as `set_mr` returns it.
pub open spec fn next_mr(buffer_ok: bool, offset: int) -> int {
    if offset < msgRegisterNum || buffer_ok {
        offset + 1
    } else {
        msgRegisterNum as int
    }
}

impl tcb_t {
    /// Registers and buffer have their fixed sizes.
    pub open spec fn wf(&self) -> bool {
        &&& self.tcbArch.registers.len() == n_contextRegisters
        &&& self.ipcBuffer.wf()
        &&& self.cspace.len() == tcbCNodeEntries
    }

    /// The thread's message-passing state.
    pub open spec fn mrs(&self) -> mr_state {
        (self.tcbArch.registers@, self.ipcBuffer.msg@)
    }

    /// Whether the IPC buffer can be accessed for receiving (`is_receiver`) or sending.
    pub open spec fn ipc_buffer_ok(&self, is_receiver: bool) -> bool {
        match self.cspace@[tcbBuffer as int].capability {
            cap::frame_cap { capFVMRights, capFIsDevice, .. } => capFIsDevice == 0 && (capFVMRights == 3 || (
            !is_receiver && capFVMRights == 2)),
            _ => false,
        }
    }

    /// Whether the IPC buffer can be read: the same condition as for writing it.
    pub open spec fn ipc_buffer_readable(&self, is_receiver: bool) -> bool {
        self.ipc_buffer_ok(is_receiver)
    }

    /// Resets the registers.
    pub fn init(&mut self)
        ensures
            final(self).tcbArch.registers@ == Seq::new(n_contextRegisters as nat, |i: int| 0usize),
            *final(self) == (tcb_t { tcbArch: final(self).tcbArch, ..*old(self) }),
    {
        self.tcbArch = ArchTCB::default();
    }

    /// The thread's state.
    pub fn get_state(&self) -> (r: ThreadState)
        ensures
            r == self.tcbState.tsType,
    {
        self.tcbState.tsType
    }

    /// Whether the thread is inactive or blocked.
    pub fn is_stopped(&self) -> (r: bool)
        ensures
            r == is_stopped_spec(self.tcbState.tsType),
    {
        match self.get_state() {
            ThreadState::ThreadStateInactive
            | ThreadState::ThreadStateBlockedOnNotification
            | ThreadState::ThreadStateBlockedOnReceive
            | ThreadState::ThreadStateBlockedOnReply
            | ThreadState::ThreadStateBlockedOnSend => true,
            _ => false,
        }
    }

    /// Capability slot `i` of the thread.
    pub fn get_cspace(&self, i: usize) -> (r: &cte_t)
        requires
            i < self.cspace.len(),
        ensures
            *r == self.cspace@[i as int],
    {
        &self.cspace[i]
    }

    /// Capability slot `i` of the thread, to be changed in place.
    pub fn get_cspace_mut_ref(&mut self, i: usize) -> (r: &mut cte_t)
        requires
            i < old(self).cspace.len(),
        ensures
            *r == old(self).cspace@[i as int],
            final(self).cspace@ == old(self).cspace@.update(i as int, *final(r)),
            *final(self) == (tcb_t { cspace: final(self).cspace, ..*old(self) }),
    {
        &mut self.cspace[i]
    }

    /// Whether the thread is running or restarting.
    pub fn is_runnable(&self) -> (r: bool)
        ensures
            r == is_runnable_spec(self.tcbState.tsType),
    {
        match self.get_state() {
            ThreadState::ThreadStateRunning | ThreadState::ThreadStateRestart => true,
            _ => false,
        }
    }

    /// Sets the maximum controlled priority.
    pub fn set_mcp_priority(&mut self, mcp: usize)
        ensures
            *final(self) == (tcb_t { tcbMCP: mcp, ..*old(self) }),
    {
        self.tcbMCP = mcp;
    }

    /// Forgets the bound notification.
    pub fn unbind_notification(&mut self)
        ensures
            *final(self) == (tcb_t { tcbBoundNotification: 0, ..*old(self) }),
    {
        self.tcbBoundNotification = 0;
    }

    /// Records the bound notification.
    pub fn bind_notification(&mut self, addr: usize)
        ensures
            *final(self) == (tcb_t { tcbBoundNotification: addr, ..*old(self) }),
    {
        self.tcbBoundNotification = addr;
    }

    /// The processor node the thread runs on.
    pub fn get_cpu(&self) -> (r: usize)
        ensures
            r == 0,
    {
        0
    }

    /// Whether the IPC buffer can be used, for receiving (`is_receiver`) or sending: its slot
    /// holds a frame capability of normal memory, writable, or readable when sending.
    pub fn ipc_buffer_usable(&self, is_receiver: bool) -> (r: bool)
        requires
            self.wf(),
        ensures
            r == self.ipc_buffer_readable(is_receiver),
            r == self.ipc_buffer_ok(is_receiver),
    {
        match self.cspace[tcbBuffer].capability {
            cap::frame_cap { capFVMRights, capFIsDevice, .. } => {
                if capFIsDevice != 0 {
                    return false;
                }
                capFVMRights == 3 || (!is_receiver && capFVMRights == 2)
            },
            _ => false,
        }
    }

    /// The address of the IPC buffer, when it can be used: the base of the buffer frame plus
    /// the buffer pointer's offset within a page of the frame's size.
    pub open spec fn lookup_ipc_buffer_spec(&self, is_receiver: bool) -> Option<u64> {
        if !self.ipc_buffer_readable(is_receiver) {
            None
        } else {
            match self.cspace@[tcbBuffer as int].capability {
                cap::frame_cap { capFBasePtr, capFSize, .. } => Some(
                    (capFBasePtr + ((self.tcbIPCBuffer as u64) & crate::utils::mask_spec(
                        crate::utils::page_bits_for_size_spec(capFSize as usize) as u64,
                    ))) as u64,
                ),
                _ => None,
            }
        }
    }

    /// The address of the IPC buffer, for receiving (`is_receiver`) or sending: the base of
    /// the buffer frame plus the buffer pointer's offset within a page of the frame's size;
    /// none when the buffer cannot be used.
    pub fn lookup_ipc_buffer(&self, is_receiver: bool) -> (r: Option<u64>)
        requires
            self.wf(),
            self.ipc_buffer_readable(is_receiver) ==> crate::cap::frame_bounds_fit(
                self.cspace@[tcbBuffer as int].capability,
            ),
        ensures
            r == self.lookup_ipc_buffer_spec(is_receiver),
    {
        if !self.ipc_buffer_usable(is_receiver) {
            return None;
        }
        match self.cspace[tcbBuffer].capability {
            cap::frame_cap { capFBasePtr, capFSize, .. } => {
                let m = crate::utils::MASK(crate::utils::pageBitsForSize(capFSize as usize) as u64);
                let ptr: u64 = self.tcbIPCBuffer as u64;
                let offset = ptr & m;
                assert(offset <= m) by (bit_vector)
                    requires
                        offset == ptr & m,
                ;
                Some(capFBasePtr + offset)
            },
            _ => None,
        }
    }

    /// The address of the IPC buffer for writing, by the same rules as `lookup_ipc_buffer`.
    pub fn lookup_mut_ipc_buffer(&self, is_receiver: bool) -> (r: Option<u64>)
        requires
            self.wf(),
            self.ipc_buffer_readable(is_receiver) ==> crate::cap::frame_bounds_fit(
                self.cspace@[tcbBuffer as int].capability,
            ),
        ensures
            r == self.lookup_ipc_buffer_spec(is_receiver),
    {
        self.lookup_ipc_buffer(is_receiver)
    }

    /// Writes message register `offset` and returns the next one; above the machine message
    /// registers the word goes to the IPC buffer, and if the buffer is inaccessible nothing is
    /// written and the first buffer register is returned.
    pub fn set_mr(&mut self, offset: usize, reg: usize) -> (r: usize)
        requires
            old(self).wf(),
            offset < seL4_MsgMaxLength,
        ensures
            final(self).wf(),
            final(self).mrs() == write_mr(old(self).mrs(), old(self).ipc_buffer_ok(true), offset as int, reg),
            r == next_mr(old(self).ipc_buffer_ok(true), offset as int),
            same_but_mrs(*old(self), *final(self)),
    {
        if offset >= msgRegisterNum {
            if self.ipc_buffer_usable(true) {
                self.ipcBuffer.msg.set(offset, reg);
                return offset + 1;
            } else {
                return msgRegisterNum;
            }
        } else {
            self.tcbArch.set_register(ArchReg::Msg(offset), reg);
            return offset + 1;
        }
    }

    /// Writes the description of lookup failure `fault` to the message registers from
    /// `offset` on, and returns the register after the last one written.
    pub fn set_lookup_fault_mrs(&mut self, offset: usize, fault: &lookup_fault) -> (r: usize)
        requires
            old(self).wf(),
            offset == seL4_CapFault_LookupFailureType || offset == 1,
        ensures
            final(self).wf(),
            final(self).mrs() == write_mrs(
                old(self).mrs(),
                old(self).ipc_buffer_ok(true),
                offset as int,
                lookup_fault_words(*fault),
            ),
            r == next_mr(old(self).ipc_buffer_ok(true), offset + lookup_fault_words(*fault).len() - 1),
            same_but_mrs(*old(self), *final(self)),
    {
        let ghost ok = old(self).ipc_buffer_ok(true);
        let ghost st = old(self).mrs();
        let ghost w = lookup_fault_words(*fault);
        let luf_type = fault.get_tag() as usize;
        let i = self.set_mr(offset, luf_type + 1);
        proof {
            reveal_with_fuel(write_mrs, 2);
            assert(w.take(1).drop_last() =~= Seq::<usize>::empty());
            assert(self.mrs() == write_mrs(st, ok, offset as int, w.take(1)));
        }
        let r = match fault {
            lookup_fault::invalid_root => {
                proof {
                    assert(w.len() == 1);
                    assert(w.take(1) =~= w);
                }
                i
            },
            lookup_fault::missing_capability { bitsLeft } => {
                let r = self.set_mr(offset + 1, *bitsLeft as usize);
                proof {
                    assert(w.drop_last() =~= w.take(1));
                }
                r
            },
            lookup_fault::depth_mismatch { bitsFound, bitsLeft } => {
                self.set_mr(offset + 1, *bitsLeft as usize);
                proof {
                    assert(w.take(2).drop_last() =~= w.take(1));
                }
                let r = self.set_mr(offset + 2, *bitsFound as usize);
                proof {
                    assert(w.drop_last() =~= w.take(2));
                }
                r
            },
            lookup_fault::guard_mismatch { guardFound, bitsLeft, bitsFound } => {
                self.set_mr(offset + 1, *bitsLeft as usize);
                proof {
                    assert(w.take(2).drop_last() =~= w.take(1));
                    assert(self.mrs() == write_mrs(st, ok, offset as int, w.take(2)));
                }
                self.set_mr(offset + 2, *guardFound as usize);
                proof {
                    assert(w.take(3).drop_last() =~= w.take(2));
                    assert(self.mrs() == write_mrs(st, ok, offset as int, w.take(3)));
                }
                let r = self.set_mr(offset + 3, *bitsFound as usize);
                proof {
                    assert(w.drop_last() =~= w.take(3));
                }
                r
            },
        };
        r
    }

    /// Copies the first `length` words of this thread's fault message of kind `id` to the
    /// message registers of `receiver`.
    pub fn copy_fault_mrs(&self, receiver: &mut Self, id: usize, length: usize)
        requires
            self.wf(),
            old(receiver).wf(),
            fault_message_fits(id, length),
        ensures
            final(receiver).wf(),
            final(receiver).mrs() == write_mrs(
                old(receiver).mrs(),
                old(receiver).ipc_buffer_ok(true),
                0,
                fault_regs(*self, id, length),
            ),
            same_but_mrs(*old(receiver), *final(receiver)),
    {
        let ghost ok = old(receiver).ipc_buffer_ok(true);
        let ghost st = old(receiver).mrs();
        let ghost w = fault_regs(*self, id, length);
        let len = if length < msgRegisterNum {
            length
        } else {
            msgRegisterNum
        };
        let mut i: usize = 0;
        while i < len
            invariant
                i <= len,
                len <= length,
                len <= msgRegisterNum,
                self.wf(),
                receiver.wf(),
                fault_message_fits(id, length),
                ok == receiver.ipc_buffer_ok(true),
                w == fault_regs(*self, id, length),
                receiver.mrs() == write_mrs(st, ok, 0, w.take(i as int)),
                same_but_mrs(*old(receiver), *receiver),
            decreases len - i,
        {
            let v = self.tcbArch.get_register(ArchReg::FaultMessage(id, i));
            receiver.tcbArch.set_register(ArchReg::Msg(i), v);
            proof {
                assert(w.take(i + 1).drop_last() =~= w.take(i as int));
            }
            i = i + 1;
        }
        if receiver.ipc_buffer_usable(true) {
            while i < length
                invariant
                    len <= i <= length,
                    len == msgRegisterNum || len == length,
                    self.wf(),
                    receiver.wf(),
                    fault_message_fits(id, length),
                    ok,
                    ok == receiver.ipc_buffer_ok(true),
                    w == fault_regs(*self, id, length),
                    receiver.mrs() == write_mrs(st, ok, 0, w.take(i as int)),
                    same_but_mrs(*old(receiver), *receiver),
                decreases length - i,
            {
                let v = self.tcbArch.get_register(ArchReg::FaultMessage(id, i));
                receiver.ipcBuffer.msg.set(i, v);
                proof {
                    assert(w.take(i + 1).drop_last() =~= w.take(i as int));
                }
                i = i + 1;
            }
        } else {
            proof {
                if len < length {
                    lemma_write_mrs_no_buffer(receiver.mrs(), len as int, w.skip(len as int));
                } else {
                    assert(w.skip(len as int) =~= Seq::<usize>::empty());
                }
                lemma_write_mrs_append(st, ok, 0, w.take(len as int), w.skip(len as int));
                assert(w.take(len as int) + w.skip(len as int) =~= w);
            }
        }
        proof {
            assert(w.take(length as int) =~= w);
        }
    }

    /// Copies the first `length` words of a reply to a fault of kind `id` from this thread's
    /// message registers to `receiver`'s fault-message registers.
    pub fn copy_fault_mrs_for_reply(&mut self, receiver: &mut Self, id: usize, length: usize)
        requires
            old(self).wf(),
            old(receiver).wf(),
            fault_message_fits(id, length),
        ensures
            *final(self) == *old(self),
            final(receiver).wf(),
            final(receiver).tcbArch.registers@ == write_fault_regs(
                old(receiver).tcbArch.registers@,
                id,
                message_words(*old(self), old(self).ipc_buffer_readable(false), length),
            ),
            *final(receiver) == (tcb_t { tcbArch: final(receiver).tcbArch, ..*old(receiver) }),
    {
        let ghost rd = self.ipc_buffer_readable(false);
        let ghost regs = old(receiver).tcbArch.registers@;
        let ghost w = message_words(*self, rd, length);
        let len = if length < msgRegisterNum {
            length
        } else {
            msgRegisterNum
        };
        let mut i: usize = 0;
        while i < len
            invariant
                i <= len,
                len <= length,
                len <= msgRegisterNum,
                len == length || len == msgRegisterNum,
                self.wf(),
                receiver.wf(),
                fault_message_fits(id, length),
                rd == self.ipc_buffer_readable(false),
                w == message_words(*self, rd, length),
                receiver.tcbArch.registers@ == write_fault_regs(regs, id, w.take(i as int)),
                *receiver == (tcb_t { tcbArch: receiver.tcbArch, ..*old(receiver) }),
            decreases len - i,
        {
            let v = self.tcbArch.get_register(ArchReg::Msg(i));
            receiver.tcbArch.set_register(ArchReg::FaultMessage(id, i), v);
            proof {
                assert(w.take(i + 1).drop_last() =~= w.take(i as int));
            }
            i = i + 1;
        }
        if self.ipc_buffer_usable(false) {
            while i < length
                invariant
                    len <= i <= length,
                    len == length || len == msgRegisterNum,
                    self.wf(),
                    receiver.wf(),
                    fault_message_fits(id, length),
                    rd,
                    w == message_words(*self, rd, length),
                    w.len() == length,
                    receiver.tcbArch.registers@ == write_fault_regs(regs, id, w.take(i as int)),
                    *receiver == (tcb_t { tcbArch: receiver.tcbArch, ..*old(receiver) }),
                decreases length - i,
            {
                let v = self.ipcBuffer.msg[i];
                receiver.tcbArch.set_register(ArchReg::FaultMessage(id, i), v);
                proof {
                    assert(w.take(i + 1).drop_last() =~= w.take(i as int));
                }
                i = i + 1;
            }
        }
        proof {
            assert(w.take(i as int) =~= w);
        }
    }

    /// Copies this thread's unknown-syscall fault message to `receiver`.
    pub fn copy_syscall_fault_mrs(&self, receiver: &mut Self)
        requires
            self.wf(),
            old(receiver).wf(),
        ensures
            final(receiver).wf(),
            final(receiver).mrs() == write_mrs(
                old(receiver).mrs(),
                old(receiver).ipc_buffer_ok(true),
                0,
                fault_regs(*self, MessageID_Syscall, n_syscallMessage),
            ),
            same_but_mrs(*old(receiver), *final(receiver)),
    {
        self.copy_fault_mrs(receiver, MessageID_Syscall, n_syscallMessage)
    }

    /// Copies this thread's user-exception fault message to `receiver`.
    pub fn copy_exeception_fault_mrs(&self, receiver: &mut Self)
        requires
            self.wf(),
            old(receiver).wf(),
        ensures
            final(receiver).wf(),
            final(receiver).mrs() == write_mrs(
                old(receiver).mrs(),
                old(receiver).ipc_buffer_ok(true),
                0,
                fault_regs(*self, MessageID_Exception, n_exceptionMessage),
            ),
            same_but_mrs(*old(receiver), *final(receiver)),
    {
        self.copy_fault_mrs(receiver, MessageID_Exception, n_exceptionMessage)
    }

    /// Writes the message that reports this thread's fault to `receiver`, its fault handler,
    /// and returns the message register after the last one written.
    pub fn set_fault_mrs(&self, receiver: &mut Self) -> (r: usize)
        requires
            self.wf(),
            old(receiver).wf(),
            !(self.tcbFault is seL4_Fault_NullFault),
        ensures
            final(receiver).wf(),
            final(receiver).mrs() == write_mrs(
                old(receiver).mrs(),
                old(receiver).ipc_buffer_ok(true),
                0,
                fault_message_words(*self),
            ),
            r == next_mr(old(receiver).ipc_buffer_ok(true), fault_message_words(*self).len() - 1),
            same_but_mrs(*old(receiver), *final(receiver)),
    {
        let ghost ok = old(receiver).ipc_buffer_ok(true);
        let ghost st = old(receiver).mrs();
        let ghost w = fault_message_words(*self);
        match self.tcbFault {
            seL4_Fault::seL4_Fault_CapFault { address, inReceivePhase } => {
                receiver.set_mr(seL4_CapFault_IP, self.tcbArch.get_register(ArchReg::FaultIP));
                receiver.set_mr(seL4_CapFault_Addr, address as usize);
                receiver.set_mr(seL4_CapFault_InRecvPhase, inReceivePhase as usize);
                let ghost head = seq![
                    self.tcbArch.registers@[FaultIP_REG as int],
                    address as usize,
                    inReceivePhase as usize,
                ];
                proof {
                    reveal_with_fuel(write_mrs, 4);
                    assert(head.drop_last().drop_last().drop_last() =~= Seq::<usize>::empty());
                    assert(head.drop_last().drop_last() =~= seq![head[0]]);
                    assert(head.drop_last() =~= seq![head[0], head[1]]);
                    assert(receiver.mrs() == write_mrs(st, ok, 0, head));
                }
                let r = receiver.set_lookup_fault_mrs(seL4_CapFault_LookupFailureType, &self.tcbLookupFailure);
                proof {
                    lemma_write_mrs_append(st, ok, 0, head, lookup_fault_words(self.tcbLookupFailure));
                }
                r
            },
            seL4_Fault::seL4_Fault_UnknownSyscall { syscallNumber } => {
                self.copy_syscall_fault_mrs(receiver);
                let r = receiver.set_mr(n_syscallMessage, syscallNumber as usize);
                proof {
                    assert(w.drop_last() =~= fault_regs(*self, MessageID_Syscall, n_syscallMessage));
                }
                r
            },
            seL4_Fault::seL4_Fault_UserException { number, code } => {
                self.copy_exeception_fault_mrs(receiver);
                let ghost fr = fault_regs(*self, MessageID_Exception, n_exceptionMessage);
                receiver.set_mr(n_exceptionMessage, number as usize);
                proof {
                    assert(fr.push(number as usize).drop_last() =~= fr);
                    assert(receiver.mrs() == write_mrs(st, ok, 0, fr.push(number as usize)));
                }
                let r = receiver.set_mr(n_exceptionMessage + 1, code as usize);
                proof {
                    assert(w.drop_last() =~= fr.push(number as usize));
                }
                r
            },
            seL4_Fault::seL4_Fault_VMFault { address, FSR, instructionFault } => {
                receiver.set_mr(seL4_VMFault_IP, self.tcbArch.get_register(ArchReg::FaultIP));
                receiver.set_mr(seL4_VMFault_Addr, address as usize);
                receiver.set_mr(seL4_VMFault_PrefetchFault, instructionFault as usize);
                let r = receiver.set_mr(seL4_VMFault_FSR, FSR as usize);
                proof {
                    reveal_with_fuel(write_mrs, 5);
                    assert(w.drop_last().drop_last().drop_last().drop_last() =~= Seq::<usize>::empty());
                    assert(w.drop_last().drop_last().drop_last() =~= seq![w[0]]);
                    assert(w.drop_last().drop_last() =~= seq![w[0], w[1]]);
                    assert(w.drop_last() =~= seq![w[0], w[1], w[2]]);
                }
                r
            },
            seL4_Fault::seL4_Fault_NullFault => {
                assert(false);
                0
            },
        }
    }

    /// Debug hook when a thread joins a list; does nothing.
    pub fn DebugAppend(&mut self)
        ensures
            *final(self) == *old(self),
    {
    }

    /// Debug hook when a thread leaves a list; does nothing.
    pub fn DebugRemove(&mut self)
        ensures
            *final(self) == *old(self),
    {
    }

    /// Copies the first `length` message words of this thread to `receiver` and returns how
    /// many were copied: the machine message registers always, the words past them only if
    /// this thread's IPC buffer can be read and `receiver`'s written.
    pub fn copy_mrs(&mut self, receiver: &mut tcb_t, length: usize) -> (r: usize)
        requires
            old(self).wf(),
            old(receiver).wf(),
            length <= seL4_MsgMaxLength,
        ensures
            *final(self) == *old(self),
            final(receiver).wf(),
            ({
                let both = old(self).ipc_buffer_readable(false) && old(receiver).ipc_buffer_ok(true);
                let w = message_words(*old(self), both, length);
                &&& final(receiver).mrs() == write_mrs(old(receiver).mrs(), old(receiver).ipc_buffer_ok(true), 0, w)
                &&& r == w.len()
            }),
            same_but_mrs(*old(receiver), *final(receiver)),
    {
        let ghost both = self.ipc_buffer_readable(false) && receiver.ipc_buffer_ok(true);
        let ghost ok = receiver.ipc_buffer_ok(true);
        let ghost st = receiver.mrs();
        let ghost w = message_words(*self, both, length);
        let mut i: usize = 0;
        while i < length && i < msgRegisterNum
            invariant
                i <= length,
                i <= msgRegisterNum,
                self.wf(),
                receiver.wf(),
                length <= seL4_MsgMaxLength,
                ok == receiver.ipc_buffer_ok(true),
                w == message_words(*self, both, length),
                i <= w.len(),
                receiver.mrs() == write_mrs(st, ok, 0, w.take(i as int)),
                same_but_mrs(*old(receiver), *receiver),
            decreases msgRegisterNum - i,
        {
            let v = self.tcbArch.get_register(ArchReg::Msg(i));
            receiver.tcbArch.set_register(ArchReg::Msg(i), v);
            proof {
                assert(w.take(i + 1).drop_last() =~= w.take(i as int));
            }
            i = i + 1;
        }
        if self.ipc_buffer_usable(false) && receiver.ipc_buffer_usable(true) {
            while i < length
                invariant
                    i <= length,
                    i >= msgRegisterNum || i == length,
                    self.wf(),
                    receiver.wf(),
                    length <= seL4_MsgMaxLength,
                    both,
                    ok,
                    ok == receiver.ipc_buffer_ok(true),
                    w == message_words(*self, both, length),
                    w.len() == length,
                    receiver.mrs() == write_mrs(st, ok, 0, w.take(i as int)),
                    same_but_mrs(*old(receiver), *receiver),
                decreases length - i,
            {
                let v = self.ipcBuffer.msg[i];
                receiver.ipcBuffer.msg.set(i, v);
                proof {
                    assert(w.take(i + 1).drop_last() =~= w.take(i as int));
                }
                i = i + 1;
            }
        }
        proof {
            assert(w.take(i as int) =~= w);
        }
        i
    }
}

} // verus!
