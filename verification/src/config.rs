//! Kernel configuration constants (64-bit, single node, single domain, non-MCS object layout).
use vstd::prelude::*;

verus! {

/// Number of bits in a machine word.
pub const wordBits: usize = 64;
/// log2 of `wordBits`.
pub const wordRadix: usize = 6;
/// Size, in bits, of the smallest untyped block; free indices count blocks of this size.
pub const seL4_MinUntypedBits: usize = 4;
/// Number of thread priorities.
pub const CONFIG_NUM_PRIORITIES: usize = 256;
/// Number of scheduling domains.
pub const CONFIG_NUM_DOMAINS: usize = 1;
/// Number of ready queues (one per domain and priority).
pub const NUM_READY_QUEUES: usize = 256;
/// Number of second-level bitmap words per domain.
pub const L2_BITMAP_SIZE: usize = 4;
/// Length of a round-robin time slice, in timer ticks.
pub const CONFIG_TIME_SLICE: usize = 5;
/// Number of processor nodes.
pub const CONFIG_MAX_NUM_NODES: usize = 1;
/// Size, in bits, of a TCB object.
pub const seL4_TCBBits: usize = 11;
/// Slot of the TCB's CSpace root.
pub const tcbCTable: usize = 0;
/// Slot of the TCB's VSpace root.
pub const tcbVTable: usize = 1;
/// Slot of the TCB's reply capability.
pub const tcbReply: usize = 2;
/// Slot of the TCB's caller capability.
pub const tcbCaller: usize = 3;
/// Slot of the TCB's IPC buffer frame capability.
pub const tcbBuffer: usize = 4;
/// Number of slots in a TCB's CNode.
pub const tcbCNodeEntries: usize = 5;
/// Size, in bits, of an endpoint object.
pub const seL4_EndpointBits: usize = 4;
/// Size, in bits, of a notification object.
pub const seL4_NotificationBits: usize = 5;
/// Size, in bits, of a capability slot.
pub const seL4_SlotBits: usize = 5;
/// Size, in bits, of a reply object.
pub const seL4_ReplyBits: usize = 4;
/// Size, in bits, of a page table.
pub const seL4_PageTableBits: usize = 12;
/// Size, in bits, of a page table object as recorded in a capability.
pub const PT_SIZE_BITS: usize = 12;
/// Size, in bits, of a VSpace root object.
pub const seL4_VSpaceBits: usize = 12;
/// Size, in bits, of a small page.
pub const seL4_PageBits: usize = 12;
/// Size, in bits, of a large page.
pub const seL4_LargePageBits: usize = 21;
/// Size, in bits, of a huge page.
pub const seL4_HugePageBits: usize = 30;
/// Size, in bits, of an ARM small page.
pub const ARMSmallPageBits: usize = 12;
/// Size, in bits, of an ARM large page.
pub const ARMLargePageBits: usize = 21;
/// Size, in bits, of an ARM huge page.
pub const ARMHugePageBits: usize = 30;
/// Frame size code of an ARM small page.
pub const ARM_Small_Page: usize = 0;
/// Frame size code of an ARM large page.
pub const ARM_Large_Page: usize = 1;
/// Frame size code of an ARM huge page.
pub const ARM_Huge_Page: usize = 2;
/// Frame size code of a RISC-V 4 KiB page.
pub const RISCV_4K_Page: usize = 0;
/// Frame size code of a RISC-V mega page.
pub const RISCV_Mega_Page: usize = 1;
/// Frame size code of a RISC-V giga page.
pub const RISCV_Giga_Page: usize = 2;
/// Size, in bits, of a RISC-V 4 KiB page.
pub const RISCVPageBits: usize = 12;
/// Size, in bits, of a RISC-V mega page.
pub const RISCVMegaPageBits: usize = 21;
/// Size, in bits, of a RISC-V giga page.
pub const RISCVGigaPageBits: usize = 30;
/// Size, in bits, of the IPC buffer; its user address must be aligned to it.
pub const seL4_IPCBufferSizeBits: usize = 10;
/// Maximum number of extra capabilities in a message.
pub const seL4_MsgMaxExtraCaps: usize = 3;
/// Maximum message length, in words.
pub const seL4_MsgMaxLength: usize = 120;
/// Largest 64-bit unsigned value.
pub const UINT64_MAX: u64 = 0xffff_ffff_ffff_ffff;
/// Scale applied to the kernel's worst-case execution time.
pub const CONFIG_KERNEL_WCET_SCALE: u64 = 1;
/// The ASID that no address space has.
pub const asidInvalid: u64 = 0;

/// Syscall error: an argument is out of range.
pub const seL4_InvalidArgument: usize = 1;
/// Syscall error: a capability is invalid for the operation.
pub const seL4_InvalidCapability: usize = 2;
/// Syscall error: the operation is not permitted.
pub const seL4_IllegalOperation: usize = 3;
/// Syscall error: a value is outside the permitted range.
pub const seL4_RangeError: usize = 4;
/// Syscall error: an alignment requirement is not met.
pub const seL4_AlignmentError: usize = 5;
/// Syscall error: a capability lookup failed.
pub const seL4_FailedLookup: usize = 6;
/// Syscall error: the message is shorter than the operation needs.
pub const seL4_TruncatedMessage: usize = 7;
/// Syscall error: the destination slot is not empty.
pub const seL4_DeleteFirst: usize = 8;
/// Syscall error: the capability has derived children.
pub const seL4_RevokeFirst: usize = 9;
/// Syscall error: not enough memory.
pub const seL4_NotEnoughMemory: usize = 10;

} // verus!
