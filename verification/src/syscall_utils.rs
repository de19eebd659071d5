//! Helpers of system-call handling: alignment, untyped free-index arithmetic, argument
//! fetching, and the checks that decoding makes before it acts.
use vstd::prelude::*;
use crate::cap::{cap, cte_t};
use crate::config::{
    seL4_MinUntypedBits, seL4_IPCBufferSizeBits, seL4_RangeError, seL4_IllegalOperation,
    seL4_AlignmentError, seL4_DeleteFirst, seL4_FailedLookup, wordBits, seL4_MsgMaxLength,
};
use crate::structures::exception_t;
use crate::fault::{lookup_fault, seL4_Fault};
use crate::transfer::{extra_caps_outcome, extra_caps_count};
use crate::config::seL4_MsgMaxExtraCaps;
use crate::scheduler::KernelState;
use crate::tcb::{tcb_t, seL4_IPCBuffer, ArchReg, msgRegisterNum};
use crate::notification::notification_t;

verus! {

/// Lowest thread priority.
pub const seL4_MinPrio: usize = 0;

/// Details of the last system-call error, kept for the reply that reports it.
#[derive(Debug, Clone, Copy, PartialEq, Eq, Structural)]
pub struct syscall_error_t {
    pub invalidArgumentNumber: usize,
    pub invalidCapNumber: usize,
    pub rangeErrorMin: usize,
    pub rangeErrorMax: usize,
    pub memoryLeft: usize,
    pub failedLookupWasSource: usize,
    pub _type: usize,
}

/// Rounds `baseValue` up to a multiple of `2^alignment`.
pub fn alignUp(baseValue: usize, alignment: usize) -> (r: usize)
    requires
        alignment < usize::BITS,
        baseValue + (1usize << alignment) - 1 <= usize::MAX,
    ensures
        r % (1usize << alignment) == 0,
        baseValue <= r,
        r < baseValue + (1usize << alignment),
{
    let b: usize = 1usize << alignment;
    proof {
        vstd::bits::lemma_usize_pow2_no_overflow(alignment as nat);
        vstd::bits::lemma_usize_shl_is_mul(1, alignment);
        vstd::arithmetic::power2::lemma_pow2_pos(alignment as nat);
    }
    let m: usize = b - 1;
    let s: usize = baseValue + m;
    let r: usize = s & !m;
    proof {
        assert(r & m == 0) by (bit_vector)
            requires
                r == s & !m,
        ;
        assert(r <= s && s - r <= m) by (bit_vector)
            requires
                r == s & !m,
        ;
        vstd::bits::lemma_usize_low_bits_mask_is_mod(r, alignment as nat);
    }
    r
}

/// Byte offset, in an untyped object, of free index `freeIndex` (computed in machine words).
pub fn FREE_INDEX_TO_OFFSET(freeIndex: usize) -> (r: usize)
    ensures
        r == (freeIndex * 16) as usize,
{
    proof {
        assert(freeIndex << 4usize == (freeIndex * 16) as usize) by (bit_vector);
    }
    freeIndex << seL4_MinUntypedBits
}

/// Address of free index `freeIndex` of the untyped object at `base`.
pub fn GET_FREE_REF(base: usize, freeIndex: usize) -> (r: usize)
    requires
        base + (freeIndex * 16) as usize <= usize::MAX,
    ensures
        r == base + (freeIndex * 16) as usize,
{
    base + FREE_INDEX_TO_OFFSET(freeIndex)
}

/// Free index of address `free` in the untyped object at `base`.
pub fn GET_FREE_INDEX(base: usize, free: usize) -> (r: usize)
    requires
        base <= free,
    ensures
        r == (free - base) / 16,
{
    let d: usize = free - base;
    proof {
        assert(d >> 4usize == d / 16) by (bit_vector);
    }
    d >> seL4_MinUntypedBits
}

/// Address `offset` bytes into the untyped object at `base`.
pub fn GET_OFFSET_FREE_PTR(base: usize, offset: usize) -> (r: usize)
    requires
        base + offset <= usize::MAX,
    ensures
        r == base + offset,
{
    base + offset
}

/// Free index of byte offset `offset` in an untyped object.
pub fn OFFSET_TO_FREE_IDNEX(offset: usize) -> (r: usize)
    ensures
        r == offset / 16,
{
    proof {
        assert(offset >> 4usize == offset / 16) by (bit_vector);
    }
    offset >> seL4_MinUntypedBits
}

/// System-call argument `i` of the current thread: message register `i` while there is one,
/// else word `i` of the IPC buffer.
pub open spec fn syscall_arg(ks: &KernelState, ipc_buffer: &seL4_IPCBuffer, i: int) -> usize {
    if i < msgRegisterNum {
        ks.tcbs@[ks.node.ksCurThread as int].tcbArch.registers@[2 + i]
    } else {
        ipc_buffer.msg@[i]
    }
}

/// System-call argument `i` of the current thread: a message register, or a word of its IPC
/// buffer past the machine message registers.
pub fn get_syscall_arg(ks: &KernelState, i: usize, ipc_buffer: &seL4_IPCBuffer) -> (r: usize)
    requires
        ks.wf(),
        ipc_buffer.wf(),
        i < seL4_MsgMaxLength,
    ensures
        i < msgRegisterNum ==> r == ks.tcbs@[ks.node.ksCurThread as int].tcbArch.registers@[2 + i],
        i >= msgRegisterNum ==> r == ipc_buffer.msg@[i as int],
        r == syscall_arg(ks, ipc_buffer, i as int),
{
    if i < msgRegisterNum {
        let cur = crate::scheduler::get_currenct_thread(ks);
        ks.tcbs[cur].tcbArch.get_register(ArchReg::Msg(i))
    } else {
        ipc_buffer.msg[i]
    }
}

/// System-call argument `i` of the current thread, its IPC buffer given as an optional
/// reference (none where the thread has no buffer): message register `i` while there is one,
/// else word `i` of the buffer's message.
pub fn getSyscallArg(ks: &KernelState, i: usize, ipc_buffer: Option<&seL4_IPCBuffer>) -> (r: usize)
    requires
        ks.wf(),
        i < seL4_MsgMaxLength,
        i >= msgRegisterNum ==> ipc_buffer is Some && ipc_buffer.unwrap().wf(),
    ensures
        i < msgRegisterNum ==> r == ks.tcbs@[ks.node.ksCurThread as int].tcbArch.registers@[2 + i],
        i >= msgRegisterNum ==> r == ipc_buffer.unwrap().msg@[i as int],
{
    if i < msgRegisterNum {
        let cur = crate::scheduler::get_currenct_thread(ks);
        ks.tcbs[cur].tcbArch.get_register(ArchReg::Msg(i))
    } else {
        match ipc_buffer {
            Some(buffer) => buffer.msg[i],
            None => 0,
        }
    }
}

/// Refuses priority `prio` above the maximum controlled priority of `auth_tcb`, recording
/// the permitted range in `err`.
pub fn check_prio(prio: usize, auth_tcb: &tcb_t, err: &mut syscall_error_t) -> (r: exception_t)
    ensures
        prio > auth_tcb.tcbMCP ==> r == exception_t::EXCEPTION_SYSCALL_ERROR && *final(err) == (
        syscall_error_t {
            _type: seL4_RangeError,
            rangeErrorMin: seL4_MinPrio,
            rangeErrorMax: auth_tcb.tcbMCP,
            ..*old(err)
        }),
        prio <= auth_tcb.tcbMCP ==> r == exception_t::EXCEPTION_NONE && *final(err) == *old(err),
{
    if prio > auth_tcb.tcbMCP {
        err._type = seL4_RangeError;
        err.rangeErrorMin = seL4_MinPrio;
        err.rangeErrorMax = auth_tcb.tcbMCP;
        return exception_t::EXCEPTION_SYSCALL_ERROR;
    }
    exception_t::EXCEPTION_NONE
}

/// Whether `vptr` is a valid IPC buffer address in the frame of `capability`: the capability
/// must be a frame capability of ordinary memory and `vptr` aligned to the buffer size.
pub fn check_ipc_buffer_vaild(vptr: usize, capability: &cap, err: &mut syscall_error_t) -> (r: exception_t)
    ensures
        !(capability is frame_cap) ==> r == exception_t::EXCEPTION_SYSCALL_ERROR && *final(err) == (
        syscall_error_t { _type: seL4_IllegalOperation, ..*old(err) }),
        capability is frame_cap && capability->capFIsDevice != 0 ==> r
            == exception_t::EXCEPTION_SYSCALL_ERROR && *final(err) == (syscall_error_t {
            _type: seL4_IllegalOperation,
            ..*old(err)
        }),
        capability is frame_cap && capability->capFIsDevice == 0 && vptr % 1024 != 0 ==> r
            == exception_t::EXCEPTION_SYSCALL_ERROR && *final(err) == (syscall_error_t {
            _type: seL4_AlignmentError,
            ..*old(err)
        }),
        capability is frame_cap && capability->capFIsDevice == 0 && vptr % 1024 == 0 ==> r
            == exception_t::EXCEPTION_NONE && *final(err) == *old(err),
{
    match capability {
        cap::frame_cap { capFIsDevice, .. } => {
            if *capFIsDevice != 0 {
                err._type = seL4_IllegalOperation;
                return exception_t::EXCEPTION_SYSCALL_ERROR;
            }
        },
        _ => {
            err._type = seL4_IllegalOperation;
            return exception_t::EXCEPTION_SYSCALL_ERROR;
        },
    }
    proof {
        assert(1usize << 10usize == 1024) by (bit_vector);
    }
    let m: usize = (1usize << seL4_IPCBufferSizeBits) - 1;
    proof {
        assert((vptr & 1023usize == 0) == (vptr % 1024 == 0)) by (bit_vector);
    }
    if vptr & m != 0 {
        err._type = seL4_AlignmentError;
        return exception_t::EXCEPTION_SYSCALL_ERROR;
    }
    exception_t::EXCEPTION_NONE
}

/// Refuses a destination slot that is not empty.
pub fn ensure_empty_slot(slot: &cte_t, err: &mut syscall_error_t) -> (r: exception_t)
    ensures
        slot.capability != cap::null_cap ==> r == exception_t::EXCEPTION_SYSCALL_ERROR && *final(err)
            == (syscall_error_t { _type: seL4_DeleteFirst, ..*old(err) }),
        slot.capability == cap::null_cap ==> r == exception_t::EXCEPTION_NONE && *final(err) == *old(err),
{
    if slot.capability.get_tag() != 0 {
        err._type = seL4_DeleteFirst;
        return exception_t::EXCEPTION_SYSCALL_ERROR;
    }
    exception_t::EXCEPTION_NONE
}

/// Result of resolving a capability address in a CNode tree.
#[derive(Debug, Clone, Copy, PartialEq, Eq, Structural)]
pub struct resolveAddressBits_ret_t {
    pub status: exception_t,
    pub slot: usize,
    pub bitsRemaining: usize,
}

/// Result of looking up a slot: its address when the status is `EXCEPTION_NONE`.
#[derive(Debug, Clone, Copy, PartialEq, Eq, Structural)]
pub struct lookupSlot_ret_t {
    pub status: exception_t,
    pub slot: usize,
}

/// Looks up the slot that a CNode operation names: `root` must be a CNode capability,
/// `depth` between 1 and a word's bits, and `res_ret`, the result of resolving the address
/// under `root` to `depth` bits, must have succeeded and used up all the bits. On failure the
/// error and lookup fault are recorded and the slot is null.
pub fn lookup_slot_for_cnode_op(
    is_source: bool,
    root: &cap,
    depth: usize,
    res_ret: resolveAddressBits_ret_t,
    err: &mut syscall_error_t,
    current_lookup_fault: &mut lookup_fault,
) -> (r: lookupSlot_ret_t)
    ensures
        !(root is cnode_cap) ==> {
            &&& r == (lookupSlot_ret_t { status: exception_t::EXCEPTION_SYSCALL_ERROR, slot: 0 })
            &&& *final(err) == (syscall_error_t {
                _type: seL4_FailedLookup,
                failedLookupWasSource: if is_source { 1usize } else { 0usize },
                ..*old(err)
            })
            &&& *final(current_lookup_fault) == lookup_fault::invalid_root
        },
        root is cnode_cap && (depth < 1 || depth > wordBits) ==> {
            &&& r == (lookupSlot_ret_t { status: exception_t::EXCEPTION_SYSCALL_ERROR, slot: 0 })
            &&& *final(err) == (syscall_error_t {
                _type: seL4_RangeError,
                rangeErrorMin: 1,
                rangeErrorMax: wordBits,
                ..*old(err)
            })
            &&& *final(current_lookup_fault) == *old(current_lookup_fault)
        },
        root is cnode_cap && 1 <= depth <= wordBits && res_ret.status != exception_t::EXCEPTION_NONE
            ==> {
            &&& r == (lookupSlot_ret_t { status: exception_t::EXCEPTION_SYSCALL_ERROR, slot: 0 })
            &&& *final(err) == (syscall_error_t {
                _type: seL4_FailedLookup,
                failedLookupWasSource: if is_source { 1usize } else { 0usize },
                ..*old(err)
            })
            &&& *final(current_lookup_fault) == *old(current_lookup_fault)
        },
        root is cnode_cap && 1 <= depth <= wordBits && res_ret.status == exception_t::EXCEPTION_NONE
            && res_ret.bitsRemaining != 0 ==> {
            &&& r == (lookupSlot_ret_t { status: exception_t::EXCEPTION_SYSCALL_ERROR, slot: 0 })
            &&& *final(err) == (syscall_error_t {
                _type: seL4_FailedLookup,
                failedLookupWasSource: if is_source { 1usize } else { 0usize },
                ..*old(err)
            })
            &&& *final(current_lookup_fault) == (lookup_fault::depth_mismatch {
                bitsFound: 0,
                bitsLeft: res_ret.bitsRemaining as u64,
            })
        },
        root is cnode_cap && 1 <= depth <= wordBits && res_ret.status == exception_t::EXCEPTION_NONE
            && res_ret.bitsRemaining == 0 ==> {
            &&& r == (lookupSlot_ret_t { status: exception_t::EXCEPTION_NONE, slot: res_ret.slot })
            &&& *final(err) == *old(err)
            &&& *final(current_lookup_fault) == *old(current_lookup_fault)
        },
{
    let mut ret = lookupSlot_ret_t { status: exception_t::EXCEPTION_NONE, slot: 0 };
    let was_source: usize = if is_source {
        1
    } else {
        0
    };
    match root {
        cap::cnode_cap { .. } => {},
        _ => {
            err._type = seL4_FailedLookup;
            err.failedLookupWasSource = was_source;
            *current_lookup_fault = lookup_fault::invalid_root;
            ret.status = exception_t::EXCEPTION_SYSCALL_ERROR;
            return ret;
        },
    }
    if depth < 1 || depth > wordBits {
        err._type = seL4_RangeError;
        err.rangeErrorMin = 1;
        err.rangeErrorMax = wordBits;
        ret.status = exception_t::EXCEPTION_SYSCALL_ERROR;
        return ret;
    }
    if res_ret.status != exception_t::EXCEPTION_NONE {
        err._type = seL4_FailedLookup;
        err.failedLookupWasSource = was_source;
        ret.status = exception_t::EXCEPTION_SYSCALL_ERROR;
        return ret;
    }
    if res_ret.bitsRemaining != 0 {
        err._type = seL4_FailedLookup;
        err.failedLookupWasSource = was_source;
        *current_lookup_fault = lookup_fault::depth_mismatch {
            bitsFound: 0,
            bitsLeft: res_ret.bitsRemaining as u64,
        };
        ret.status = exception_t::EXCEPTION_SYSCALL_ERROR;
        return ret;
    }
    ret.slot = res_ret.slot;
    ret.status = exception_t::EXCEPTION_NONE;
    ret
}

/// Looks up the slot that a CNode operation names; see `lookup_slot_for_cnode_op`.
pub fn lookupSlotForCNodeOp(
    isSource: bool,
    root: &cap,
    depth: usize,
    res_ret: resolveAddressBits_ret_t,
    err: &mut syscall_error_t,
    current_lookup_fault: &mut lookup_fault,
) -> (r: lookupSlot_ret_t)
    ensures
        !(root is cnode_cap) ==> {
            &&& r == (lookupSlot_ret_t { status: exception_t::EXCEPTION_SYSCALL_ERROR, slot: 0 })
            &&& *final(err) == (syscall_error_t {
                _type: seL4_FailedLookup,
                failedLookupWasSource: if isSource { 1usize } else { 0usize },
                ..*old(err)
            })
            &&& *final(current_lookup_fault) == lookup_fault::invalid_root
        },
        root is cnode_cap && (depth < 1 || depth > wordBits) ==> {
            &&& r == (lookupSlot_ret_t { status: exception_t::EXCEPTION_SYSCALL_ERROR, slot: 0 })
            &&& *final(err) == (syscall_error_t {
                _type: seL4_RangeError,
                rangeErrorMin: 1,
                rangeErrorMax: wordBits,
                ..*old(err)
            })
            &&& *final(current_lookup_fault) == *old(current_lookup_fault)
        },
        root is cnode_cap && 1 <= depth <= wordBits && res_ret.status != exception_t::EXCEPTION_NONE
            ==> {
            &&& r == (lookupSlot_ret_t { status: exception_t::EXCEPTION_SYSCALL_ERROR, slot: 0 })
            &&& *final(err) == (syscall_error_t {
                _type: seL4_FailedLookup,
                failedLookupWasSource: if isSource { 1usize } else { 0usize },
                ..*old(err)
            })
            &&& *final(current_lookup_fault) == *old(current_lookup_fault)
        },
        root is cnode_cap && 1 <= depth <= wordBits && res_ret.status == exception_t::EXCEPTION_NONE
            && res_ret.bitsRemaining != 0 ==> {
            &&& r == (lookupSlot_ret_t { status: exception_t::EXCEPTION_SYSCALL_ERROR, slot: 0 })
            &&& *final(err) == (syscall_error_t {
                _type: seL4_FailedLookup,
                failedLookupWasSource: if isSource { 1usize } else { 0usize },
                ..*old(err)
            })
            &&& *final(current_lookup_fault) == (lookup_fault::depth_mismatch {
                bitsFound: 0,
                bitsLeft: res_ret.bitsRemaining as u64,
            })
        },
        root is cnode_cap && 1 <= depth <= wordBits && res_ret.status == exception_t::EXCEPTION_NONE
            && res_ret.bitsRemaining == 0 ==> {
            &&& r == (lookupSlot_ret_t { status: exception_t::EXCEPTION_NONE, slot: res_ret.slot })
            &&& *final(err) == *old(err)
            &&& *final(current_lookup_fault) == *old(current_lookup_fault)
        },
        r == lookup_slot_result(root, depth, res_ret),
        (*final(err), *final(current_lookup_fault)) == lookup_slot_effect(
            isSource,
            root,
            depth,
            res_ret,
            *old(err),
            *old(current_lookup_fault),
        ),
{
    lookup_slot_for_cnode_op(isSource, root, depth, res_ret, err, current_lookup_fault)
}

/// The error and lookup failure that looking up a slot for a CNode operation records, from
/// `e` and `lf`: as `lookupSlotForCNodeOp` states case by case.
pub open spec fn lookup_slot_effect(
    is_source: bool,
    root: &cap,
    depth: usize,
    res_ret: resolveAddressBits_ret_t,
    e: syscall_error_t,
    lf: lookup_fault,
) -> (syscall_error_t, lookup_fault) {
    let failed = syscall_error_t {
        _type: seL4_FailedLookup,
        failedLookupWasSource: if is_source { 1usize } else { 0usize },
        ..e
    };
    if !(root is cnode_cap) {
        (failed, lookup_fault::invalid_root)
    } else if depth < 1 || depth > wordBits {
        (syscall_error_t { _type: seL4_RangeError, rangeErrorMin: 1, rangeErrorMax: wordBits, ..e }, lf)
    } else if res_ret.status != exception_t::EXCEPTION_NONE {
        (failed, lf)
    } else if res_ret.bitsRemaining != 0 {
        (failed, lookup_fault::depth_mismatch { bitsFound: 0, bitsLeft: res_ret.bitsRemaining as u64 })
    } else {
        (e, lf)
    }
}

/// The slot lookup that `lookup_slot_for_cnode_op` returns.
pub open spec fn lookup_slot_result(root: &cap, depth: usize, res_ret: resolveAddressBits_ret_t) -> lookupSlot_ret_t {
    if root is cnode_cap && 1 <= depth <= wordBits && res_ret.status == exception_t::EXCEPTION_NONE
        && res_ret.bitsRemaining == 0 {
        lookupSlot_ret_t { status: exception_t::EXCEPTION_NONE, slot: res_ret.slot }
    } else {
        lookupSlot_ret_t { status: exception_t::EXCEPTION_SYSCALL_ERROR, slot: 0 }
    }
}


/// Binds thread `tcb` (at `tcb_ptr`) and notification `nftn` (at `nftn_ptr`) to each other.
pub fn do_bind_notification(tcb: &mut tcb_t, tcb_ptr: usize, nftn: &mut notification_t, nftn_ptr: usize)
    ensures
        *final(nftn) == (notification_t { ntfnBoundTCB: tcb_ptr, ..*old(nftn) }),
        *final(tcb) == (tcb_t { tcbBoundNotification: nftn_ptr, ..*old(tcb) }),
{
    nftn.bind_tcb(tcb_ptr);
    tcb.bind_notification(nftn_ptr);
}

/// Undoes the binding of thread `tcb` and notification `nftn`.
pub fn do_unbind_notification(tcb: &mut tcb_t, nftn: &mut notification_t)
    ensures
        *final(nftn) == (notification_t { ntfnBoundTCB: 0, ..*old(nftn) }),
        *final(tcb) == (tcb_t { tcbBoundNotification: 0, ..*old(tcb) }),
{
    nftn.unbind_tcb();
    tcb.unbind_notification();
}

/// Unbinds thread `tcb` from its notification, if it has one; `ntfns` holds the
/// notifications, indexed by their pointers.
pub fn safe_unbind_notification(tcb: &mut tcb_t, ntfns: &mut Vec<notification_t>)
    requires
        old(tcb).tcbBoundNotification < old(ntfns).len(),
    ensures
        old(tcb).tcbBoundNotification == 0 ==> *final(tcb) == *old(tcb) && final(ntfns)@ == old(ntfns)@,
        old(tcb).tcbBoundNotification != 0 ==> {
            &&& *final(tcb) == (tcb_t { tcbBoundNotification: 0, ..*old(tcb) })
            &&& final(ntfns)@ == old(ntfns)@.update(
                old(tcb).tcbBoundNotification as int,
                notification_t { ntfnBoundTCB: 0, ..old(ntfns)@[old(tcb).tcbBoundNotification as int] },
            )
        },
{
    let nftn = tcb.tcbBoundNotification;
    if nftn != 0 {
        let mut n = ntfns[nftn];
        do_unbind_notification(tcb, &mut n);
        ntfns.set(nftn, n);
    }
}

/// Converting a free index to a byte offset and back gives the index, when the offset fits
/// in a word.
pub proof fn lemma_free_index_roundtrip(freeIndex: usize)
    requires
        freeIndex * 16 <= usize::MAX,
    ensures
        ((freeIndex * 16) as usize) / 16 == freeIndex,
{
}

/// The free index of the address of free index `freeIndex` is `freeIndex`.
pub proof fn lemma_free_ref_index_roundtrip(base: usize, freeIndex: usize)
    requires
        freeIndex * 16 <= usize::MAX,
        base + (freeIndex * 16) as usize <= usize::MAX,
    ensures
        ((base + (freeIndex * 16) as usize) - base) / 16 == freeIndex,
{
}

/// Rounding up is the only multiple of the alignment in `[base, base + 2^alignment)`, so a
/// value that is already aligned is left as it is.
pub proof fn lemma_align_up_aligned(baseValue: usize, alignment: usize, r: usize)
    requires
        alignment < usize::BITS,
        baseValue % (1usize << alignment) == 0,
        r % (1usize << alignment) == 0,
        baseValue <= r,
        r < baseValue + (1usize << alignment),
    ensures
        r == baseValue,
{
    let b = 1usize << alignment;
    assert(b > 0) by (bit_vector)
        requires
            alignment < usize::BITS,
            b == 1usize << alignment,
    ;
    let d: int = r - baseValue;
    assert(0 <= d < b);
    assert(d % (b as int) == 0) by {
        vstd::arithmetic::div_mod::lemma_sub_mod_noop(r as int, baseValue as int, b as int);
        vstd::arithmetic::div_mod::lemma_small_mod(0, b as nat);
    }
    vstd::arithmetic::div_mod::lemma_small_mod(d as nat, b as nat);
}

/// The byte offset of the last free index of an untyped object of `2^bits` bytes is its size.
pub proof fn lemma_max_free_index_offset(bits: nat)
    requires
        4 <= bits,
    ensures
        vstd::arithmetic::power2::pow2((bits - 4) as nat) * 16 == vstd::arithmetic::power2::pow2(bits),
{
    vstd::arithmetic::power2::lemma_pow2_adds((bits - 4) as nat, 4);
    vstd::arithmetic::power2::lemma2_to64();
}

/// Whether a capability can be a thread's VSpace root on RISC-V: a mapped page table.
pub fn is_valid_vtable_root(capability: &cap) -> (r: bool)
    ensures
        r == (match *capability {
            cap::page_table_cap { capPTIsMapped, .. } => capPTIsMapped != 0,
            _ => false,
        }),
{
    match capability {
        cap::page_table_cap { capPTIsMapped, .. } => *capPTIsMapped != 0,
        _ => false,
    }
}

/// Looks up the extra capabilities of `thread`'s message in `buf` into `excaprefs`, with
/// `slots` what looking up each of the buffer's capability pointers in the thread's CSpace
/// gave. A failed lookup records its capability fault in `current_fault` and answers a lookup
/// fault; otherwise the answer is no exception and the fault is left as it was.
pub fn lookup_extra_caps_with_buf(
    thread: &tcb_t,
    excaprefs: &mut Vec<usize>,
    buf: Option<&seL4_IPCBuffer>,
    slots: &Vec<lookupSlot_ret_t>,
    current_fault: &mut seL4_Fault,
) -> (r: exception_t)
    requires
        thread.wf(),
        old(excaprefs).len() == seL4_MsgMaxExtraCaps,
        slots.len() == seL4_MsgMaxExtraCaps,
        buf matches Some(b) ==> b.wf(),
    ensures
        final(excaprefs).len() == seL4_MsgMaxExtraCaps,
        buf is None ==> {
            &&& r == exception_t::EXCEPTION_NONE
            &&& final(excaprefs)@ == old(excaprefs)@
            &&& *final(current_fault) == *old(current_fault)
        },
        buf matches Some(b) ==> ({
            let o = extra_caps_outcome(extra_caps_count(*thread), *b, old(excaprefs)@, slots@);
            &&& final(excaprefs)@ == o.1
            &&& o.0 is Ok ==> r == exception_t::EXCEPTION_NONE && *final(current_fault) == *old(current_fault)
            &&& o.0 matches Err(f) ==> r == exception_t::EXCEPTION_LOOKUP_FAULT && *final(current_fault) == f
        }),
{
    match thread.lookup_extra_caps_with_buf(excaprefs, buf, slots) {
        Ok(()) => exception_t::EXCEPTION_NONE,
        Err(fault) => {
            *current_fault = fault;
            exception_t::EXCEPTION_LOOKUP_FAULT
        },
    }
}
} // verus!
