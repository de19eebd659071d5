//! Kernel-wide result codes and small shared structures.
use vstd::prelude::*;

verus! {

/// Outcome of a kernel operation.
#[derive(Debug, Clone, Copy, PartialEq, Eq, Structural)]
pub enum exception_t {
    EXCEPTION_NONE,
    EXCEPTION_FAULT,
    EXCEPTION_LOOKUP_FAULT,
    EXCEPTION_SYSCALL_ERROR,
    EXCEPTION_PREEMTED,
}

/// Rights carried by a capability-rights word.
#[derive(Debug, Clone, Copy, PartialEq, Eq, Structural)]
pub struct seL4_CapRights_t {
    pub capAllowGrantReply: u64,
    pub capAllowGrant: u64,
    pub capAllowRead: u64,
    pub capAllowWrite: u64,
}

impl seL4_CapRights_t {
    /// Decodes a rights word: bit 3 grant-reply, bit 2 grant, bit 1 read, bit 0 write.
    pub fn from_word(w: u64) -> (r: Self)
        ensures
            r.capAllowGrantReply == (w >> 3u64) & 1,
            r.capAllowGrant == (w >> 2u64) & 1,
            r.capAllowRead == (w >> 1u64) & 1,
            r.capAllowWrite == w & 1,
    {
        seL4_CapRights_t {
            capAllowGrantReply: (w >> 3u64) & 1,
            capAllowGrant: (w >> 2u64) & 1,
            capAllowRead: (w >> 1u64) & 1,
            capAllowWrite: w & 1,
        }
    }
}

/// Access rights of a mapped frame.
#[derive(Debug, Clone, Copy, PartialEq, Eq, Structural)]
pub enum vm_rights_t {
    VMKernelOnly,
    VMReadOnly,
    VMReadWrite,
}

/// The rights word of a frame capability for `r`.
pub open spec fn vm_rights_word(r: vm_rights_t) -> u64 {
    match r {
        vm_rights_t::VMKernelOnly => 1,
        vm_rights_t::VMReadOnly => 2,
        vm_rights_t::VMReadWrite => 3,
    }
}

/// Decodes the rights word of a frame capability; words other than 2 and 3 grant no user access.
pub fn vm_rights_from_word(w: u64) -> (r: vm_rights_t)
    ensures
        r == (if w == 2 { vm_rights_t::VMReadOnly } else if w == 3 { vm_rights_t::VMReadWrite } else {
            vm_rights_t::VMKernelOnly
        }),
{
    if w == 2 {
        vm_rights_t::VMReadOnly
    } else if w == 3 {
        vm_rights_t::VMReadWrite
    } else {
        vm_rights_t::VMKernelOnly
    }
}

/// Encodes frame rights as a word.
pub fn vm_rights_to_word(r: vm_rights_t) -> (w: u64)
    ensures
        w == vm_rights_word(r),
{
    match r {
        vm_rights_t::VMKernelOnly => 1,
        vm_rights_t::VMReadOnly => 2,
        vm_rights_t::VMReadWrite => 3,
    }
}

/// Frame rights left after masking with capability rights.
pub open spec fn mask_vm_rights_spec(vm_rights: vm_rights_t, rights: seL4_CapRights_t) -> vm_rights_t {
    if vm_rights == vm_rights_t::VMReadOnly && rights.capAllowRead != 0 {
        vm_rights_t::VMReadOnly
    } else if vm_rights == vm_rights_t::VMReadWrite && rights.capAllowRead != 0 {
        if rights.capAllowWrite == 0 {
            vm_rights_t::VMReadOnly
        } else {
            vm_rights_t::VMReadWrite
        }
    } else {
        vm_rights_t::VMKernelOnly
    }
}

/// Masks frame rights with capability rights: reading needs the read right, writing both.
pub fn maskVMRights(vm_rights: vm_rights_t, rights: seL4_CapRights_t) -> (r: vm_rights_t)
    ensures
        r == mask_vm_rights_spec(vm_rights, rights),
{
    if vm_rights == vm_rights_t::VMReadOnly && rights.capAllowRead != 0 {
        return vm_rights_t::VMReadOnly;
    }
    if vm_rights == vm_rights_t::VMReadWrite && rights.capAllowRead != 0 {
        if rights.capAllowWrite == 0 {
            return vm_rights_t::VMReadOnly;
        } else {
            return vm_rights_t::VMReadWrite;
        }
    }
    vm_rights_t::VMKernelOnly
}


/// The access a frame right gives: none, read, or read and write.
pub open spec fn vm_rights_level(v: vm_rights_t) -> int {
    match v {
        vm_rights_t::VMKernelOnly => 0,
        vm_rights_t::VMReadOnly => 1,
        vm_rights_t::VMReadWrite => 2,
    }
}

/// Masking frame rights never gives more access than they had.
pub proof fn lemma_mask_vm_rights_never_adds(v: vm_rights_t, rights: seL4_CapRights_t)
    ensures
        vm_rights_level(mask_vm_rights_spec(v, rights)) <= vm_rights_level(v),
{
}

/// Masking frame rights with read and write rights keeps them.
pub proof fn lemma_mask_vm_rights_full(v: vm_rights_t, rights: seL4_CapRights_t)
    requires
        rights.capAllowRead != 0,
        rights.capAllowWrite != 0,
    ensures
        mask_vm_rights_spec(v, rights) == v,
{
}

/// Masking frame rights twice with the same rights is masking them once.
pub proof fn lemma_mask_vm_rights_idempotent(v: vm_rights_t, rights: seL4_CapRights_t)
    ensures
        mask_vm_rights_spec(mask_vm_rights_spec(v, rights), rights) == mask_vm_rights_spec(v, rights),
{
}
} // verus!
