//! Capabilities: what they designate and how they are compared, derived and masked.
use vstd::prelude::*;
use crate::config::{
    wordBits, seL4_EndpointBits, seL4_NotificationBits, seL4_SlotBits, PT_SIZE_BITS, seL4_ReplyBits,
};
use crate::structures::{
    exception_t, seL4_CapRights_t, vm_rights_t, vm_rights_from_word, vm_rights_to_word, maskVMRights,
    mask_vm_rights_spec, vm_rights_word,
};
use crate::utils::{pageBitsForSize, page_bits_for_size_spec, MASK, mask_spec};

verus! {

/// Zombie type of a zombie that was a TCB.
pub const ZombieType_ZombieTCB: u64 = 128;
/// CNode radix of a TCB's CNode.
pub const TCB_CNODE_RADIX: u64 = 4;

/// A capability, by kind and fields.
#[derive(Debug, Clone, Copy, PartialEq, Eq, Structural)]
pub enum cap {
    null_cap,
    untyped_cap { capFreeIndex: u64, capIsDevice: u64, capBlockSize: u64, capPtr: u64 },
    endpoint_cap {
        capEPBadge: u64,
        capCanGrantReply: u64,
        capCanGrant: u64,
        capCanSend: u64,
        capCanReceive: u64,
        capEPPtr: u64,
    },
    notification_cap { capNtfnBadge: u64, capNtfnCanReceive: u64, capNtfnCanSend: u64, capNtfnPtr: u64 },
    reply_cap { capReplyCanGrant: u64, capReplyMaster: u64, capTCBPtr: u64 },
    cnode_cap { capCNodeRadix: u64, capCNodeGuardSize: u64, capCNodeGuard: u64, capCNodePtr: u64 },
    thread_cap { capTCBPtr: u64 },
    irq_control_cap,
    irq_handler_cap { capIRQ: u64 },
    zombie_cap { capZombieID: u64, capZombieType: u64 },
    domain_cap,
    frame_cap {
        capFMappedASID: u64,
        capFBasePtr: u64,
        capFSize: u64,
        capFMappedAddress: u64,
        capFVMRights: u64,
        capFIsDevice: u64,
    },
    page_table_cap { capPTMappedASID: u64, capPTBasePtr: u64, capPTIsMapped: u64, capPTMappedAddress: u64 },
    vspace_cap { capVSMappedASID: u64, capVSBasePtr: u64, capVSIsMapped: u64 },
    asid_control_cap,
    asid_pool_cap { capASIDBase: u64, capASIDPool: u64 },
}

/// Data word of a CNode capability update: guard size in bits 0..6, guard above.
#[derive(Debug, Clone, Copy)]
pub struct CNodeCapData {
    pub words: [u64; 1],
}

impl CNodeCapData {
    /// Wraps a data word.
    pub fn new(data: u64) -> (r: Self)
        ensures
            r.words[0] == data,
    {
        CNodeCapData { words: [data] }
    }

    /// The guard: the word without its low six bits.
    pub fn get_guard(&self) -> (r: u64)
        ensures
            r == (self.words[0] & 0xffffffffffffffc0u64) >> 6u64,
            r == self.words[0] >> 6u64,
    {
        let w = self.words[0];
        assert((w & 0xffffffffffffffc0u64) >> 6u64 == w >> 6u64) by (bit_vector);
        (w & 0xffffffffffffffc0u64) >> 6u64
    }

    /// The guard size: the low six bits.
    pub fn get_guard_size(&self) -> (r: u64)
        ensures
            r == self.words[0] & 0x3fu64,
            r < 64,
    {
        let w = self.words[0];
        assert(w & 0x3fu64 < 64) by (bit_vector);
        w & 0x3fu64
    }
}

/// Result of deriving a capability.
#[derive(Debug, Clone, Copy, PartialEq, Eq, Structural)]
pub struct deriveCap_ret {
    pub status: exception_t,
    pub capability: cap,
}

/// Links of a capability slot in the derivation tree.
#[derive(Debug, Clone, Copy, PartialEq, Eq, Structural)]
pub struct mdb_node_t {
    pub mdbNext: u64,
    pub mdbRevocable: u64,
    pub mdbFirstBadged: u64,
    pub mdbPrev: u64,
}

impl mdb_node_t {
    /// A node with the given links and flags.
    pub fn new(mdbNext: u64, mdbRevocable: u64, mdbFirstBadged: u64, mdbPrev: u64) -> (r: Self)
        ensures
            r == (mdb_node_t { mdbNext, mdbRevocable, mdbFirstBadged, mdbPrev }),
    {
        mdb_node_t { mdbNext, mdbRevocable, mdbFirstBadged, mdbPrev }
    }
}

/// A capability slot.
#[derive(Debug, Clone, Copy, PartialEq, Eq, Structural)]
pub struct cte_t {
    pub capability: cap,
    pub cteMDBNode: mdb_node_t,
}

/// The tag number of a capability kind; architecture capabilities have odd tags.
pub open spec fn tag_spec(c: cap) -> u64 {
    match c {
        cap::null_cap => 0,
        cap::untyped_cap { .. } => 2,
        cap::endpoint_cap { .. } => 4,
        cap::notification_cap { .. } => 6,
        cap::reply_cap { .. } => 8,
        cap::cnode_cap { .. } => 10,
        cap::thread_cap { .. } => 12,
        cap::irq_control_cap => 14,
        cap::irq_handler_cap { .. } => 16,
        cap::zombie_cap { .. } => 18,
        cap::domain_cap => 20,
        cap::frame_cap { .. } => 1,
        cap::page_table_cap { .. } => 3,
        cap::vspace_cap { .. } => 9,
        cap::asid_control_cap => 11,
        cap::asid_pool_cap { .. } => 13,
    }
}

/// Whether the capability is architecture-specific.
pub open spec fn is_arch_cap_spec(c: cap) -> bool {
    c is frame_cap || c is page_table_cap || c is vspace_cap || c is asid_control_cap
        || c is asid_pool_cap
}

/// The radix that locates a zombie's object, or `None` where its type word has no meaning.
pub open spec fn zombie_bit_spec(zombie_type: u64) -> u64 {
    if zombie_type == ZombieType_ZombieTCB {
        TCB_CNODE_RADIX
    } else {
        zombie_type & 63
    }
}

/// The object a capability points to, or 0.
pub open spec fn cap_ptr_spec(c: cap) -> u64 {
    match c {
        cap::untyped_cap { capPtr, .. } => capPtr,
        cap::endpoint_cap { capEPPtr, .. } => capEPPtr,
        cap::notification_cap { capNtfnPtr, .. } => capNtfnPtr,
        cap::cnode_cap { capCNodePtr, .. } => capCNodePtr,
        cap::thread_cap { capTCBPtr } => capTCBPtr,
        cap::zombie_cap { capZombieID, capZombieType } => capZombieID & !mask_spec(
            (zombie_bit_spec(capZombieType) + 1) as u64,
        ),
        cap::frame_cap { capFBasePtr, .. } => capFBasePtr,
        cap::page_table_cap { capPTBasePtr, .. } => capPTBasePtr,
        cap::vspace_cap { capVSBasePtr, .. } => capVSBasePtr,
        cap::asid_pool_cap { capASIDPool, .. } => capASIDPool,
        _ => 0,
    }
}

/// Size, in bits, of the object a capability designates, or 0.
pub open spec fn cap_size_bits_spec(c: cap) -> int {
    match c {
        cap::untyped_cap { capBlockSize, .. } => capBlockSize as int,
        cap::endpoint_cap { .. } => seL4_EndpointBits as int,
        cap::notification_cap { .. } => seL4_NotificationBits as int,
        cap::cnode_cap { capCNodeRadix, .. } => capCNodeRadix + seL4_SlotBits,
        cap::page_table_cap { .. } => PT_SIZE_BITS as int,
        cap::reply_cap { .. } => seL4_ReplyBits as int,
        _ => 0,
    }
}

/// Whether the capability designates physical memory.
pub open spec fn cap_is_physical_spec(c: cap) -> bool {
    c is untyped_cap || c is endpoint_cap || c is notification_cap || c is cnode_cap || c is frame_cap
        || c is asid_pool_cap || c is page_table_cap || c is zombie_cap || c is thread_cap
}

/// The capability's fields fit their bitfield widths where the operations below need it.
pub open spec fn cap_fields_valid(c: cap) -> bool {
    match c {
        cap::untyped_cap { capBlockSize, .. } => capBlockSize < 64,
        cap::cnode_cap { capCNodeRadix, capCNodeGuardSize, .. } => capCNodeRadix < 64 && capCNodeGuardSize < 64,
        cap::zombie_cap { capZombieType, .. } => zombie_bit_spec(capZombieType) < 63,
        cap::frame_cap { capFSize, .. } => capFSize <= 2,
        _ => true,
    }
}

impl cap {
    /// The tag number of the capability's kind.
    pub fn get_tag(&self) -> (r: u64)
        ensures
            r == tag_spec(*self),
    {
        match self {
            cap::null_cap => 0,
            cap::untyped_cap { .. } => 2,
            cap::endpoint_cap { .. } => 4,
            cap::notification_cap { .. } => 6,
            cap::reply_cap { .. } => 8,
            cap::cnode_cap { .. } => 10,
            cap::thread_cap { .. } => 12,
            cap::irq_control_cap => 14,
            cap::irq_handler_cap { .. } => 16,
            cap::zombie_cap { .. } => 18,
            cap::domain_cap => 20,
            cap::frame_cap { .. } => 1,
            cap::page_table_cap { .. } => 3,
            cap::vspace_cap { .. } => 9,
            cap::asid_control_cap => 11,
            cap::asid_pool_cap { .. } => 13,
        }
    }
}

/// Capability operations common to all architectures.
pub trait cap_pub_func: Sized {
    /// The fields fit the widths that the operations rely on.
    spec fn fields_valid(&self) -> bool;

    /// The capability with new badge or guard data.
    fn update_data(&self, preserve: bool, new_data: u64) -> Self
        requires
            self.fields_valid(),
    ;

    /// Size, in bits, of the object the capability designates.
    fn get_cap_size_bits(&self) -> u64
        requires
            self.fields_valid(),
    ;

    /// Whether the capability designates physical memory.
    fn get_cap_is_physical(&self) -> bool;

    /// Whether the capability is architecture-specific.
    fn isArchCap(&self) -> bool;
}

/// Capability operations whose meaning depends on the architecture.
pub trait cap_arch_func: Sized {
    /// The fields fit the widths that the operations rely on.
    spec fn ptr_fields_valid(&self) -> bool;

    /// The object the capability points to.
    fn get_cap_ptr(&self) -> u64
        requires
            self.ptr_fields_valid(),
    ;

    /// Whether the capability designates a VSpace root.
    fn is_vtable_root(&self) -> bool;

    /// Whether the capability is a mapped VSpace root.
    fn is_valid_native_root(&self) -> bool;

    /// Whether the capability can serve as a thread's VSpace root.
    fn is_valid_vtable_root(&self) -> bool;
}

impl cap_pub_func for cap {
    open spec fn fields_valid(&self) -> bool {
        cap_fields_valid(*self)
    }

    /// The capability with new badge or guard data. Architecture capabilities are unchanged;
    /// an endpoint or notification capability takes `new_data` as its badge only if it has no
    /// badge and `preserve` is false, and becomes null otherwise; a CNode capability takes its
    /// guard size from the low six bits of `new_data` and its guard from the bits above,
    /// and becomes null if guard size and radix exceed a word.
    fn update_data(&self, preserve: bool, new_data: u64) -> (r: cap)
        ensures
            r == update_data_spec(*self, preserve, new_data),
    {
        if self.isArchCap() {
            return self.clone();
        }
        match self {
            cap::endpoint_cap { capEPBadge, capCanGrantReply, capCanGrant, capCanSend, capCanReceive, capEPPtr } => {
                if !preserve && *capEPBadge == 0 {
                    cap::endpoint_cap {
                        capEPBadge: new_data,
                        capCanGrantReply: *capCanGrantReply,
                        capCanGrant: *capCanGrant,
                        capCanSend: *capCanSend,
                        capCanReceive: *capCanReceive,
                        capEPPtr: *capEPPtr,
                    }
                } else {
                    cap::null_cap
                }
            },
            cap::notification_cap { capNtfnBadge, capNtfnCanReceive, capNtfnCanSend, capNtfnPtr } => {
                if !preserve && *capNtfnBadge == 0 {
                    cap::notification_cap {
                        capNtfnBadge: new_data,
                        capNtfnCanReceive: *capNtfnCanReceive,
                        capNtfnCanSend: *capNtfnCanSend,
                        capNtfnPtr: *capNtfnPtr,
                    }
                } else {
                    cap::null_cap
                }
            },
            cap::cnode_cap { capCNodeRadix, capCNodePtr, .. } => {
                let w = CNodeCapData::new(new_data);
                let guard_size = w.get_guard_size();
                if guard_size + *capCNodeRadix > wordBits as u64 {
                    return cap::null_cap;
                }
                let guard = w.get_guard() & MASK(guard_size);
                cap::cnode_cap {
                    capCNodeRadix: *capCNodeRadix,
                    capCNodeGuardSize: guard_size,
                    capCNodeGuard: guard,
                    capCNodePtr: *capCNodePtr,
                }
            },
            _ => self.clone(),
        }
    }

    /// Size, in bits, of the object the capability designates, or 0.
    fn get_cap_size_bits(&self) -> (r: u64)
        ensures
            r == cap_size_bits_spec(*self),
    {
        match self {
            cap::untyped_cap { capBlockSize, .. } => *capBlockSize,
            cap::endpoint_cap { .. } => seL4_EndpointBits as u64,
            cap::notification_cap { .. } => seL4_NotificationBits as u64,
            cap::cnode_cap { capCNodeRadix, .. } => *capCNodeRadix + seL4_SlotBits as u64,
            cap::page_table_cap { .. } => PT_SIZE_BITS as u64,
            cap::reply_cap { .. } => seL4_ReplyBits as u64,
            _ => 0,
        }
    }

    /// Whether the capability designates physical memory.
    fn get_cap_is_physical(&self) -> (r: bool)
        ensures
            r == cap_is_physical_spec(*self),
    {
        match self {
            cap::untyped_cap { .. }
            | cap::endpoint_cap { .. }
            | cap::notification_cap { .. }
            | cap::cnode_cap { .. }
            | cap::frame_cap { .. }
            | cap::asid_pool_cap { .. }
            | cap::page_table_cap { .. }
            | cap::zombie_cap { .. }
            | cap::thread_cap { .. } => true,
            _ => false,
        }
    }

    /// Whether the capability is architecture-specific (its tag is odd).
    fn isArchCap(&self) -> (r: bool)
        ensures
            r == (tag_spec(*self) % 2 != 0),
            r == is_arch_cap_spec(*self),
    {
        self.get_tag() % 2 != 0
    }
}

impl cap_arch_func for cap {
    open spec fn ptr_fields_valid(&self) -> bool {
        cap_fields_valid(*self)
    }

    /// The object the capability points to, or 0 for capabilities without an object.
    fn get_cap_ptr(&self) -> (r: u64)
        ensures
            r == cap_ptr_spec(*self),
    {
        match self {
            cap::untyped_cap { capPtr, .. } => *capPtr,
            cap::endpoint_cap { capEPPtr, .. } => *capEPPtr,
            cap::notification_cap { capNtfnPtr, .. } => *capNtfnPtr,
            cap::cnode_cap { capCNodePtr, .. } => *capCNodePtr,
            cap::thread_cap { capTCBPtr } => *capTCBPtr,
            cap::zombie_cap { capZombieID, capZombieType } => {
                let bit = if *capZombieType == ZombieType_ZombieTCB {
                    TCB_CNODE_RADIX
                } else {
                    *capZombieType & 63
                };
                *capZombieID & !MASK(bit + 1)
            },
            cap::frame_cap { capFBasePtr, .. } => *capFBasePtr,
            cap::page_table_cap { capPTBasePtr, .. } => *capPTBasePtr,
            cap::vspace_cap { capVSBasePtr, .. } => *capVSBasePtr,
            cap::asid_control_cap => 0,
            cap::asid_pool_cap { capASIDPool, .. } => *capASIDPool,
            _ => 0,
        }
    }

    /// Whether the capability designates a VSpace root.
    fn is_vtable_root(&self) -> (r: bool)
        ensures
            r == (*self is vspace_cap),
    {
        self.get_tag() == 9
    }

    /// Whether the capability is a mapped VSpace root.
    fn is_valid_native_root(&self) -> (r: bool)
        ensures
            r == (match *self {
                cap::vspace_cap { capVSIsMapped, .. } => capVSIsMapped != 0,
                _ => false,
            }),
    {
        match self {
            cap::vspace_cap { capVSIsMapped, .. } => self.is_vtable_root() && *capVSIsMapped != 0,
            _ => false,
        }
    }

    /// Whether the capability can serve as a thread's VSpace root.
    fn is_valid_vtable_root(&self) -> (r: bool)
        ensures
            r == (match *self {
                cap::vspace_cap { capVSIsMapped, .. } => capVSIsMapped != 0,
                _ => false,
            }),
    {
        self.is_valid_native_root()
    }
}

/// The capability that `update_data` gives.
pub open spec fn update_data_spec(c: cap, preserve: bool, new_data: u64) -> cap {
    if is_arch_cap_spec(c) {
        c
    } else {
        match c {
            cap::endpoint_cap { capEPBadge, capCanGrantReply, capCanGrant, capCanSend, capCanReceive, capEPPtr } =>
                if !preserve && capEPBadge == 0 {
                    cap::endpoint_cap { capEPBadge: new_data, capCanGrantReply, capCanGrant, capCanSend, capCanReceive, capEPPtr }
                } else {
                    cap::null_cap
                },
            cap::notification_cap { capNtfnBadge, capNtfnCanReceive, capNtfnCanSend, capNtfnPtr } =>
                if !preserve && capNtfnBadge == 0 {
                    cap::notification_cap { capNtfnBadge: new_data, capNtfnCanReceive, capNtfnCanSend, capNtfnPtr }
                } else {
                    cap::null_cap
                },
            cap::cnode_cap { capCNodeRadix, capCNodePtr, .. } => {
                let guard_size = new_data & 0x3f;
                if guard_size + capCNodeRadix > 64 {
                    cap::null_cap
                } else {
                    cap::cnode_cap {
                        capCNodeRadix,
                        capCNodeGuardSize: guard_size,
                        capCNodeGuard: (new_data >> 6u64) & mask_spec(guard_size),
                        capCNodePtr,
                    }
                }
            },
            _ => c,
        }
    }
}


/// Whether two architecture capabilities cover the same region: frames when the second lies
/// within the first; page tables, VSpaces and ASID pools when they designate the same object;
/// ASID control capabilities always.
pub open spec fn arch_same_region_as_spec(cap1: cap, cap2: cap) -> bool {
    match cap1 {
        cap::frame_cap { capFBasePtr: botA, capFSize: sizeA, .. } => match cap2 {
            cap::frame_cap { capFBasePtr: botB, capFSize: sizeB, .. } => {
                let topA = botA + mask_spec(page_bits_for_size_spec(sizeA as usize) as u64);
                let topB = botB + mask_spec(page_bits_for_size_spec(sizeB as usize) as u64);
                botA <= botB && topA >= topB && botB <= topB
            },
            _ => false,
        },
        cap::page_table_cap { capPTBasePtr: a, .. } => match cap2 {
            cap::page_table_cap { capPTBasePtr: b, .. } => a == b,
            _ => false,
        },
        cap::vspace_cap { capVSBasePtr: a, .. } => match cap2 {
            cap::vspace_cap { capVSBasePtr: b, .. } => a == b,
            _ => false,
        },
        cap::asid_control_cap => cap2 is asid_control_cap,
        cap::asid_pool_cap { capASIDPool: a, .. } => match cap2 {
            cap::asid_pool_cap { capASIDPool: b, .. } => a == b,
            _ => false,
        },
        _ => false,
    }
}

/// Region arithmetic of two frame capabilities stays within a machine word.
pub open spec fn frame_bounds_fit(c: cap) -> bool {
    match c {
        cap::frame_cap { capFBasePtr, capFSize, .. } => capFSize <= 2 && capFBasePtr + mask_spec(
            page_bits_for_size_spec(capFSize as usize) as u64,
        ) <= u64::MAX,
        _ => true,
    }
}

/// Whether two architecture capabilities cover the same region.
pub fn arch_same_region_as(cap1: &cap, cap2: &cap) -> (r: bool)
    requires
        is_arch_cap_spec(*cap1),
        frame_bounds_fit(*cap1),
        frame_bounds_fit(*cap2),
    ensures
        r == arch_same_region_as_spec(*cap1, *cap2),
{
    match cap1 {
        cap::frame_cap { capFBasePtr: a_base, capFSize: a_size, .. } => match cap2 {
            cap::frame_cap { capFBasePtr: b_base, capFSize: b_size, .. } => {
                let botA = *a_base;
                let botB = *b_base;
                let topA = botA + MASK(pageBitsForSize(*a_size as usize) as u64);
                let topB = botB + MASK(pageBitsForSize(*b_size as usize) as u64);
                return (botA <= botB) && (topA >= topB) && (botB <= topB);
            },
            _ => return false,
        },
        cap::page_table_cap { capPTBasePtr: a, .. } => match cap2 {
            cap::page_table_cap { capPTBasePtr: b, .. } => {
                return *a == *b;
            },
            _ => return false,
        },
        cap::vspace_cap { capVSBasePtr: a, .. } => match cap2 {
            cap::vspace_cap { capVSBasePtr: b, .. } => {
                return *a == *b;
            },
            _ => return false,
        },
        cap::asid_control_cap => {
            return cap2.get_tag() == 11;
        },
        cap::asid_pool_cap { capASIDPool: a, .. } => match cap2 {
            cap::asid_pool_cap { capASIDPool: b, .. } => {
                return *a == *b;
            },
            _ => return false,
        },
        _ => false,
    }
}

/// Whether two architecture capabilities designate the same object: frames of the same
/// base, size and device flag, and otherwise the same region.
pub open spec fn arch_same_object_as_spec(cap1: cap, cap2: cap) -> bool {
    match (cap1, cap2) {
        (
            cap::frame_cap { capFBasePtr: a, capFSize: sa, capFIsDevice: da, .. },
            cap::frame_cap { capFBasePtr: b, capFSize: sb, capFIsDevice: db, .. },
        ) => a == b && sa == sb && da == db,
        _ => arch_same_region_as_spec(cap1, cap2),
    }
}

/// Whether two architecture capabilities designate the same object.
pub fn arch_same_object_as(cap1: &cap, cap2: &cap) -> (r: bool)
    requires
        is_arch_cap_spec(*cap1),
        frame_bounds_fit(*cap1),
        frame_bounds_fit(*cap2),
    ensures
        r == arch_same_object_as_spec(*cap1, *cap2),
{
    match cap1 {
        cap::frame_cap { capFBasePtr: a, capFSize: sa, capFIsDevice: da, .. } => match cap2 {
            cap::frame_cap { capFBasePtr: b, capFSize: sb, capFIsDevice: db, .. } => {
                return *a == *b && *sa == *sb && *da == *db;
            },
            _ => {},
        },
        _ => {},
    }
    arch_same_region_as(cap1, cap2)
}

/// Region arithmetic of `same_region_as` stays within a machine word.
pub open spec fn region_bounds_fit(cap1: cap, cap2: cap) -> bool {
    &&& cap_fields_valid(cap1)
    &&& cap_fields_valid(cap2)
    &&& frame_bounds_fit(cap1)
    &&& frame_bounds_fit(cap2)
    &&& (cap1 is untyped_cap && cap_is_physical_spec(cap2)) ==> {
        &&& 0 <= cap_size_bits_spec(cap2) < 64
        &&& cap_ptr_spec(cap1) + mask_spec(cap_size_bits_spec(cap1) as u64) <= u64::MAX
        &&& cap_ptr_spec(cap2) + mask_spec(cap_size_bits_spec(cap2) as u64) <= u64::MAX
    }
}

/// Whether the object of `cap2` lies within the memory region that `cap1` covers.
pub open spec fn same_region_as_spec(cap1: cap, cap2: cap) -> bool {
    match cap1 {
        cap::untyped_cap { capPtr, capBlockSize, .. } => {
            if cap_is_physical_spec(cap2) {
                let aBase = capPtr;
                let bBase = cap_ptr_spec(cap2);
                let aTop = aBase + mask_spec(capBlockSize);
                let bTop = bBase + mask_spec(cap_size_bits_spec(cap2) as u64);
                aBase <= bBase && bTop <= aTop && bBase <= bTop
            } else {
                false
            }
        },
        cap::endpoint_cap { .. } | cap::notification_cap { .. } | cap::page_table_cap { .. }
        | cap::asid_pool_cap { .. } | cap::thread_cap { .. } => tag_spec(cap2) == tag_spec(cap1)
            && cap_ptr_spec(cap1) == cap_ptr_spec(cap2),
        cap::asid_control_cap | cap::domain_cap => tag_spec(cap2) == tag_spec(cap1),
        cap::cnode_cap { capCNodePtr: p1, capCNodeRadix: r1, .. } => match cap2 {
            cap::cnode_cap { capCNodePtr: p2, capCNodeRadix: r2, .. } => p1 == p2 && r1 == r2,
            _ => false,
        },
        cap::irq_control_cap => cap2 is irq_control_cap || cap2 is irq_handler_cap,
        cap::irq_handler_cap { capIRQ: i1 } => match cap2 {
            cap::irq_handler_cap { capIRQ: i2 } => i1 == i2,
            _ => false,
        },
        cap::frame_cap { .. } | cap::vspace_cap { .. } => arch_same_region_as_spec(cap1, cap2),
        _ => false,
    }
}

/// Whether the object of `cap2` lies within the memory region that `cap1` covers.
pub fn same_region_as(cap1: &cap, cap2: &cap) -> (r: bool)
    requires
        region_bounds_fit(*cap1, *cap2),
    ensures
        r == same_region_as_spec(*cap1, *cap2),
{
    match cap1 {
        cap::untyped_cap { capPtr, capBlockSize, .. } => {
            if cap2.get_cap_is_physical() {
                let aBase = *capPtr;
                let bBase = cap2.get_cap_ptr();
                let aTop = aBase + MASK(*capBlockSize);
                let bTop = bBase + MASK(cap2.get_cap_size_bits());
                return (aBase <= bBase) && (bTop <= aTop) && (bBase <= bTop);
            }
            false
        },
        cap::endpoint_cap { .. }
        | cap::notification_cap { .. }
        | cap::page_table_cap { .. }
        | cap::asid_pool_cap { .. }
        | cap::thread_cap { .. } => {
            if cap2.get_tag() == cap1.get_tag() {
                return cap1.get_cap_ptr() == cap2.get_cap_ptr();
            }
            false
        },
        cap::asid_control_cap | cap::domain_cap => {
            if cap2.get_tag() == cap1.get_tag() {
                return true;
            }
            false
        },
        cap::cnode_cap { capCNodePtr: p1, capCNodeRadix: r1, .. } => match cap2 {
            cap::cnode_cap { capCNodePtr: p2, capCNodeRadix: r2, .. } => {
                return (*p1 == *p2) && (*r1 == *r2);
            },
            _ => return false,
        },
        cap::irq_control_cap => {
            let t = cap2.get_tag();
            t == 14 || t == 16
        },
        cap::irq_handler_cap { capIRQ: i1 } => match cap2 {
            cap::irq_handler_cap { capIRQ: i2 } => {
                return *i1 == *i2;
            },
            _ => return false,
        },
        cap::frame_cap { .. } | cap::vspace_cap { .. } => arch_same_region_as(cap1, cap2),
        _ => false,
    }
}

/// Whether two capabilities designate the same object.
pub open spec fn same_object_as_spec(cap1: cap, cap2: cap) -> bool {
    if cap1 is untyped_cap {
        false
    } else if cap1 is irq_control_cap && cap2 is irq_handler_cap {
        false
    } else if is_arch_cap_spec(cap1) && is_arch_cap_spec(cap2) {
        arch_same_object_as_spec(cap1, cap2)
    } else {
        same_region_as_spec(cap1, cap2)
    }
}

/// Whether two capabilities designate the same object. An untyped capability designates no
/// single object, so it is never the same object as another capability.
pub fn same_object_as(cap1: &cap, cap2: &cap) -> (r: bool)
    requires
        region_bounds_fit(*cap1, *cap2),
    ensures
        r == same_object_as_spec(*cap1, *cap2),
{
    if cap1.get_tag() == 2 {
        return false;
    }
    if cap1.get_tag() == 14 && cap2.get_tag() == 16 {
        return false;
    }
    if cap1.isArchCap() && cap2.isArchCap() {
        return arch_same_object_as(cap1, cap2);
    }
    same_region_as(cap1, cap2)
}

/// Whether a capability derived from `src_cap` may be revoked on its own.
pub open spec fn is_cap_revocable_spec(derived_cap: cap, src_cap: cap) -> bool {
    if is_arch_cap_spec(derived_cap) {
        false
    } else {
        match derived_cap {
            cap::endpoint_cap { capEPBadge: b1, .. } => match src_cap {
                cap::endpoint_cap { capEPBadge: b2, .. } => b1 != b2,
                _ => false,
            },
            cap::notification_cap { capNtfnBadge: b1, .. } => match src_cap {
                cap::notification_cap { capNtfnBadge: b2, .. } => b1 != b2,
                _ => false,
            },
            cap::irq_handler_cap { .. } => src_cap is irq_control_cap,
            cap::untyped_cap { .. } => true,
            _ => false,
        }
    }
}

/// Whether a capability derived from `src_cap` may be revoked on its own: badged endpoint
/// and notification capabilities whose badge differs from their source's, IRQ handler
/// capabilities made from IRQ control, and untyped capabilities.
pub fn is_cap_revocable(derived_cap: &cap, src_cap: &cap) -> (r: bool)
    requires
        derived_cap is endpoint_cap ==> src_cap is endpoint_cap,
        derived_cap is notification_cap ==> src_cap is notification_cap,
    ensures
        r == is_cap_revocable_spec(*derived_cap, *src_cap),
        derived_cap is notification_cap ==> r == (derived_cap->capNtfnBadge != src_cap->capNtfnBadge),
        derived_cap is endpoint_cap ==> r == (derived_cap->capEPBadge != src_cap->capEPBadge),
{
    if derived_cap.isArchCap() {
        return false;
    }
    match derived_cap {
        cap::endpoint_cap { capEPBadge: b1, .. } => match src_cap {
            cap::endpoint_cap { capEPBadge: b2, .. } => {
                return *b1 != *b2;
            },
            _ => false,
        },
        cap::notification_cap { capNtfnBadge: b1, .. } => match src_cap {
            cap::notification_cap { capNtfnBadge: b2, .. } => {
                return *b1 != *b2;
            },
            _ => false,
        },
        cap::irq_handler_cap { .. } => src_cap.get_tag() == 14,
        cap::untyped_cap { .. } => true,
        _ => false,
    }
}

/// The capability with its frame rights masked by `rights`; other capabilities unchanged.
pub open spec fn arch_mask_cap_rights_spec(rights: seL4_CapRights_t, c: cap) -> cap {
    match c {
        cap::frame_cap { capFMappedASID, capFBasePtr, capFSize, capFMappedAddress, capFVMRights, capFIsDevice } =>
            cap::frame_cap {
                capFMappedASID,
                capFBasePtr,
                capFSize,
                capFMappedAddress,
                capFVMRights: vm_rights_word(
                    mask_vm_rights_spec(
                        if capFVMRights == 2 { vm_rights_t::VMReadOnly } else if capFVMRights == 3 {
                            vm_rights_t::VMReadWrite
                        } else {
                            vm_rights_t::VMKernelOnly
                        },
                        rights,
                    ),
                ),
                capFIsDevice,
            },
        _ => c,
    }
}

/// Masks the rights of a frame capability; other architecture capabilities are unchanged.
pub fn arch_mask_cap_rights(rights: seL4_CapRights_t, capability: &cap) -> (r: cap)
    ensures
        r == arch_mask_cap_rights_spec(rights, *capability),
{
    match capability {
        cap::frame_cap { capFMappedASID, capFBasePtr, capFSize, capFMappedAddress, capFVMRights, capFIsDevice } => {
            let mut vm_rights = vm_rights_from_word(*capFVMRights);
            vm_rights = maskVMRights(vm_rights, rights);
            cap::frame_cap {
                capFMappedASID: *capFMappedASID,
                capFBasePtr: *capFBasePtr,
                capFSize: *capFSize,
                capFMappedAddress: *capFMappedAddress,
                capFVMRights: vm_rights_to_word(vm_rights),
                capFIsDevice: *capFIsDevice,
            }
        },
        _ => capability.clone(),
    }
}

/// The capability as `mask_cap_rights` returns it: architecture capabilities go through
/// `arch_mask_cap_rights`; every other capability is returned as it is.
pub open spec fn mask_cap_rights_spec(rights: seL4_CapRights_t, c: cap) -> cap {
    if is_arch_cap_spec(c) {
        arch_mask_cap_rights_spec(rights, c)
    } else {
        c
    }
}

/// Masks a capability's rights. The rights of architecture capabilities are masked; the
/// rights fields of other capabilities are left as they are.
pub fn mask_cap_rights(rights: seL4_CapRights_t, capability: &cap) -> (r: cap)
    ensures
        r == mask_cap_rights_spec(rights, *capability),
{
    if capability.isArchCap() {
        return arch_mask_cap_rights(rights, capability);
    }
    capability.clone()
}

/// The derivation of an architecture capability.
pub open spec fn arch_derive_cap_spec(c: cap) -> deriveCap_ret {
    match c {
        cap::vspace_cap { capVSIsMapped, .. } => if capVSIsMapped != 0 {
            deriveCap_ret { status: exception_t::EXCEPTION_NONE, capability: c }
        } else {
            deriveCap_ret { status: exception_t::EXCEPTION_SYSCALL_ERROR, capability: cap::null_cap }
        },
        cap::page_table_cap { capPTIsMapped, .. } => if capPTIsMapped != 0 {
            deriveCap_ret { status: exception_t::EXCEPTION_NONE, capability: c }
        } else {
            deriveCap_ret { status: exception_t::EXCEPTION_SYSCALL_ERROR, capability: cap::null_cap }
        },
        cap::frame_cap { capFBasePtr, capFSize, capFMappedAddress, capFVMRights, capFIsDevice, .. } =>
            deriveCap_ret {
                status: exception_t::EXCEPTION_NONE,
                capability: cap::frame_cap {
                    capFMappedASID: 0,
                    capFBasePtr,
                    capFSize,
                    capFMappedAddress,
                    capFVMRights,
                    capFIsDevice,
                },
            },
        _ => deriveCap_ret { status: exception_t::EXCEPTION_NONE, capability: c },
    }
}

impl cte_t {
    /// Derives an architecture capability: unmapped page tables and VSpaces cannot be derived,
    /// a derived frame capability is unmapped, and ASID capabilities are copied.
    pub fn arch_derive_cap(&mut self, capability: &cap) -> (r: deriveCap_ret)
        requires
            is_arch_cap_spec(*capability),
        ensures
            r == arch_derive_cap_spec(*capability),
            *final(self) == *old(self),
    {
        let mut ret = deriveCap_ret { status: exception_t::EXCEPTION_NONE, capability: cap::null_cap };
        match capability {
            cap::vspace_cap { capVSIsMapped, .. } => {
                if *capVSIsMapped != 0 {
                    ret.capability = capability.clone();
                    ret.status = exception_t::EXCEPTION_NONE;
                } else {
                    ret.status = exception_t::EXCEPTION_SYSCALL_ERROR;
                }
            },
            cap::page_table_cap { capPTIsMapped, .. } => {
                if *capPTIsMapped != 0 {
                    ret.capability = capability.clone();
                    ret.status = exception_t::EXCEPTION_NONE;
                } else {
                    ret.status = exception_t::EXCEPTION_SYSCALL_ERROR;
                }
            },
            cap::frame_cap { capFBasePtr, capFSize, capFMappedAddress, capFVMRights, capFIsDevice, .. } => {
                ret.capability = cap::frame_cap {
                    capFMappedASID: 0,
                    capFBasePtr: *capFBasePtr,
                    capFSize: *capFSize,
                    capFMappedAddress: *capFMappedAddress,
                    capFVMRights: *capFVMRights,
                    capFIsDevice: *capFIsDevice,
                };
            },
            _ => {
                ret.capability = capability.clone();
            },
        }
        ret
    }
}

/// Masking a capability's rights twice with the same rights is masking them once.
pub proof fn lemma_mask_cap_rights_idempotent(rights: seL4_CapRights_t, c: cap)
    ensures
        mask_cap_rights_spec(rights, mask_cap_rights_spec(rights, c)) == mask_cap_rights_spec(rights, c),
{
}

/// Masking never gives a frame capability more access than it had.
pub proof fn lemma_mask_cap_rights_never_adds(rights: seL4_CapRights_t, c: cap)
    requires
        c is frame_cap,
    ensures
        mask_cap_rights_spec(rights, c) is frame_cap,
        frame_rights_level(mask_cap_rights_spec(rights, c)) <= frame_rights_level(c),
{
}

/// The access that a frame capability's rights word gives: none, read, or read and write.
pub open spec fn frame_rights_level(c: cap) -> int {
    match c {
        cap::frame_cap { capFVMRights, .. } => if capFVMRights == 3 {
            2
        } else if capFVMRights == 2 {
            1
        } else {
            0
        },
        _ => 0,
    }
}

/// A capability to an object, an untyped region, a frame, a VSpace, a CNode, the domain or an
/// interrupt lies in its own region.
pub proof fn lemma_same_region_as_refl(c: cap)
    requires
        c is untyped_cap || c is endpoint_cap || c is notification_cap || c is page_table_cap
            || c is asid_pool_cap || c is thread_cap || c is asid_control_cap || c is domain_cap
            || c is cnode_cap || c is irq_control_cap || c is irq_handler_cap || c is frame_cap
            || c is vspace_cap,
    ensures
        same_region_as_spec(c, c),
{
}

/// A badged endpoint or notification capability derived from one of the same kind can be
/// revoked on its own exactly when its badge differs from its source's: minting a new badge
/// makes a separately revocable capability, copying keeps it tied to its source.
pub proof fn lemma_badged_revocable(d: cap, s: cap)
    requires
        (d is endpoint_cap && s is endpoint_cap) || (d is notification_cap && s is notification_cap),
    ensures
        d is endpoint_cap ==> is_cap_revocable_spec(d, s) == (d->capEPBadge != s->capEPBadge),
        d is notification_cap ==> is_cap_revocable_spec(d, s) == (d->capNtfnBadge != s->capNtfnBadge),
        is_cap_revocable_spec(d, s) == is_cap_revocable_spec(s, d),
        !is_cap_revocable_spec(d, d),
{
}

/// Which other derived capabilities can be revoked on their own: an interrupt-handler
/// capability exactly when it was made from interrupt control, an untyped capability always,
/// and no architecture capability or capability of another kind.
pub proof fn lemma_revocable_kinds(d: cap, s: cap)
    ensures
        d is irq_handler_cap ==> is_cap_revocable_spec(d, s) == (s is irq_control_cap),
        d is untyped_cap ==> is_cap_revocable_spec(d, s),
        is_arch_cap_spec(d) ==> !is_cap_revocable_spec(d, s),
        !(d is endpoint_cap || d is notification_cap || d is irq_handler_cap || d is untyped_cap)
            ==> !is_cap_revocable_spec(d, s),
{
}
} // verus!
