//! AArch64 object types, message labels and timer conversions (QEMU virt platform).
use vstd::prelude::*;
use crate::config::{UINT64_MAX, ARMSmallPageBits, ARMLargePageBits, ARMHugePageBits, seL4_PageTableBits, seL4_VSpaceBits, ARM_Small_Page, ARM_Large_Page, ARM_Huge_Page};

verus! {

/// Clock ticks.
pub type ticks_t = u64;
/// Time in microseconds.
pub type time_t = u64;

/// Frequency of the generic timer, in Hz.
pub const TIMER_CLOCK_HZ: u64 = 62500000;
/// Frequency of the generic timer, in kHz.
pub const TIMER_CLOCK_KHZ: u64 = 62500;
/// Frequency of the generic timer, in whole MHz.
pub const TIMER_CLOCK_MHZ: u64 = 62;
/// Kilohertz in a megahertz.
pub const KHZ_IN_MHZ: u64 = 1000;
/// Whether conversions go through kHz, because the clock is not a whole number of MHz.
pub const USE_KHZ: bool = true;
/// Timer precision, in microseconds.
pub const TIMER_PRECISION: u64 = 0;
/// Timer reprogramming overhead, in ticks.
pub const TIMER_OVERHEAD_TICKS: u64 = 0;
/// Worst-case execution time of a kernel entry, in microseconds.
pub const CONFIGURE_KERNEL_WCET: u64 = 10;

/// Largest tick count that `ticksToUs` accepts.
pub fn getMaxTicksToUs() -> (r: ticks_t)
    ensures
        r == UINT64_MAX / TIMER_CLOCK_KHZ,
{
    if USE_KHZ {
        UINT64_MAX / TIMER_CLOCK_KHZ
    } else {
        UINT64_MAX
    }
}

/// Largest microsecond count that `usToTicks` accepts.
pub fn getMaxUsToTicks() -> (r: time_t)
    ensures
        r == UINT64_MAX / TIMER_CLOCK_KHZ,
{
    if USE_KHZ {
        UINT64_MAX / TIMER_CLOCK_KHZ
    } else {
        UINT64_MAX / TIMER_CLOCK_MHZ
    }
}

/// Ticks to microseconds, rounded down.
pub open spec fn ticks_to_us_spec(ticks: int) -> int {
    (ticks * 1000) / 62500
}

/// Microseconds to ticks, rounded down.
pub open spec fn us_to_ticks_spec(us: int) -> int {
    (us * 62500) / 1000
}

/// Converts timer ticks to microseconds.
pub fn ticksToUs(ticks: ticks_t) -> (r: time_t)
    requires
        ticks <= getMaxTicksToUs_spec(),
    ensures
        r == ticks_to_us_spec(ticks as int),
{
    if USE_KHZ {
        (ticks * KHZ_IN_MHZ) / TIMER_CLOCK_KHZ
    } else {
        ticks / TIMER_CLOCK_MHZ
    }
}

/// The bound of `getMaxTicksToUs`, for use in contracts.
pub open spec fn getMaxTicksToUs_spec() -> u64 {
    UINT64_MAX / TIMER_CLOCK_KHZ
}

/// Converts microseconds to timer ticks.
pub fn usToTicks(us: time_t) -> (r: ticks_t)
    requires
        us <= getMaxTicksToUs_spec(),
    ensures
        r == us_to_ticks_spec(us as int),
{
    if USE_KHZ {
        (us * TIMER_CLOCK_KHZ) / KHZ_IN_MHZ
    } else {
        us * TIMER_CLOCK_MHZ
    }
}

/// Timer precision in ticks, including the reprogramming overhead.
pub fn getTimerPrecision() -> (r: ticks_t)
    ensures
        r == us_to_ticks_spec(TIMER_PRECISION as int) + TIMER_OVERHEAD_TICKS,
        r == 0,
{
    usToTicks(TIMER_PRECISION) + TIMER_OVERHEAD_TICKS
}

/// Worst-case execution time of a kernel entry, in microseconds.
pub fn getKernelWcetUs() -> (r: time_t)
    ensures
        r == CONFIGURE_KERNEL_WCET,
{
    CONFIGURE_KERNEL_WCET
}

/// Worst-case execution time of a kernel entry, in ticks.
pub fn getKernelWcetTicks() -> (r: ticks_t)
    ensures
        r == us_to_ticks_spec(CONFIGURE_KERNEL_WCET as int),
        r == 625,
{
    usToTicks(getKernelWcetUs())
}

/// Converting microseconds to ticks and back loses at most the odd half tick:
/// the result is `us` rounded down to an even number.
pub proof fn lemma_us_ticks_roundtrip(us: nat)
    requires
        us <= getMaxTicksToUs_spec(),
    ensures
        ticks_to_us_spec(us_to_ticks_spec(us as int)) == us - us % 2,
{
    let q = us / 2;
    let r = us % 2;
    assert(us == 2 * q + r);
    if r == 0 {
        assert(us * 62500 == 1000 * (q * 125)) by (nonlinear_arith) requires us == 2 * q;
        assert((us * 62500) / 1000 == q * 125) by (nonlinear_arith) requires us * 62500 == 1000 * (q * 125);
        assert((q * 125) * 1000 == 62500 * (2 * q)) by (nonlinear_arith);
        assert(((q * 125) * 1000) / 62500 == 2 * q) by (nonlinear_arith)
            requires (q * 125) * 1000 == 62500 * (2 * q);
    } else {
        assert(us * 62500 == 1000 * (q * 125 + 62) + 500) by (nonlinear_arith) requires us == 2 * q + 1;
        assert((us * 62500) / 1000 == q * 125 + 62) by (nonlinear_arith)
            requires us * 62500 == 1000 * (q * 125 + 62) + 500;
        assert((q * 125 + 62) * 1000 == 62500 * (2 * q) + 62000) by (nonlinear_arith);
        assert(((q * 125 + 62) * 1000) / 62500 == 2 * q) by (nonlinear_arith)
            requires (q * 125 + 62) * 1000 == 62500 * (2 * q) + 62000;
    }
}

/// Object types, including the AArch64 ones.
#[derive(Debug, Clone, Copy, PartialEq, Eq, Structural)]
pub enum ObjectType {
    UnytpedObject,
    TCBObject,
    EndpointObject,
    NotificationObject,
    CapTableObject,
    seL4_ARM_HugePageObject,
    seL4_ARM_VSpaceObject,
    seL4_ARM_SmallPageObject,
    seL4_ARM_LargePageObject,
    seL4_ARM_PageTableObject,
}

impl ObjectType {
    /// Whether the type is one of the five AArch64 object types.
    pub open spec fn is_arch_type_spec(self) -> bool {
        self is seL4_ARM_HugePageObject || self is seL4_ARM_SmallPageObject
            || self is seL4_ARM_LargePageObject || self is seL4_ARM_PageTableObject
            || self is seL4_ARM_VSpaceObject
    }

    /// Whether the type is a page (frame) object.
    pub open spec fn is_frame_type_spec(self) -> bool {
        self is seL4_ARM_SmallPageObject || self is seL4_ARM_LargePageObject
            || self is seL4_ARM_HugePageObject
    }

    /// Size, in bits, of an object of an AArch64 type.
    pub fn arch_get_object_size(&self) -> (r: usize)
        requires
            self.is_arch_type_spec(),
        ensures
            r == match *self {
                ObjectType::seL4_ARM_SmallPageObject => ARMSmallPageBits,
                ObjectType::seL4_ARM_LargePageObject => ARMLargePageBits,
                ObjectType::seL4_ARM_HugePageObject => ARMHugePageBits,
                ObjectType::seL4_ARM_PageTableObject => seL4_PageTableBits,
                _ => seL4_VSpaceBits,
            },
    {
        match self {
            Self::seL4_ARM_SmallPageObject => ARMSmallPageBits,
            Self::seL4_ARM_LargePageObject => ARMLargePageBits,
            Self::seL4_ARM_HugePageObject => ARMHugePageBits,
            Self::seL4_ARM_PageTableObject => seL4_PageTableBits,
            _ => seL4_VSpaceBits,
        }
    }

    /// The frame size code of a page object type.
    pub fn get_frame_type(&self) -> (r: usize)
        requires
            self.is_frame_type_spec(),
        ensures
            r == match *self {
                ObjectType::seL4_ARM_SmallPageObject => ARM_Small_Page,
                ObjectType::seL4_ARM_LargePageObject => ARM_Large_Page,
                _ => ARM_Huge_Page,
            },
    {
        match self {
            ObjectType::seL4_ARM_SmallPageObject => ARM_Small_Page,
            ObjectType::seL4_ARM_LargePageObject => ARM_Large_Page,
            _ => ARM_Huge_Page,
        }
    }

    /// Whether the type is an architecture-specific type.
    pub fn is_arch_type(self) -> (r: bool)
        ensures
            r == self.is_arch_type_spec(),
    {
        match self {
            Self::seL4_ARM_HugePageObject
            | Self::seL4_ARM_SmallPageObject
            | Self::seL4_ARM_LargePageObject
            | Self::seL4_ARM_PageTableObject
            | Self::seL4_ARM_VSpaceObject => true,
            _ => false,
        }
    }
}

} // verus!
