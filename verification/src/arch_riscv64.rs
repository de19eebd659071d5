//! RISC-V 64 object types and timer conversions (Spike platform, 10 MHz timer).
use vstd::prelude::*;
use crate::config::{
    UINT64_MAX, seL4_HugePageBits, seL4_LargePageBits, seL4_PageBits, RISCV_4K_Page, RISCV_Mega_Page,
    RISCV_Giga_Page,
};

verus! {

/// Clock ticks.
pub type ticks_t = u64;
/// Time in microseconds.
pub type time_t = u64;

/// Timer ticks per microsecond.
pub const TICKS_IN_US: u64 = 10;

/// Worst-case execution time of a kernel entry, in microseconds.
pub fn getKernelWcetUs() -> (r: time_t)
    ensures
        r == 10,
{
    10
}

/// Largest microsecond count that `usToTicks` accepts.
pub fn getMaxUsToTicks() -> (r: time_t)
    ensures
        r == UINT64_MAX / TICKS_IN_US,
{
    UINT64_MAX / TICKS_IN_US
}

/// Largest tick count that `ticksToUs` accepts.
pub fn getMaxTicksToUs() -> (r: ticks_t)
    ensures
        r == UINT64_MAX,
{
    UINT64_MAX
}

/// Microseconds to ticks.
pub open spec fn us_to_ticks_spec(us: int) -> int {
    us * TICKS_IN_US
}

/// Ticks to microseconds, rounded down.
pub open spec fn ticks_to_us_spec(ticks: int) -> int {
    ticks / TICKS_IN_US as int
}

/// Converts microseconds to timer ticks.
pub fn usToTicks(us: time_t) -> (r: ticks_t)
    requires
        us <= UINT64_MAX / TICKS_IN_US,
    ensures
        r == us_to_ticks_spec(us as int),
{
    us * TICKS_IN_US
}

/// Timer precision: the ticks of one microsecond.
pub fn getTimerPrecision() -> (r: ticks_t)
    ensures
        r == TICKS_IN_US,
{
    usToTicks(1)
}

/// Converts timer ticks to microseconds, rounded down.
pub fn ticksToUs(ticks: ticks_t) -> (r: time_t)
    ensures
        r == ticks_to_us_spec(ticks as int),
{
    ticks / TICKS_IN_US
}

/// Converting microseconds to ticks and back gives the same microseconds.
pub proof fn lemma_us_ticks_roundtrip(us: nat)
    ensures
        ticks_to_us_spec(us_to_ticks_spec(us as int)) == us,
{
}

/// Object types, including the RISC-V ones.
#[derive(Debug, Clone, Copy, PartialEq, Eq, Structural)]
pub enum ObjectType {
    UnytpedObject,
    TCBObject,
    EndpointObject,
    NotificationObject,
    CapTableObject,
    GigaPageObject,
    NormalPageObject,
    MegaPageObject,
    PageTableObject,
}

impl ObjectType {
    /// Whether the type is a page (frame) object.
    pub open spec fn is_frame_type_spec(self) -> bool {
        self is GigaPageObject || self is NormalPageObject || self is MegaPageObject
    }

    /// Size, in bits, of an object of a page or page-table type.
    pub fn arch_get_object_size(&self) -> (r: usize)
        requires
            self.is_frame_type_spec() || *self is PageTableObject,
        ensures
            r == match *self {
                ObjectType::GigaPageObject => seL4_HugePageBits,
                ObjectType::MegaPageObject => seL4_LargePageBits,
                _ => seL4_PageBits,
            },
    {
        match self {
            ObjectType::GigaPageObject => seL4_HugePageBits,
            ObjectType::NormalPageObject => seL4_PageBits,
            ObjectType::MegaPageObject => seL4_LargePageBits,
            _ => seL4_PageBits,
        }
    }

    /// The frame size code of a page object type.
    pub fn get_frame_type(&self) -> (r: usize)
        requires
            self.is_frame_type_spec(),
        ensures
            r == match *self {
                ObjectType::NormalPageObject => RISCV_4K_Page,
                ObjectType::MegaPageObject => RISCV_Mega_Page,
                _ => RISCV_Giga_Page,
            },
    {
        match self {
            ObjectType::NormalPageObject => RISCV_4K_Page,
            ObjectType::MegaPageObject => RISCV_Mega_Page,
            _ => RISCV_Giga_Page,
        }
    }

    /// Whether the type is an architecture-specific type: one of the page types or the page
    /// table.
    pub fn is_arch_type(self) -> (r: bool)
        ensures
            r == (self.is_frame_type_spec() || self is PageTableObject),
    {
        match self {
            Self::GigaPageObject | Self::NormalPageObject | Self::MegaPageObject | Self::PageTableObject => true,
            _ => false,
        }
    }
}

} // verus!
