//! Global descriptor table entries: the null, kernel-code and kernel-data
//! segments.
use vstd::prelude::*;

verus! {

/// One segment descriptor.
#[derive(Clone, Copy, Debug, PartialEq, Eq, Structural)]
pub struct Descriptor {
    pub limit_low: u16,
    pub base_low: u16,
    pub base_middle: u8,
    pub access: u8,
    pub granularity: u8,
    pub base_high: u8,
}

impl Descriptor {
    /// The mandatory null descriptor.
    pub fn null() -> (d: Self)
        ensures
            d == (Descriptor { limit_low: 0, base_low: 0, base_middle: 0, access: 0, granularity: 0, base_high: 0 }),
    {
        Descriptor { limit_low: 0, base_low: 0, base_middle: 0, access: 0, granularity: 0, base_high: 0 }
    }

    /// The 64-bit kernel code segment: present, ring 0, executable and
    /// readable, long mode.
    pub fn kernel_code() -> (d: Self)
        ensures
            d == (Descriptor { limit_low: 0xFFFF, base_low: 0, base_middle: 0, access: 0x9A, granularity: 0xAF, base_high: 0 }),
    {
        Descriptor { limit_low: 0xFFFF, base_low: 0, base_middle: 0, access: 0x9A, granularity: 0xAF, base_high: 0 }
    }

    /// The kernel data segment: present, ring 0, writable.
    pub fn kernel_data() -> (d: Self)
        ensures
            d == (Descriptor { limit_low: 0xFFFF, base_low: 0, base_middle: 0, access: 0x92, granularity: 0xCF, base_high: 0 }),
    {
        Descriptor { limit_low: 0xFFFF, base_low: 0, base_middle: 0, access: 0x92, granularity: 0xCF, base_high: 0 }
    }
}

/// The table's limit: three eight-byte descriptors, less one.
pub const GDT_LIMIT: u16 = 23;

/// What the `lgdt` instruction loads: the table's limit and address.
#[derive(Clone, Copy, Debug, PartialEq, Eq, Structural)]
pub struct GdtPointer {
    pub size: u16,
    pub offset: u64,
}

/// The kernel's table: the null, kernel-code and kernel-data descriptors,
/// in that order.
pub fn table() -> (t: [Descriptor; 3])
    ensures
        t@[0] == (Descriptor { limit_low: 0, base_low: 0, base_middle: 0, access: 0, granularity: 0, base_high: 0 }),
        t@[1] == (Descriptor { limit_low: 0xFFFF, base_low: 0, base_middle: 0, access: 0x9A, granularity: 0xAF, base_high: 0 }),
        t@[2] == (Descriptor { limit_low: 0xFFFF, base_low: 0, base_middle: 0, access: 0x92, granularity: 0xCF, base_high: 0 }),
{
    [Descriptor::null(), Descriptor::kernel_code(), Descriptor::kernel_data()]
}

/// The pointer to load for a table at address `offset`.
pub fn table_pointer(offset: u64) -> (p: GdtPointer)
    ensures
        p == (GdtPointer { size: GDT_LIMIT, offset }),
{
    GdtPointer { size: GDT_LIMIT, offset }
}

} // verus!
