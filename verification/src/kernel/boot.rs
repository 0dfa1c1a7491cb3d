//! What the boot entry hands on: the boot-information address and the
//! banner it reports.
use vstd::prelude::*;
use crate::kernel::serial::{hex32, hex_text};

verus! {

/// The boot-information address the loader passes: its low 32 bits.
pub fn boot_info_address(mb_info: u64) -> (a: u64)
    ensures
        a == mb_info % 0x1_0000_0000,
{
    let a = mb_info & 0xFFFF_FFFF;
    assert(a == mb_info % 0x1_0000_0000) by (bit_vector)
        requires a == mb_info & 0xFFFF_FFFF;
    a
}

/// The banner's prefix, "mb_info low: 0x".
pub open spec fn banner_prefix() -> Seq<u8> {
    seq![109u8, 98, 95, 105, 110, 102, 111, 32, 108, 111, 119, 58, 32, 48, 120]
}

/// The banner reported at boot: "mb_info low: 0x", the low 32 bits of
/// `mb_info` as eight lowercase hexadecimal digits, and a newline.
pub fn boot_banner(mb_info: u64) -> (banner: Vec<u8>)
    ensures
        banner@ == banner_prefix() + hex_text(mb_info) + seq![10u8],
{
    let mut banner: Vec<u8> = vec![109u8, 98, 95, 105, 110, 102, 111, 32, 108, 111, 119, 58, 32, 48, 120];
    assert(banner@ =~= banner_prefix());
    let digits = hex32(mb_info);
    let mut i: usize = 0;
    while i < 8
        invariant
            0 <= i <= 8,
            banner@.len() == 15 + i,
            banner@ == banner_prefix() + digits@.subrange(0, i as int),
            digits@ == hex_text(mb_info),
        decreases 8 - i,
    {
        banner.push(digits[i]);
        assert(banner@ =~= banner_prefix() + digits@.subrange(0, i as int + 1));
        i += 1;
    }
    banner.push(10);
    assert(digits@.subrange(0, 8) =~= hex_text(mb_info));
    assert(banner@ =~= banner_prefix() + hex_text(mb_info) + seq![10u8]);
    banner
}

} // verus!
