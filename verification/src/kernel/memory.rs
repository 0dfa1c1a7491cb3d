//! Physical-memory discovery: walking the Multiboot2 boot information.
//!
//! The boot information is a 32-bit total size, a reserved word, then a
//! sequence of tags, each a 32-bit type and a 32-bit size followed by its
//! contents and padded to 8 bytes; a tag of type 0 ends the sequence. Here
//! the walk reads the structure from `image`, the bytes found at its
//! address, and reports what it found.
use vstd::prelude::*;

verus! {

/// Largest boot-information size accepted, in bytes.
pub const MAX_BOOT_INFO_SIZE: u64 = 0x100_0000;
/// Tag type of the memory map.
pub const MEMORY_MAP_TAG: u32 = 6;
/// Tag type that ends the tag sequence.
pub const END_TAG: u32 = 0;

/// How a walk of the boot information ended.
#[derive(Clone, Copy, Debug, PartialEq, Eq, Structural)]
pub enum ScanOutcome {
    /// The address is null or not 8-byte aligned.
    InvalidAddress,
    /// The total size is under 16 bytes or over 16 MiB.
    InvalidSize,
    /// The structure would run past the end of the address space.
    RangeOverflow,
    /// A tag declares a size under 8 bytes.
    InvalidTagSize,
    /// A tag runs past the end of the structure.
    InvalidTagRange,
    /// The end tag was reached.
    Done,
    /// The structure ended without an end tag.
    MissingEndTag,
}

/// What a walk of the boot information found: how many memory-map tags it
/// passed, and how it ended.
#[derive(Clone, Copy, Debug, PartialEq, Eq, Structural)]
pub struct BootScan {
    pub memory_maps: u64,
    pub outcome: ScanOutcome,
}

/// The little-endian 32-bit value at `offset` of `image`.
pub open spec fn le_u32(image: Seq<u8>, offset: int) -> int {
    image[offset] + image[offset + 1] * 0x100 + image[offset + 2] * 0x1_0000 + image[offset + 3]
        * 0x100_0000
}

/// `size` rounded up to a multiple of 8.
pub open spec fn padded(size: int) -> int {
    ((size + 7) / 8) * 8
}

/// The walk of the tags from address `tag` of a structure at `info` that ends
/// at `end`: memory-map tags passed, and how it ended.
pub open spec fn tag_walk(image: Seq<u8>, info: int, end: int, tag: int) -> (int, ScanOutcome)
    decreases end - tag,
{
    if tag + 8 > end {
        (0, ScanOutcome::MissingEndTag)
    } else {
        let typ = le_u32(image, tag - info);
        let size = le_u32(image, tag - info + 4);
        if size < 8 {
            (0, ScanOutcome::InvalidTagSize)
        } else {
            let maps: int = if typ == 6 { 1 } else { 0 };
            let next = tag + padded(size);
            if next > end || next <= tag {
                (maps, ScanOutcome::InvalidTagRange)
            } else if typ == 0 {
                (maps, ScanOutcome::Done)
            } else {
                let rest = tag_walk(image, info, end, next);
                (maps + rest.0, rest.1)
            }
        }
    }
}

/// The report of a walk of the boot information at `info`.
pub open spec fn boot_scan(info: u64, image: Seq<u8>) -> BootScan {
    if info == 0 || info % 8 != 0 {
        BootScan { memory_maps: 0, outcome: ScanOutcome::InvalidAddress }
    } else {
        let total = le_u32(image, 0);
        if total < 16 || total > 0x100_0000 {
            BootScan { memory_maps: 0, outcome: ScanOutcome::InvalidSize }
        } else if info + total > u64::MAX {
            BootScan { memory_maps: 0, outcome: ScanOutcome::RangeOverflow }
        } else {
            let walk = tag_walk(image, info as int, info + total, info + 8);
            BootScan { memory_maps: walk.0 as u64, outcome: walk.1 }
        }
    }
}

/// Whether `image` holds every byte the walk of the boot information at
/// `info` reads: the total size, and the whole structure when its size is
/// in range.
pub open spec fn image_covers(info: u64, image: Seq<u8>) -> bool {
    info != 0 && info % 8 == 0 ==> {
        &&& image.len() >= 4
        &&& 16 <= le_u32(image, 0) <= 0x100_0000 ==> image.len() >= le_u32(image, 0)
    }
}

/// Reads the little-endian 32-bit value at `offset`.
fn read_u32(image: &[u8], offset: usize) -> (v: u64)
    requires
        offset + 4 <= image@.len(),
    ensures
        v == le_u32(image@, offset as int),
        v <= u32::MAX,
{
    let b0 = image[offset] as u64;
    let b1 = image[offset + 1] as u64;
    let b2 = image[offset + 2] as u64;
    let b3 = image[offset + 3] as u64;
    b0 + b1 * 0x100 + b2 * 0x1_0000 + b3 * 0x100_0000
}

/// Walks the boot information at address `multiboot_info`, whose bytes are
/// `image`, and reports the memory-map tags it passed and how it ended.
pub fn init(multiboot_info: u64, image: &[u8]) -> (scan: BootScan)
    requires
        image_covers(multiboot_info, image@),
    ensures
        scan == boot_scan(multiboot_info, image@),
{
    let info = multiboot_info;
    if info == 0 || info & 7 != 0 {
        assert(info & 7 == info % 8) by (bit_vector);
        return BootScan { memory_maps: 0, outcome: ScanOutcome::InvalidAddress };
    }
    assert(info & 7 == info % 8) by (bit_vector);
    let total_size = read_u32(image, 0);
    if total_size < 16 || total_size > MAX_BOOT_INFO_SIZE {
        return BootScan { memory_maps: 0, outcome: ScanOutcome::InvalidSize };
    }
    let end = match info.checked_add(total_size) {
        Some(end) => end,
        None => {
            return BootScan { memory_maps: 0, outcome: ScanOutcome::RangeOverflow };
        },
    };
    let ghost whole = tag_walk(image@, info as int, end as int, info + 8);
    assert(total_size == le_u32(image@, 0));
    let mut tag: u64 = info + 8;
    let mut maps: u64 = 0;
    loop
        invariant
            info as int + total_size == end,
            info == multiboot_info,
            boot_scan(multiboot_info, image@) == (BootScan { memory_maps: whole.0 as u64, outcome: whole.1 }),
            16 <= total_size <= 0x100_0000,
            image@.len() >= total_size,
            info + 8 <= tag,
            tag <= end,
            maps + tag_walk(image@, info as int, end as int, tag as int).0 == whole.0,
            tag_walk(image@, info as int, end as int, tag as int).1 == whole.1,
            0 <= maps <= tag - info,
        decreases end - tag,
    {
        if tag > end - 8 {
            return BootScan { memory_maps: maps, outcome: ScanOutcome::MissingEndTag };
        }
        let offset = (tag - info) as usize;
        let typ = read_u32(image, offset);
        let size = read_u32(image, offset + 4);
        if size < 8 {
            return BootScan { memory_maps: maps, outcome: ScanOutcome::InvalidTagSize };
        }
        if typ == MEMORY_MAP_TAG as u64 {
            maps = maps + 1;
        }
        let rounded: u64 = size + 7;
        let step = rounded & !7u64;
        assert(step == (rounded / 8) * 8) by (bit_vector)
            requires step == rounded & !7u64;
        assert(step == padded(size as int));
        if step > end - tag {
            return BootScan { memory_maps: maps, outcome: ScanOutcome::InvalidTagRange };
        }
        let next = tag + step;
        if typ == END_TAG as u64 {
            return BootScan { memory_maps: maps, outcome: ScanOutcome::Done };
        }
        tag = next;
    }
}

} // verus!
