//! Four-level x86_64 page tables: one table per level, mapping 4 KiB pages.
use vstd::prelude::*;

verus! {

pub const PAGE_SIZE: u64 = 4096;
pub const PRESENT: u64 = 1;
pub const WRITABLE: u64 = 2;
pub const USER: u64 = 4;

/// The entry index `virt` selects in the table whose entries cover
/// `1 << shift` bytes.
pub open spec fn table_index(virt: u64, shift: u32) -> int {
    ((virt >> shift) & 0x1ff) as int
}

/// Whether `address` is page-aligned and below the 48-bit limit.
pub open spec fn spec_valid_address(address: u64) -> bool {
    address & 0xfff == 0 && address < 0x1_0000_0000_0000
}

/// Whether `virt` lies in a page whose base is a valid address.
pub open spec fn translatable(virt: u64) -> bool {
    virt < 0x1_0000_0000_0000
}

/// A directory entry pointing at the table at `address`, present and writable.
pub open spec fn directory_entry(address: u64) -> u64 {
    address | 3
}

/// A leaf entry mapping the frame at `phys` with the low flag bits of `flags`,
/// present.
pub open spec fn leaf_entry(phys: u64, flags: u64) -> u64 {
    phys | (flags & 0xfff) | 1
}

/// The physical address a leaf entry gives `virt`, if the entry is present:
/// the entry's frame, at `virt`'s offset in its page.
pub open spec fn entry_translation(entry: u64, virt: u64) -> Option<u64> {
    if entry & 1 == 0 {
        None
    } else {
        Some((entry & !0xfffu64) | (virt & 0xfff))
    }
}

/// One page table: 512 entries.
pub struct PageTable {
    entries: [u64; 512],
}

impl PageTable {
    /// The entries, in order.
    pub closed spec fn view(&self) -> Seq<u64> {
        self.entries@
    }

    /// A table whose entries are all zero.
    pub fn empty() -> (t: Self)
        ensures
            t@ == Seq::new(512, |i: int| 0u64),
    {
        let t = PageTable { entries: [0u64; 512] };
        assert(t@ =~= Seq::new(512, |i: int| 0u64));
        t
    }

    /// Zeroes every entry.
    pub fn clear(&mut self)
        ensures
            final(self)@ == Seq::new(512, |i: int| 0u64),
    {
        let mut i: usize = 0;
        while i < 512
            invariant
                0 <= i <= 512,
                self@.len() == 512,
                forall|j: int| 0 <= j < i ==> self@[j] == 0,
            decreases 512 - i,
        {
            self.entries[i] = 0;
            i += 1;
        }
        assert(self@ =~= Seq::new(512, |i: int| 0u64));
    }
}

/// The index of the entry for `virt` in a table covering `1 << shift` bytes
/// per entry.
pub fn index(virt: u64, shift: u32) -> (i: usize)
    requires
        shift < 64,
    ensures
        i == table_index(virt, shift),
        i < 512,
{
    assert(((virt >> shift) & 0x1ff) < 512) by (bit_vector);
    ((virt >> shift) & 0x1ff) as usize
}

/// Whether `address` is page-aligned and below the 48-bit limit.
pub fn valid_address(address: u64) -> (b: bool)
    ensures
        b == spec_valid_address(address),
{
    let limit: u64 = 1u64 << 48u64;
    assert(limit == 0x1_0000_0000_0000) by (bit_vector)
        requires limit == 1u64 << 48u64;
    address & (PAGE_SIZE - 1) == 0 && address < limit
}

/// The page tables of one address space, with the physical addresses at
/// which its lower-level tables live.
pub struct PageTables {
    pml4: PageTable,
    pdp: PageTable,
    pd: PageTable,
    pt: PageTable,
    initialized: bool,
    pdp_address: u64,
    pd_address: u64,
    pt_address: u64,
}

impl PageTables {
    /// The top-level table's entries.
    pub closed spec fn pml4_entries(&self) -> Seq<u64> {
        self.pml4@
    }

    /// The second-level table's entries.
    pub closed spec fn pdp_entries(&self) -> Seq<u64> {
        self.pdp@
    }

    /// The third-level table's entries.
    pub closed spec fn pd_entries(&self) -> Seq<u64> {
        self.pd@
    }

    /// The leaf table's entries.
    pub closed spec fn pt_entries(&self) -> Seq<u64> {
        self.pt@
    }

    /// Whether the tables have been initialized.
    pub closed spec fn is_initialized(&self) -> bool {
        self.initialized
    }

    /// Physical addresses of the second-, third- and leaf-level tables.
    pub closed spec fn table_addresses(&self) -> (u64, u64, u64) {
        (self.pdp_address, self.pd_address, self.pt_address)
    }

    /// What `translate` gives for `virt`: nothing beyond the 48-bit limit,
    /// else what the leaf entry for its page gives.
    pub open spec fn translation_of(&self, virt: u64) -> Option<u64> {
        if !translatable(virt) {
            None
        } else {
            entry_translation(self.pt_entries()[table_index(virt, 12)], virt)
        }
    }

    /// What mapping `virt` to `phys` does: refused unless both are valid
    /// addresses; else each level's entry for `virt` is set, the upper ones
    /// to the next table, the leaf to the frame.
    pub open spec fn map_outcome(self, virt: u64, phys: u64, flags: u64, post: Self, r: Result<(), ()>) -> bool {
        &&& post.table_addresses() == self.table_addresses()
        &&& post.is_initialized() == self.is_initialized()
        &&& if !spec_valid_address(virt) || !spec_valid_address(phys) {
            &&& r is Err
            &&& post.pml4_entries() == self.pml4_entries()
            &&& post.pdp_entries() == self.pdp_entries()
            &&& post.pd_entries() == self.pd_entries()
            &&& post.pt_entries() == self.pt_entries()
        } else {
            &&& r is Ok
            &&& post.pml4_entries() == self.pml4_entries().update(
                table_index(virt, 39),
                directory_entry(self.table_addresses().0),
            )
            &&& post.pdp_entries() == self.pdp_entries().update(
                table_index(virt, 30),
                directory_entry(self.table_addresses().1),
            )
            &&& post.pd_entries() == self.pd_entries().update(
                table_index(virt, 21),
                directory_entry(self.table_addresses().2),
            )
            &&& post.pt_entries() == self.pt_entries().update(table_index(virt, 12), leaf_entry(phys, flags))
        }
    }

    /// What unmapping `virt` does: refused unless it is a valid address;
    /// else its leaf entry is zeroed.
    pub open spec fn unmap_outcome(self, virt: u64, post: Self, r: Result<(), ()>) -> bool {
        &&& post.table_addresses() == self.table_addresses()
        &&& post.is_initialized() == self.is_initialized()
        &&& post.pml4_entries() == self.pml4_entries()
        &&& post.pdp_entries() == self.pdp_entries()
        &&& post.pd_entries() == self.pd_entries()
        &&& if !spec_valid_address(virt) {
            r is Err && post.pt_entries() == self.pt_entries()
        } else {
            r is Ok && post.pt_entries() == self.pt_entries().update(table_index(virt, 12), 0)
        }
    }

    /// Empty, uninitialized tables whose lower levels live at the given
    /// physical addresses.
    pub fn new(pdp_address: u64, pd_address: u64, pt_address: u64) -> (t: Self)
        ensures
            t.pml4_entries() == Seq::new(512, |i: int| 0u64),
            t.pdp_entries() == Seq::new(512, |i: int| 0u64),
            t.pd_entries() == Seq::new(512, |i: int| 0u64),
            t.pt_entries() == Seq::new(512, |i: int| 0u64),
            !t.is_initialized(),
            t.table_addresses() == (pdp_address, pd_address, pt_address),
    {
        PageTables {
            pml4: PageTable::empty(),
            pdp: PageTable::empty(),
            pd: PageTable::empty(),
            pt: PageTable::empty(),
            initialized: false,
            pdp_address,
            pd_address,
            pt_address,
        }
    }

    /// Clears every table and marks the tables initialized.
    pub fn init(&mut self)
        ensures
            final(self).pml4_entries() == Seq::new(512, |i: int| 0u64),
            final(self).pdp_entries() == Seq::new(512, |i: int| 0u64),
            final(self).pd_entries() == Seq::new(512, |i: int| 0u64),
            final(self).pt_entries() == Seq::new(512, |i: int| 0u64),
            final(self).is_initialized(),
            final(self).table_addresses() == old(self).table_addresses(),
    {
        self.pml4.clear();
        self.pdp.clear();
        self.pd.clear();
        self.pt.clear();
        self.initialized = true;
    }

    /// Maps the page at `virt` to the frame at `phys`.
    pub fn map_page(&mut self, virt: u64, phys: u64, flags: u64) -> (r: Result<(), ()>)
        ensures
            old(self).map_outcome(virt, phys, flags, *final(self), r),
            r is Ok ==> final(self).pt_entries()[table_index(virt, 12)] & 0xfff == (flags & 0xfff) | 1,
            r is Ok ==> final(self).pt_entries()[table_index(virt, 12)] & !0xfffu64 == phys,
    {
        if !valid_address(virt) || !valid_address(phys) {
            return Err(());
        }
        let i4 = index(virt, 39);
        let i3 = index(virt, 30);
        let i2 = index(virt, 21);
        let i1 = index(virt, 12);
        self.pml4.entries[i4] = self.pdp_address | PRESENT | WRITABLE;
        self.pdp.entries[i3] = self.pd_address | PRESENT | WRITABLE;
        self.pd.entries[i2] = self.pt_address | PRESENT | WRITABLE;
        self.pt.entries[i1] = phys | (flags & 0xfff) | PRESENT;
        proof {
            lemma_leaf_bits(phys, flags);
            let a = self.pdp_address;
            let b = self.pd_address;
            let c = self.pt_address;
            assert(a | 1u64 | 2u64 == a | 3u64) by (bit_vector);
            assert(b | 1u64 | 2u64 == b | 3u64) by (bit_vector);
            assert(c | 1u64 | 2u64 == c | 3u64) by (bit_vector);
            assert(self.pml4@ =~= old(self).pml4@.update(i4 as int, directory_entry(a)));
            assert(self.pdp@ =~= old(self).pdp@.update(i3 as int, directory_entry(b)));
            assert(self.pd@ =~= old(self).pd@.update(i2 as int, directory_entry(c)));
            assert(self.pt@ =~= old(self).pt@.update(i1 as int, leaf_entry(phys, flags)));
        }
        Ok(())
    }

    /// Removes the leaf mapping of the page at `virt`.
    pub fn unmap_page(&mut self, virt: u64) -> (r: Result<(), ()>)
        ensures
            old(self).unmap_outcome(virt, *final(self), r),
    {
        if !valid_address(virt) {
            return Err(());
        }
        let i1 = index(virt, 12);
        self.pt.entries[i1] = 0;
        proof {
            assert(self.pt@ =~= old(self).pt@.update(i1 as int, 0));
        }
        Ok(())
    }

    /// The physical address `virt` maps to, if its page is mapped.
    pub fn translate(&self, virt: u64) -> (r: Option<u64>)
        ensures
            r == self.translation_of(virt),
    {
        let page = virt & !(PAGE_SIZE - 1);
        assert(page == virt & !0xfffu64);
        assert((virt & !0xfffu64) & 0xfff == 0 && ((virt & !0xfffu64) < 0x1_0000_0000_0000 <==> virt < 0x1_0000_0000_0000)) by (bit_vector);
        if !valid_address(page) {
            return None;
        }
        let entry = self.pt.entries[index(virt, 12)];
        if entry & PRESENT == 0 {
            None
        } else {
            Some((entry & !0xfff) | (virt & 0xfff))
        }
    }

    /// Maps a test page, checks that an address inside it translates to the
    /// same offset in its frame, unmaps it and checks that it no longer
    /// translates.
    pub fn test(&mut self)
        ensures
            ({
                let virt = 0x4000_0000u64;
                let (a, b, c) = old(self).table_addresses();
                &&& final(self).pml4_entries() == old(self).pml4_entries().update(
                    table_index(virt, 39),
                    directory_entry(a),
                )
                &&& final(self).pdp_entries() == old(self).pdp_entries().update(
                    table_index(virt, 30),
                    directory_entry(b),
                )
                &&& final(self).pd_entries() == old(self).pd_entries().update(
                    table_index(virt, 21),
                    directory_entry(c),
                )
                &&& final(self).pt_entries() == old(self).pt_entries().update(table_index(virt, 12), 0)
                &&& final(self).table_addresses() == old(self).table_addresses()
                &&& final(self).is_initialized() == old(self).is_initialized()
            }),
    {
        let virt: u64 = 0x4000_0000;
        let phys: u64 = 0x0020_0000;
        assert(spec_valid_address(virt) && spec_valid_address(phys)) by (bit_vector)
            requires virt == 0x4000_0000u64, phys == 0x0020_0000u64;
        let ghost start = *self;
        let mapped = self.map_page(virt, phys, WRITABLE);
        let ghost middle = *self;
        let inside = self.translate(virt + 37);
        proof {
            law_translate_after_map(start, middle, virt, phys, WRITABLE, 37, mapped);
        }
        assert(inside == Some((phys + 37) as u64));
        let unmapped = self.unmap_page(virt);
        let gone = self.translate(virt);
        proof {
            law_translate_after_unmap(middle, *self, virt, 0, unmapped);
            lemma_table_shape(start, virt, 12);
            assert(self.pt_entries() =~= start.pt_entries().update(table_index(virt, 12), 0));
        }
        assert(gone is None);
    }
}

/// A leaf entry for a page-aligned frame keeps the frame in its address bits
/// and the low flag bits of `flags`, plus present, in its low twelve bits.
proof fn lemma_leaf_bits(phys: u64, flags: u64)
    requires
        phys & 0xfff == 0,
    ensures
        leaf_entry(phys, flags) & 0xfff == (flags & 0xfff) | 1,
        leaf_entry(phys, flags) & !0xfffu64 == phys,
{
    let e = leaf_entry(phys, flags);
    assert(e & 0xfff == (flags & 0xfff) | 1 && e & !0xfffu64 == phys) by (bit_vector)
        requires e == phys | (flags & 0xfff) | 1, phys & 0xfff == 0;
}

/// Every table has 512 entries, and every index selects one of them.
proof fn lemma_table_shape(t: PageTables, virt: u64, shift: u32)
    ensures
        t.pml4_entries().len() == 512,
        t.pdp_entries().len() == 512,
        t.pd_entries().len() == 512,
        t.pt_entries().len() == 512,
        0 <= table_index(virt, shift) < 512,
{
    assert(((virt >> shift) & 0x1ff) < 512) by (bit_vector);
}

/// The leaf-table index of an address in a page is the page's index, and a
/// leaf entry for a frame gives that address the same offset in the frame.
proof fn lemma_offset_in_page(virt: u64, phys: u64, flags: u64, offset: u64)
    requires
        spec_valid_address(virt),
        spec_valid_address(phys),
        offset < 4096,
    ensures
        translatable((virt + offset) as u64),
        table_index((virt + offset) as u64, 12) == table_index(virt, 12),
        entry_translation(leaf_entry(phys, flags), (virt + offset) as u64) == Some((phys + offset) as u64),
{
    let v = (virt + offset) as u64;
    assert(virt + offset < 0x1_0000_0000_0000) by (bit_vector)
        requires virt & 0xfff == 0, virt < 0x1_0000_0000_0000u64, offset < 4096u64;
    assert(((v >> 12u32) & 0x1ff) == ((virt >> 12u32) & 0x1ff)) by (bit_vector)
        requires virt & 0xfff == 0, offset < 4096u64, v == virt + offset, virt < 0x1_0000_0000_0000u64;
    let e = phys | (flags & 0xfff) | 1;
    assert(e & 1 != 0) by (bit_vector)
        requires e == phys | (flags & 0xfff) | 1;
    assert((e & !0xfffu64) | (v & 0xfff) == phys + offset) by (bit_vector)
        requires
            e == phys | (flags & 0xfff) | 1,
            phys & 0xfff == 0,
            phys < 0x1_0000_0000_0000u64,
            virt & 0xfff == 0,
            virt < 0x1_0000_0000_0000u64,
            offset < 4096u64,
            v == virt + offset;
}

/// After a page is mapped, every address in it translates to the same offset
/// in the frame it was mapped to.
pub proof fn law_translate_after_map(
    before: PageTables,
    after: PageTables,
    virt: u64,
    phys: u64,
    flags: u64,
    offset: u64,
    r: Result<(), ()>,
)
    requires
        before.map_outcome(virt, phys, flags, after, r),
        spec_valid_address(virt),
        spec_valid_address(phys),
        offset < 4096,
    ensures
        r is Ok,
        after.translation_of((virt + offset) as u64) == Some((phys + offset) as u64),
{
    lemma_offset_in_page(virt, phys, flags, offset);
    lemma_table_shape(before, virt, 12);
}

/// After a page is unmapped, no address in it translates.
pub proof fn law_translate_after_unmap(before: PageTables, after: PageTables, virt: u64, offset: u64, r: Result<(), ()>)
    requires
        before.unmap_outcome(virt, after, r),
        spec_valid_address(virt),
        offset < 4096,
    ensures
        r is Ok,
        after.translation_of((virt + offset) as u64) is None,
{
    assert(spec_valid_address(0)) by (bit_vector);
    assert(0u64 & 1 == 0) by (bit_vector);
    lemma_offset_in_page(virt, 0, 0, offset);
    lemma_table_shape(before, virt, 12);
}

/// Mapping a page leaves the translation of addresses whose leaf entry is
/// another one unchanged.
pub proof fn law_map_keeps_other_pages(
    before: PageTables,
    after: PageTables,
    virt: u64,
    phys: u64,
    flags: u64,
    other: u64,
    r: Result<(), ()>,
)
    requires
        before.map_outcome(virt, phys, flags, after, r),
        table_index(other, 12) != table_index(virt, 12),
    ensures
        after.translation_of(other) == before.translation_of(other),
{
    lemma_table_shape(before, other, 12);
    lemma_table_shape(before, virt, 12);
}

/// A page mapped with some flags has a leaf entry holding its frame, present,
/// with exactly the requested low flag bits: a page mapped writable or user
/// is writable or user.
pub proof fn law_map_keeps_flags(
    before: PageTables,
    after: PageTables,
    virt: u64,
    phys: u64,
    flags: u64,
    r: Result<(), ()>,
)
    requires
        before.map_outcome(virt, phys, flags, after, r),
        spec_valid_address(virt),
        spec_valid_address(phys),
    ensures
        r is Ok,
        after.pt_entries()[table_index(virt, 12)] & 0xfff == (flags & 0xfff) | 1,
        after.pt_entries()[table_index(virt, 12)] & !0xfffu64 == phys,
        after.pt_entries()[table_index(virt, 12)] & 1 == 1,
        flags & WRITABLE == WRITABLE ==> after.pt_entries()[table_index(virt, 12)] & WRITABLE == WRITABLE,
        flags & USER == USER ==> after.pt_entries()[table_index(virt, 12)] & USER == USER,
{
    lemma_leaf_bits(phys, flags);
    lemma_table_shape(before, virt, 12);
    let e = after.pt_entries()[table_index(virt, 12)];
    assert(e & 1 == 1) by (bit_vector)
        requires e & 0xfff == (flags & 0xfff) | 1;
    assert(flags & 2 == 2 ==> e & 2 == 2) by (bit_vector)
        requires e & 0xfff == (flags & 0xfff) | 1;
    assert(flags & 4 == 4 ==> e & 4 == 4) by (bit_vector)
        requires e & 0xfff == (flags & 0xfff) | 1;
}

} // verus!
