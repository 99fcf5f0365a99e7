//! How the CPU translates addresses through 4-level page tables, and what the
//! boot page tables translate to.

use crate::boot::{
    pd_bytes, pd_entry, with_page_tables, LARGE_PAGE, PDPT_ADDR, PD_ADDR, PML4_ADDR, PTE_PRESENT,
    PTE_PS, PTE_RW,
};
use crate::bytes::{lemma_u64_round_trip, u32_at, u64_at, u64_bytes};
use vstd::prelude::*;

verus! {

/// The size of memory that one PDPT entry covers.
pub const GIB: u64 = 0x4000_0000;

/// What an address translates to.
pub struct Translation {
    pub addr: int,
    pub writable: bool,
}

/// Whether the flag of value `weight` is set in a table entry.
#[verifier::opaque]
pub open spec fn flag(entry: int, weight: int) -> bool {
    entry / weight % 2 == 1
}

/// The physical address in a table entry, a multiple of `size`: bits 51 down
/// to the first bit that `size` leaves.
#[verifier::opaque]
pub open spec fn frame(entry: int, size: int) -> int {
    entry % 0x10_0000_0000_0000 / size * size
}

/// Whether the bits of a large-page entry between the flags and the address
/// of a page of `size` bytes are clear, as the CPU demands.
#[verifier::opaque]
pub open spec fn reserved_clear(entry: int, size: int) -> bool {
    entry % size / 0x2000 == 0
}

/// Entry `index` of the table at `table`, if it is valid: in memory and
/// present.
pub open spec fn present_entry(mem: Seq<u8>, table: int, index: int) -> Option<int> {
    let addr = table + 8 * index;
    if addr + 8 <= mem.len() && flag(u64_at(mem, addr), PTE_PRESENT as int) {
        Some(u64_at(mem, addr))
    } else {
        None
    }
}

/// The page of `size` bytes that `entry` maps, under tables that are writable
/// if `writable`.
#[verifier::opaque]
pub open spec fn page(entry: int, size: int, virt: int, writable: bool) -> Option<Translation> {
    if size == 0x1000 || reserved_clear(entry, size) {
        Some(
            Translation {
                addr: frame(entry, size) + virt % size,
                writable: writable && flag(entry, PTE_RW as int),
            },
        )
    } else {
        None
    }
}

/// The walk from the page table at `table`.
pub open spec fn walk_pt(mem: Seq<u8>, table: int, virt: int, writable: bool) -> Option<
    Translation,
> {
    match present_entry(mem, table, virt / 0x1000 % 512) {
        None => None,
        Some(entry) => page(entry, 0x1000, virt, writable),
    }
}

/// The walk from the page directory at `table`.
pub open spec fn walk_pd(mem: Seq<u8>, table: int, virt: int, writable: bool) -> Option<
    Translation,
> {
    match present_entry(mem, table, virt / LARGE_PAGE as int % 512) {
        None => None,
        Some(entry) => if flag(entry, PTE_PS as int) {
            page(entry, LARGE_PAGE as int, virt, writable)
        } else {
            walk_pt(mem, frame(entry, 0x1000), virt, writable && flag(entry, PTE_RW as int))
        },
    }
}

/// The walk from the page-directory-pointer table at `table`.
pub open spec fn walk_pdpt(mem: Seq<u8>, table: int, virt: int, writable: bool) -> Option<
    Translation,
> {
    match present_entry(mem, table, virt / GIB as int % 512) {
        None => None,
        Some(entry) => if flag(entry, PTE_PS as int) {
            page(entry, GIB as int, virt, writable)
        } else {
            walk_pd(mem, frame(entry, 0x1000), virt, writable && flag(entry, PTE_RW as int))
        },
    }
}

/// What the CPU makes of virtual address `virt` with the PML4 that `cr3`
/// points at. `None` is a page fault.
pub open spec fn translate(mem: Seq<u8>, cr3: int, virt: int) -> Option<Translation> {
    match present_entry(mem, frame(cr3, 0x1000), virt / 0x80_0000_0000 % 512) {
        None => None,
        Some(entry) => if flag(entry, PTE_PS as int) {
            None
        } else {
            walk_pdpt(mem, frame(entry, 0x1000), virt, flag(entry, PTE_RW as int))
        },
    }
}

/// What the table entries hold once the page tables are written.
pub proof fn lemma_table_entries(mem: Seq<u8>)
    requires
        PD_ADDR + 0x1000 <= mem.len(),
    ensures
        u64_at(with_page_tables(mem), PML4_ADDR as int) == PDPT_ADDR + 3,
        u64_at(with_page_tables(mem), PDPT_ADDR as int) == PD_ADDR + 3,
        forall|i: int|
            0 <= i < 512 ==> #[trigger] u64_at(with_page_tables(mem), PD_ADDR + 8 * i) == i
                * LARGE_PAGE + 0x83,
{
    let tables = with_page_tables(mem);
    let pml4e = PDPT_ADDR | PTE_PRESENT | PTE_RW;
    let pdpte = PD_ADDR | PTE_PRESENT | PTE_RW;
    assert(0x2000u64 | 0x1 | 0x2 == 0x2003) by (bit_vector);
    assert(0x3000u64 | 0x1 | 0x2 == 0x3003) by (bit_vector);
    lemma_u64_round_trip(tables, PML4_ADDR as int, pml4e);
    lemma_u64_round_trip(tables, PDPT_ADDR as int, pdpte);
    assert forall|i: int| 0 <= i < 512 implies #[trigger] u64_at(tables, PD_ADDR + 8 * i) == i
        * LARGE_PAGE + 0x83 by {
        let phys = (i * LARGE_PAGE) as u64;
        let index = i as u64;
        assert(phys == index * 0x20_0000);
        assert(phys | 0x1 | 0x2 | 0x80 == phys + 0x83) by (bit_vector)
            requires
                index < 512,
                phys == index * 0x20_0000,
        ;
        assert forall|k: int| 0 <= k < 8 implies tables[PD_ADDR + 8 * i + k]
            == #[trigger] u64_bytes(pd_entry(i))[k] by {
            assert((8 * i + k) / 8 == i && (8 * i + k) % 8 == k);
            assert(tables[PD_ADDR + 8 * i + k] == pd_bytes()[8 * i + k]);
        }
        lemma_u64_round_trip(tables, PD_ADDR + 8 * i, pd_entry(i));
    }
}

/// CR3 and the two upper entries point at the tables, with no page-size flag.
proof fn lemma_table_pointers()
    ensures
        frame(PML4_ADDR as int, 0x1000) == PML4_ADDR,
        frame(PDPT_ADDR + 3, 0x1000) == PDPT_ADDR,
        frame(PD_ADDR + 3, 0x1000) == PD_ADDR,
        flag(PDPT_ADDR + 3, PTE_PRESENT as int),
        flag(PD_ADDR + 3, PTE_PRESENT as int),
        flag(PDPT_ADDR + 3, PTE_RW as int),
        flag(PD_ADDR + 3, PTE_RW as int),
        !flag(PDPT_ADDR + 3, PTE_PS as int),
        !flag(PD_ADDR + 3, PTE_PS as int),
        !flag(0, PTE_PRESENT as int),
{
    reveal(flag);
    reveal(frame);
}

/// The page-directory entry of an address in the first GiB maps the address
/// to itself.
proof fn lemma_large_page(virt: int)
    requires
        0 <= virt < GIB,
    ensures
        0 <= (virt / LARGE_PAGE as int) < 512,
        flag(virt / LARGE_PAGE as int * LARGE_PAGE + 0x83, PTE_PRESENT as int),
        flag(virt / LARGE_PAGE as int * LARGE_PAGE + 0x83, PTE_PS as int),
        page(virt / LARGE_PAGE as int * LARGE_PAGE + 0x83, LARGE_PAGE as int, virt, true) == Some(
            Translation { addr: virt, writable: true },
        ),
{
    reveal(flag);
    reveal(frame);
    reveal(reserved_clear);
    reveal(page);
    let i = virt / 0x20_0000;
    let entry = i * 0x20_0000 + 0x83;
    assert(entry % 0x10_0000_0000_0000 == entry);
    assert(entry / 0x20_0000 == i);
    assert(entry % 0x20_0000 == 0x83);
    assert(entry / 2 % 2 == 1);
    assert(entry / 0x80 % 2 == 1);
    assert(virt == i * 0x20_0000 + virt % 0x20_0000);
}

/// The tables' indices of an address in the first GiB.
proof fn lemma_indices(virt: int)
    requires
        0 <= virt < GIB,
    ensures
        virt / 0x80_0000_0000 % 512 == 0,
        virt / GIB as int % 512 == 0,
        virt / LARGE_PAGE as int % 512 == virt / LARGE_PAGE as int,
{
}

/// Tables with the boot entries map an address of the first GiB to itself.
proof fn lemma_walk_first_gib(tables: Seq<u8>, virt: int)
    requires
        PD_ADDR + 0x1000 <= tables.len(),
        u64_at(tables, PML4_ADDR as int) == PDPT_ADDR + 3,
        u64_at(tables, PDPT_ADDR as int) == PD_ADDR + 3,
        forall|i: int|
            0 <= i < 512 ==> #[trigger] u64_at(tables, PD_ADDR + 8 * i) == i * LARGE_PAGE + 0x83,
        0 <= virt < GIB,
    ensures
        translate(tables, PML4_ADDR as int, virt) == Some(
            Translation { addr: virt, writable: true },
        ),
{
    let identity = Some(Translation { addr: virt, writable: true });
    let i = virt / LARGE_PAGE as int;
    lemma_table_pointers();
    lemma_large_page(virt);
    lemma_indices(virt);
    assert(u64_at(tables, PD_ADDR + 8 * i) == i * LARGE_PAGE + 0x83);
    assert(walk_pd(tables, PD_ADDR as int, virt, true) == identity);
    assert(walk_pdpt(tables, PDPT_ADDR as int, virt, true) == identity);
}

/// The entries that the page tables hold, as numbers: each upper table points
/// at the next, present and writable, and entry `i` of the page directory is a
/// present, writable large page at `i` times 2 MiB. No other flag is set.
pub proof fn law_table_entries(mem: Seq<u8>, i: int)
    requires
        0x4000 <= mem.len(),
        0 <= i < 512,
    ensures
        u64_at(with_page_tables(mem), 0x1000) == 0x2003,
        u64_at(with_page_tables(mem), 0x2000) == 0x3003,
        u64_at(with_page_tables(mem), 0x3000 + 8 * i) == 0x20_0000 * i + 0x83,
{
    lemma_table_entries(mem);
    assert(u64_at(with_page_tables(mem), PD_ADDR + 8 * i) == i * LARGE_PAGE + 0x83);
}

/// The page tables take up one entry of each upper table and the page
/// directory. Every other byte of memory stays.
pub proof fn law_page_tables_leave_the_rest(mem: Seq<u8>, addr: int)
    requires
        0 <= addr < mem.len(),
        !(0x1000 <= addr < 0x1008),
        !(0x2000 <= addr < 0x2008),
        !(0x3000 <= addr < 0x4000),
    ensures
        with_page_tables(mem).len() == mem.len(),
        with_page_tables(mem)[addr] == mem[addr],
{
}

/// Page tables in memory that ends early are the same tables cut off there.
pub proof fn law_page_tables_are_cut_off_at_the_end(mem: Seq<u8>, len: int)
    requires
        0 <= len <= mem.len(),
    ensures
        with_page_tables(mem.take(len)) == with_page_tables(mem).take(len),
{
    assert(with_page_tables(mem.take(len)) =~= with_page_tables(mem).take(len));
}

/// The boot page tables map every address of the first GiB to itself,
/// writable.
pub proof fn law_first_gib_is_identity_mapped(mem: Seq<u8>, virt: int)
    requires
        PD_ADDR + 0x1000 <= mem.len(),
        0 <= virt < GIB,
    ensures
        translate(with_page_tables(mem), PML4_ADDR as int, virt) == Some(
            Translation { addr: virt, writable: true },
        ),
{
    lemma_table_entries(mem);
    lemma_walk_first_gib(with_page_tables(mem), virt);
}

/// Whether the CPU takes `virt` for an address: bits 47 to 63 are alike.
pub open spec fn is_canonical(virt: int) -> bool {
    0 <= virt < 0x8000_0000_0000 || 0xFFFF_8000_0000_0000 <= virt <= u64::MAX
}

/// An address above the first GiB has an index other than 0 in one of the two
/// upper tables.
proof fn lemma_indices_above(virt: int)
    requires
        GIB <= virt,
        is_canonical(virt),
    ensures
        0 <= virt / 0x80_0000_0000 % 512 < 512,
        0 <= virt / GIB as int % 512 < 512,
        virt / 0x80_0000_0000 % 512 == 0 ==> virt / GIB as int % 512 > 0,
{
}

/// Eight zero bytes are an entry of value 0.
proof fn lemma_zero_entry(mem: Seq<u8>, addr: int)
    requires
        forall|k: int| addr <= k < addr + 8 ==> mem[k] == 0,
    ensures
        u64_at(mem, addr) == 0,
{
    reveal(u32_at);
    reveal(u64_at);
}

/// Where the rest of the two upper tables was zero, the boot page tables map
/// nothing but the first GiB, in neither half of the address space.
pub proof fn law_nothing_else_is_mapped(mem: Seq<u8>, virt: int)
    requires
        PD_ADDR + 0x1000 <= mem.len(),
        forall|k: int| PML4_ADDR + 8 <= k < PML4_ADDR + 0x1000 ==> mem[k] == 0,
        forall|k: int| PDPT_ADDR + 8 <= k < PDPT_ADDR + 0x1000 ==> mem[k] == 0,
        GIB <= virt,
        is_canonical(virt),
    ensures
        translate(with_page_tables(mem), PML4_ADDR as int, virt) is None,
{
    let tables = with_page_tables(mem);
    let upper = virt / 0x80_0000_0000 % 512;
    let lower = virt / GIB as int % 512;
    lemma_table_entries(mem);
    lemma_table_pointers();
    lemma_indices_above(virt);
    if upper == 0 {
        lemma_zero_entry(tables, PDPT_ADDR + 8 * lower);
        assert(walk_pdpt(tables, PDPT_ADDR as int, virt, true) is None);
    } else {
        lemma_zero_entry(tables, PML4_ADDR + 8 * upper);
    }
}

} // verus!
