//! What the guest finds in memory and registers when it starts: laws on the
//! boot environment as a whole.

use crate::boot::{
    boot_params, boot_params_page, cmdline_bytes, code_segment, data_segment, e820_bytes,
    entry_registers, gdt_bytes, long_mode, with_gdt, with_page_tables, BootParams, E820Entry,
    BOOT_PARAMS_ADDR, CMDLINE_ADDR, CODE_SEL, CR0_PE, CR0_PG, CR4_PAE, DATA_SEL, E820_RAM,
    EFER_LMA, EFER_LME, EXT_RAM_START, GDT_ADDR, GDT_CODE, GDT_DATA, LOW_RAM_END, PDPT_ADDR,
    PD_ADDR, PML4_ADDR,
};
use crate::bytes::{
    law_numbers_are_read_little_endian, lemma_u32_round_trip, lemma_u64_round_trip, u32_at,
    u32_bytes, u64_at, u64_bytes,
};
use crate::memory::{store, zeroed};
use crate::paging::{law_first_gib_is_identity_mapped, translate, Translation};
use crate::registers::{GeneralRegisters, Segment, SpecialRegisters};
use vstd::prelude::*;
use vstd::utf8::encode_utf8;

verus! {

/// Memory `kernel`, with the kernel loaded, and over it the command line and
/// the boot parameters.
pub open spec fn with_parameters(kernel: Seq<u8>, cmdline: Seq<char>, mem_size: int) -> Seq<u8> {
    store(
        store(kernel, CMDLINE_ADDR as int, cmdline_bytes(cmdline)),
        BOOT_PARAMS_ADDR as int,
        boot_params_page(boot_params(encode_utf8(cmdline).len() as int, mem_size)),
    )
}

/// Memory as the guest finds it: the kernel, its parameters, the GDT and the
/// page tables.
pub open spec fn boot_image(kernel: Seq<u8>, cmdline: Seq<char>, mem_size: int) -> Seq<u8> {
    with_page_tables(with_gdt(with_parameters(kernel, cmdline, mem_size)))
}

/// Whether address `addr` belongs to one of the boot structures.
pub open spec fn in_boot_structures(addr: int, cmdline: Seq<char>) -> bool {
    ||| GDT_ADDR <= addr < GDT_ADDR + 24
    ||| PML4_ADDR <= addr < PML4_ADDR + 8
    ||| PDPT_ADDR <= addr < PDPT_ADDR + 8
    ||| PD_ADDR <= addr < PD_ADDR + 0x1000
    ||| BOOT_PARAMS_ADDR <= addr < BOOT_PARAMS_ADDR + 0x1000
    ||| CMDLINE_ADDR <= addr < CMDLINE_ADDR + cmdline_bytes(cmdline).len()
}

/// The boot structures do not overlap: in memory that holds them all, each is
/// found whole at its address, and every other byte is the kernel's.
pub proof fn law_boot_structures_do_not_overlap(
    kernel: Seq<u8>,
    cmdline: Seq<char>,
    mem_size: int,
)
    requires
        CMDLINE_ADDR + cmdline_bytes(cmdline).len() <= kernel.len(),
    ensures
        boot_image(kernel, cmdline, mem_size).len() == kernel.len(),
        boot_image(kernel, cmdline, mem_size).subrange(GDT_ADDR as int, GDT_ADDR + 24)
            == gdt_bytes(),
        boot_image(kernel, cmdline, mem_size).subrange(
            BOOT_PARAMS_ADDR as int,
            BOOT_PARAMS_ADDR + 0x1000,
        ) == boot_params_page(boot_params(encode_utf8(cmdline).len() as int, mem_size)),
        boot_image(kernel, cmdline, mem_size).subrange(
            CMDLINE_ADDR as int,
            CMDLINE_ADDR + cmdline_bytes(cmdline).len(),
        ) == cmdline_bytes(cmdline),
        boot_image(kernel, cmdline, mem_size) == with_page_tables(
            boot_image(kernel, cmdline, mem_size),
        ),
        forall|addr: int|
            0 <= addr < kernel.len() && !in_boot_structures(addr, cmdline)
                ==> #[trigger] boot_image(kernel, cmdline, mem_size)[addr] == kernel[addr],
{
    let image = boot_image(kernel, cmdline, mem_size);
    assert(image.subrange(GDT_ADDR as int, GDT_ADDR + 24) =~= gdt_bytes());
    assert(image.subrange(BOOT_PARAMS_ADDR as int, BOOT_PARAMS_ADDR + 0x1000) =~= boot_params_page(
        boot_params(encode_utf8(cmdline).len() as int, mem_size),
    ));
    assert(image.subrange(CMDLINE_ADDR as int, CMDLINE_ADDR + cmdline_bytes(cmdline).len())
        =~= cmdline_bytes(cmdline));
    assert(image =~= with_page_tables(image));
}

/// The kernel reads back from the page of boot parameters what was put into
/// them.
pub proof fn law_boot_params_read_back(params: BootParams)
    ensures
        boot_params_page(params).len() == 0x1000,
        boot_params_page(params)[0x1E8] == params.e820_entries,
        boot_params_page(params)[0x210] == params.type_of_loader,
        u32_at(boot_params_page(params), 0x228) == params.cmd_line_ptr,
        u32_at(boot_params_page(params), 0x238) == params.cmdline_size,
        u64_at(boot_params_page(params), 0x2D0) == params.e820_table[0].addr,
        u64_at(boot_params_page(params), 0x2D8) == params.e820_table[0].size,
        u32_at(boot_params_page(params), 0x2E0) == params.e820_table[0].type_,
        u64_at(boot_params_page(params), 0x2E4) == params.e820_table[1].addr,
        u64_at(boot_params_page(params), 0x2EC) == params.e820_table[1].size,
        u32_at(boot_params_page(params), 0x2F4) == params.e820_table[1].type_,
{
    let page = boot_params_page(params);
    lemma_page_fields(
        seq![params.e820_entries],
        seq![params.type_of_loader],
        u32_bytes(params.cmd_line_ptr),
        u32_bytes(params.cmdline_size),
        e820_bytes(params.e820_table[0]),
        e820_bytes(params.e820_table[1]),
    );
    lemma_u32_round_trip(page, 0x228, params.cmd_line_ptr);
    lemma_u32_round_trip(page, 0x238, params.cmdline_size);
    lemma_e820_read_back(page, 0x2D0, params.e820_table[0]);
    lemma_e820_read_back(page, 0x2E4, params.e820_table[1]);
}

/// The fields of the boot parameters do not overlap.
proof fn lemma_page_fields(
    entries: Seq<u8>,
    loader: Seq<u8>,
    pointer: Seq<u8>,
    size: Seq<u8>,
    low: Seq<u8>,
    extended: Seq<u8>,
)
    requires
        entries.len() == 1,
        loader.len() == 1,
        pointer.len() == 4,
        size.len() == 4,
        low.len() == 20,
        extended.len() == 20,
    ensures
        ({
            let page = store(zeroed(0x1000), 0x1E8, entries);
            let page = store(page, 0x210, loader);
            let page = store(page, 0x228, pointer);
            let page = store(page, 0x238, size);
            let page = store(page, 0x2D0, low);
            let page = store(page, 0x2E4, extended);
            &&& page[0x1E8] == entries[0]
            &&& page[0x210] == loader[0]
            &&& forall|k: int| 0 <= k < 4 ==> page[0x228 + k] == #[trigger] pointer[k]
            &&& forall|k: int| 0 <= k < 4 ==> page[0x238 + k] == #[trigger] size[k]
            &&& forall|k: int| 0 <= k < 20 ==> page[0x2D0 + k] == #[trigger] low[k]
            &&& forall|k: int| 0 <= k < 20 ==> page[0x2E4 + k] == #[trigger] extended[k]
        }),
{
}

/// An e820 entry reads back from where its bytes lie.
proof fn lemma_e820_read_back(page: Seq<u8>, addr: int, entry: E820Entry)
    requires
        forall|k: int| 0 <= k < 20 ==> page[addr + k] == #[trigger] e820_bytes(entry)[k],
    ensures
        u64_at(page, addr) == entry.addr,
        u64_at(page, addr + 8) == entry.size,
        u32_at(page, addr + 16) == entry.type_,
{
    assert forall|k: int| 0 <= k < 8 implies page[addr + k] == #[trigger] u64_bytes(
        entry.addr,
    )[k] by {
        assert(e820_bytes(entry)[k] == u64_bytes(entry.addr)[k]);
    }
    assert forall|k: int| 0 <= k < 8 implies page[addr + 8 + k] == #[trigger] u64_bytes(
        entry.size,
    )[k] by {
        assert(e820_bytes(entry)[8 + k] == u64_bytes(entry.size)[k]);
    }
    assert forall|k: int| 0 <= k < 4 implies page[addr + 16 + k] == #[trigger] u32_bytes(
        entry.type_,
    )[k] by {
        assert(e820_bytes(entry)[16 + k] == u32_bytes(entry.type_)[k]);
    }
    lemma_u64_round_trip(page, addr, entry.addr);
    lemma_u64_round_trip(page, addr + 8, entry.size);
    lemma_u32_round_trip(page, addr + 16, entry.type_);
}

/// Whether an e820 entry reports address `addr` as usable RAM.
pub open spec fn reports_ram(entry: E820Entry, addr: int) -> bool {
    entry.type_ == E820_RAM && entry.addr <= addr < entry.addr + entry.size
}

/// The memory map has two entries, the least that the kernel accepts. They
/// report the guest's RAM without the legacy hole, no address twice, and
/// nothing above the top of RAM.
pub proof fn law_memory_map_is_the_ram(cmdline_size: int, mem_size: int, addr: int)
    requires
        EXT_RAM_START <= mem_size <= u64::MAX,
    ensures
        boot_params(cmdline_size, mem_size).e820_entries == 2,
        reports_ram(boot_params(cmdline_size, mem_size).e820_table[0], addr) || reports_ram(
            boot_params(cmdline_size, mem_size).e820_table[1],
            addr,
        ) <==> 0 <= addr < LOW_RAM_END || EXT_RAM_START <= addr < mem_size,
        !(reports_ram(boot_params(cmdline_size, mem_size).e820_table[0], addr) && reports_ram(
            boot_params(cmdline_size, mem_size).e820_table[1],
            addr,
        )),
{
}

/// The segment that the CPU makes of GDT descriptor `raw` when `selector` is
/// loaded.
pub open spec fn descriptor_segment(raw: int, selector: u16) -> Segment {
    let limit = raw % 0x1_0000 + raw / 0x1_0000_0000_0000 % 0x10 * 0x1_0000;
    let g = raw / 0x80_0000_0000_0000 % 2;
    Segment {
        base: (raw / 0x1_0000 % 0x100_0000 + raw / 0x100_0000_0000_0000 % 0x100
            * 0x100_0000) as u64,
        limit: if g == 1 {
            (limit * 0x1000 + 0xFFF) as u32
        } else {
            limit as u32
        },
        selector,
        type_: (raw / 0x100_0000_0000 % 0x10) as u8,
        s: (raw / 0x1000_0000_0000 % 2) as u8,
        dpl: (raw / 0x2000_0000_0000 % 4) as u8,
        present: (raw / 0x8000_0000_0000 % 2) as u8,
        avl: (raw / 0x10_0000_0000_0000 % 2) as u8,
        l: (raw / 0x20_0000_0000_0000 % 2) as u8,
        db: (raw / 0x40_0000_0000_0000 % 2) as u8,
        g: g as u8,
        unusable: 0,
        padding: 0,
    }
}

/// A code or data segment once it has been used: its accessed bit is set.
pub open spec fn accessed(segment: Segment) -> Segment {
    Segment { type_: segment.type_ | 1, ..segment }
}

/// The segment registers hold what the CPU would load from the GDT in memory
/// by their selectors, and the selectors lie within the GDT's limit.
pub proof fn law_segments_match_descriptors(mem: Seq<u8>, sregs: SpecialRegisters)
    requires
        GDT_ADDR + 24 <= mem.len(),
    ensures
        long_mode(sregs).cs == accessed(
            descriptor_segment(u64_at(with_gdt(mem), GDT_ADDR + CODE_SEL), CODE_SEL),
        ),
        long_mode(sregs).ds == accessed(
            descriptor_segment(u64_at(with_gdt(mem), GDT_ADDR + DATA_SEL), DATA_SEL),
        ),
        long_mode(sregs).es == long_mode(sregs).ds,
        long_mode(sregs).fs == long_mode(sregs).ds,
        long_mode(sregs).gs == long_mode(sregs).ds,
        long_mode(sregs).ss == long_mode(sregs).ds,
        long_mode(sregs).gdt.base == GDT_ADDR,
        CODE_SEL + 7 <= long_mode(sregs).gdt.limit,
        DATA_SEL + 7 == long_mode(sregs).gdt.limit,
{
    let gdt = with_gdt(mem);
    assert(0xAu8 | 1 == 0xB) by (bit_vector);
    assert(0x2u8 | 1 == 0x3) by (bit_vector);
    lemma_u64_round_trip(gdt, GDT_ADDR + 8, GDT_CODE);
    lemma_u64_round_trip(gdt, GDT_ADDR + 16, GDT_DATA);
    let code = descriptor_segment(GDT_CODE as int, CODE_SEL);
    assert(code.limit == 0xFFFF_FFFF);
    assert(accessed(code) == code_segment());
    let data = descriptor_segment(GDT_DATA as int, DATA_SEL);
    assert(accessed(data) == data_segment());
}

/// Whether the CPU runs 64-bit code: protected mode and paging on, physical
/// address extension on, long mode enabled and active, a present 64-bit code
/// segment.
pub open spec fn runs_64_bit_code(sregs: SpecialRegisters) -> bool {
    &&& sregs.cr0 & CR0_PE != 0
    &&& sregs.cr0 & CR0_PG != 0
    &&& sregs.cr4 & CR4_PAE != 0
    &&& sregs.efer & EFER_LME != 0
    &&& sregs.efer & EFER_LMA != 0
    &&& sregs.cs.present == 1
    &&& sregs.cs.l == 1
    &&& sregs.cs.db == 0
}

/// Whatever the vCPU's special registers were, it starts in 64-bit long mode.
pub proof fn law_starts_in_long_mode(sregs: SpecialRegisters)
    ensures
        runs_64_bit_code(long_mode(sregs)),
{
    assert(0x1u64 | 0x2 | 0x10 | 0x20 | 0x8000_0000 == 0x8000_0033) by (bit_vector);
    assert(0x8000_0033u64 & 0x1 != 0 && 0x8000_0033u64 & 0x8000_0000 != 0) by (bit_vector);
    assert(0x20u64 & 0x20 != 0) by (bit_vector);
    assert(0x100u64 | 0x400 == 0x500) by (bit_vector);
    assert(0x500u64 & 0x100 != 0 && 0x500u64 & 0x400 != 0) by (bit_vector);
}

/// Paging starts from the boot page tables: through the CR3 that the vCPU is
/// given, whatever it had before, every address of the first GiB is mapped to
/// itself and writable.
pub proof fn law_cr3_points_at_the_tables(mem: Seq<u8>, sregs: SpecialRegisters, virt: int)
    requires
        0x4000 <= mem.len(),
        0 <= virt < 0x4000_0000,
    ensures
        translate(with_page_tables(mem), long_mode(sregs).cr3 as int, virt) == Some(
            Translation { addr: virt, writable: true },
        ),
{
    law_first_gib_is_identity_mapped(mem, virt);
}

/// The control registers are the same whatever they were before: in CR0
/// protection, paging, the coprocessor bits and numeric errors and nothing
/// else, in CR4 the physical address extension alone, in EFER long mode alone.
pub proof fn law_control_registers_are_fixed(sregs: SpecialRegisters)
    ensures
        long_mode(sregs).cr0 == 0x8000_0033,
        long_mode(sregs).cr3 == 0x1000,
        long_mode(sregs).cr4 == 0x20,
        long_mode(sregs).efer == 0x500,
{
    assert(0x1u64 | 0x2 | 0x10 | 0x20 | 0x8000_0000 == 0x8000_0033) by (bit_vector);
    assert(0x100u64 | 0x400 == 0x500) by (bit_vector);
}

/// Whether a segment is flat, present, of ring 0 and in units of 4 KiB.
pub open spec fn is_flat_ring_0(segment: Segment) -> bool {
    &&& segment.base == 0
    &&& segment.limit == 0xFFFF_FFFF
    &&& segment.present == 1
    &&& segment.dpl == 0
    &&& segment.s == 1
    &&& segment.g == 1
    &&& segment.avl == 0
    &&& segment.unusable == 0
    &&& segment.padding == 0
}

/// The segment registers are flat and of ring 0 whatever they were before: the
/// code segment is 64-bit, readable and accessed, the data segments are
/// writable and accessed.
pub proof fn law_segments_are_flat(sregs: SpecialRegisters)
    ensures
        ({
            let cs = long_mode(sregs).cs;
            &&& is_flat_ring_0(cs)
            &&& cs.selector == 8
            &&& cs.type_ == 0xB
            &&& cs.l == 1
            &&& cs.db == 0
        }),
        ({
            let ds = long_mode(sregs).ds;
            &&& is_flat_ring_0(ds)
            &&& ds.selector == 0x10
            &&& ds.type_ == 3
            &&& ds.l == 0
            &&& ds.db == 1
        }),
        long_mode(sregs).es == long_mode(sregs).ds,
        long_mode(sregs).fs == long_mode(sregs).ds,
        long_mode(sregs).gs == long_mode(sregs).ds,
        long_mode(sregs).ss == long_mode(sregs).ds,
        long_mode(sregs).gdt.base == 0x500,
        long_mode(sregs).gdt.limit == 23,
{
}

/// Registers that the switch to long mode has no part in stay as they were.
pub proof fn law_other_registers_stay(sregs: SpecialRegisters)
    ensures
        long_mode(sregs).tr == sregs.tr,
        long_mode(sregs).ldt == sregs.ldt,
        long_mode(sregs).idt == sregs.idt,
        long_mode(sregs).cr2 == sregs.cr2,
        long_mode(sregs).cr8 == sregs.cr8,
        long_mode(sregs).apic_base == sregs.apic_base,
        long_mode(sregs).interrupt_bitmap == sregs.interrupt_bitmap,
{
}

/// The vCPU starts at any entry point in the same state: RSI at the boot
/// parameters, only the bit of RFLAGS that is always set, zero elsewhere.
pub proof fn law_only_rip_depends_on_the_entry(entry_addr: u64, other: u64)
    ensures
        entry_registers(entry_addr).rip == entry_addr,
        (GeneralRegisters { rip: other, ..entry_registers(entry_addr) }) == entry_registers(other),
        ({
            let regs = entry_registers(entry_addr);
            &&& regs.rsi == 0x7000
            &&& regs.rflags == 2
            &&& regs.rax == 0 && regs.rbx == 0 && regs.rcx == 0 && regs.rdx == 0
            &&& regs.rdi == 0 && regs.rsp == 0 && regs.rbp == 0
            &&& regs.r8 == 0 && regs.r9 == 0 && regs.r10 == 0 && regs.r11 == 0
            &&& regs.r12 == 0 && regs.r13 == 0 && regs.r14 == 0 && regs.r15 == 0
        }),
{
}

/// Once the GDT is written, the null, the code and the data descriptor are in
/// memory, and every other byte stays.
pub proof fn law_gdt_is_in_memory(mem: Seq<u8>, addr: int)
    requires
        0x518 <= mem.len(),
    ensures
        with_gdt(mem).len() == mem.len(),
        u64_at(with_gdt(mem), 0x500) == 0,
        u64_at(with_gdt(mem), 0x508) == 0x00AF_9A00_0000_FFFF,
        u64_at(with_gdt(mem), 0x510) == 0x00CF_9200_0000_FFFF,
        0 <= addr < 0x500 || 0x518 <= addr < mem.len() ==> with_gdt(mem)[addr] == mem[addr],
{
    let gdt = with_gdt(mem);
    lemma_u64_round_trip(gdt, 0x500, 0);
    lemma_u64_round_trip(gdt, 0x508, GDT_CODE);
    lemma_u64_round_trip(gdt, 0x510, GDT_DATA);
}

/// A GDT in memory that ends early is the same GDT cut off there.
pub proof fn law_gdt_is_cut_off_at_the_end(mem: Seq<u8>, len: int)
    requires
        0 <= len <= mem.len(),
    ensures
        with_gdt(mem.take(len)) == with_gdt(mem).take(len),
{
    assert(with_gdt(mem.take(len)) =~= with_gdt(mem).take(len));
}

/// The command line is written to memory as it is, byte for byte, with a null
/// byte behind it, and nothing else is written.
pub proof fn law_command_line_is_written_as_it_is(mem: Seq<u8>, cmdline: Seq<char>, addr: int)
    requires
        0 <= addr < mem.len(),
    ensures
        ({
            let after = store(mem, CMDLINE_ADDR as int, cmdline_bytes(cmdline));
            let text = encode_utf8(cmdline);
            &&& after.len() == mem.len()
            &&& 0x2_0000 <= addr < 0x2_0000 + text.len() ==> after[addr] == text[addr - 0x2_0000]
            &&& addr == 0x2_0000 + text.len() ==> after[addr] == 0
            &&& addr < 0x2_0000 || 0x2_0000 + text.len() < addr ==> after[addr] == mem[addr]
        }),
{
}

/// What the boot parameters say to the kernel, for every command line and every
/// size of memory: a boot loader loaded it, where its command line is and how
/// long, and two regions of RAM, the low 640 KiB and what there is from 1 MiB
/// up. The rest of the page is zero.
pub proof fn law_boot_params_for_every_guest(cmdline_size: int, mem_size: int, k: int)
    requires
        0 <= cmdline_size <= u32::MAX,
        0 <= mem_size <= u64::MAX,
    ensures
        ({
            let page = boot_params_page(boot_params(cmdline_size, mem_size));
            &&& page.len() == 0x1000
            &&& page[0x210] == 0xFF
            &&& u32_at(page, 0x228) == 0x2_0000
            &&& u32_at(page, 0x238) == cmdline_size
            &&& page[0x1E8] == 2
            &&& u64_at(page, 0x2D0) == 0
            &&& u64_at(page, 0x2D8) == 0xA_0000
            &&& u32_at(page, 0x2E0) == 1
            &&& u64_at(page, 0x2E4) == 0x10_0000
            &&& mem_size <= 0x10_0000 ==> u64_at(page, 0x2EC) == 0
            &&& mem_size >= 0x10_0000 ==> u64_at(page, 0x2E4) + u64_at(page, 0x2EC) == mem_size
            &&& u32_at(page, 0x2F4) == 1
            &&& 0 <= k < 0x1000 && k != 0x1E8 && k != 0x210 && !(0x228 <= k < 0x22C) && !(0x238
                <= k < 0x23C) && !(0x2D0 <= k < 0x2F8) ==> page[k] == 0
        }),
{
    let params = boot_params(cmdline_size, mem_size);
    law_boot_params_read_back(params);
    assert(params.e820_table[0].addr == 0 && params.e820_table[0].size == 0xA_0000);
    assert(params.e820_table[1].addr == 0x10_0000);
}

/// The kernel is told that a boot loader loaded it: from RSI, the loader type
/// in the boot image is 0xFF, and there are two entries in the memory map.
pub proof fn law_kernel_trusts_its_parameters(
    kernel: Seq<u8>,
    cmdline: Seq<char>,
    mem_size: int,
    entry_addr: u64,
)
    requires
        CMDLINE_ADDR + cmdline_bytes(cmdline).len() <= kernel.len(),
    ensures
        ({
            let image = boot_image(kernel, cmdline, mem_size);
            let params = entry_registers(entry_addr).rsi;
            &&& image[params + 0x210] == 0xFF
            &&& image[params + 0x1E8] == 2
        }),
{
    let image = boot_image(kernel, cmdline, mem_size);
    let params = boot_params(encode_utf8(cmdline).len() as int, mem_size);
    law_boot_structures_do_not_overlap(kernel, cmdline, mem_size);
    law_boot_params_read_back(params);
    let page = image.subrange(BOOT_PARAMS_ADDR as int, BOOT_PARAMS_ADDR + 0x1000);
    assert(image[BOOT_PARAMS_ADDR + 0x210] == page[0x210]);
    assert(image[BOOT_PARAMS_ADDR + 0x1E8] == page[0x1E8]);
}

/// What the guest finds in memory besides its command line, as numbers: from
/// 0x7000 the boot parameters with the memory map of a guest of `mem_size`
/// bytes, from 0x500 the three descriptors.
pub proof fn law_guest_finds_map_and_descriptors(
    kernel: Seq<u8>,
    cmdline: Seq<char>,
    mem_size: int,
)
    requires
        CMDLINE_ADDR + cmdline_bytes(cmdline).len() <= kernel.len(),
        encode_utf8(cmdline).len() <= u32::MAX,
        0x10_0000 <= mem_size <= u64::MAX,
    ensures
        ({
            let image = boot_image(kernel, cmdline, mem_size);
            &&& image[0x7210] == 0xFF
            &&& image[0x71E8] == 2
            &&& u64_at(image, 0x72D0) == 0
            &&& u64_at(image, 0x72D8) == 0xA_0000
            &&& u32_at(image, 0x72E0) == 1
            &&& u64_at(image, 0x72E4) == 0x10_0000
            &&& u64_at(image, 0x72EC) == mem_size - 0x10_0000
            &&& u32_at(image, 0x72F4) == 1
            &&& u64_at(image, 0x500) == 0
            &&& u64_at(image, 0x508) == 0x00AF_9A00_0000_FFFF
            &&& u64_at(image, 0x510) == 0x00CF_9200_0000_FFFF
        }),
{
    let image = boot_image(kernel, cmdline, mem_size);
    law_boot_structures_do_not_overlap(kernel, cmdline, mem_size);
    lemma_params_numbers(image, encode_utf8(cmdline).len() as int, mem_size);
    lemma_descriptor_numbers(image);
}

/// The numbers in the boot parameters, once they are at 0x7000.
proof fn lemma_params_numbers(image: Seq<u8>, cmdline_size: int, mem_size: int)
    requires
        0x8000 <= image.len(),
        image.subrange(0x7000, 0x8000) == boot_params_page(boot_params(cmdline_size, mem_size)),
        0 <= cmdline_size <= u32::MAX,
        0x10_0000 <= mem_size <= u64::MAX,
    ensures
        image[0x7210] == 0xFF,
        image[0x71E8] == 2,
        u64_at(image, 0x72D0) == 0,
        u64_at(image, 0x72D8) == 0xA_0000,
        u32_at(image, 0x72E0) == 1,
        u64_at(image, 0x72E4) == 0x10_0000,
        u64_at(image, 0x72EC) == mem_size - 0x10_0000,
        u32_at(image, 0x72F4) == 1,
{
    let page = image.subrange(0x7000, 0x8000);
    law_boot_params_for_every_guest(cmdline_size, mem_size, 0);
    assert(image[0x7210] == page[0x210]);
    assert(image[0x71E8] == page[0x1E8]);
    lemma_number_in_part(image, 0x7000, 0x8000, 0x2D0);
    lemma_number_in_part(image, 0x7000, 0x8000, 0x2D8);
    lemma_number_in_part(image, 0x7000, 0x8000, 0x2E0);
    lemma_number_in_part(image, 0x7000, 0x8000, 0x2E4);
    lemma_number_in_part(image, 0x7000, 0x8000, 0x2EC);
    lemma_number_in_part(image, 0x7000, 0x8000, 0x2F4);
}

/// The numbers in the GDT, once it is at 0x500.
proof fn lemma_descriptor_numbers(image: Seq<u8>)
    requires
        0x518 <= image.len(),
        image.subrange(0x500, 0x518) == gdt_bytes(),
    ensures
        u64_at(image, 0x500) == 0,
        u64_at(image, 0x508) == 0x00AF_9A00_0000_FFFF,
        u64_at(image, 0x510) == 0x00CF_9200_0000_FFFF,
{
    let gdt = gdt_bytes();
    lemma_u64_round_trip(gdt, 0, 0);
    lemma_u64_round_trip(gdt, 8, GDT_CODE);
    lemma_u64_round_trip(gdt, 16, GDT_DATA);
    lemma_number_in_part(image, 0x500, 0x518, 0);
    lemma_number_in_part(image, 0x500, 0x518, 8);
    lemma_number_in_part(image, 0x500, 0x518, 16);
}

/// A number in a part of memory is a number in memory.
proof fn lemma_number_in_part(mem: Seq<u8>, start: int, end: int, offset: int)
    requires
        0 <= start <= end <= mem.len(),
        0 <= offset,
        start + offset + 4 <= end,
    ensures
        u32_at(mem, start + offset) == u32_at(mem.subrange(start, end), offset),
        start + offset + 8 <= end ==> u64_at(mem, start + offset) == u64_at(
            mem.subrange(start, end),
            offset,
        ),
{
    law_numbers_are_read_little_endian(mem, start + offset);
    law_numbers_are_read_little_endian(mem.subrange(start, end), offset);
}

/// The boot structures take up fixed places: every byte of memory outside them
/// is the kernel's when the guest starts.
pub proof fn law_rest_of_memory_is_the_kernels(
    kernel: Seq<u8>,
    cmdline: Seq<char>,
    mem_size: int,
    addr: int,
)
    requires
        0 <= addr < kernel.len(),
        !(0x500 <= addr < 0x518),
        !(0x1000 <= addr < 0x1008),
        !(0x2000 <= addr < 0x2008),
        !(0x3000 <= addr < 0x4000),
        !(0x7000 <= addr < 0x8000),
        !(0x2_0000 <= addr <= 0x2_0000 + encode_utf8(cmdline).len()),
    ensures
        boot_image(kernel, cmdline, mem_size).len() == kernel.len(),
        boot_image(kernel, cmdline, mem_size)[addr] == kernel[addr],
{
}

/// The kernel finds its parameters and its command line: RSI points at the
/// boot parameters, these at the command line, and it ends at the first byte
/// after its recorded length, which is null.
pub proof fn law_kernel_finds_its_command_line(
    kernel: Seq<u8>,
    cmdline: Seq<char>,
    mem_size: int,
    entry_addr: u64,
)
    requires
        CMDLINE_ADDR + cmdline_bytes(cmdline).len() <= kernel.len(),
        encode_utf8(cmdline).len() <= u32::MAX,
    ensures
        ({
            let image = boot_image(kernel, cmdline, mem_size);
            let params = entry_registers(entry_addr).rsi;
            let text = u32_at(image, params + 0x228);
            let len = u32_at(image, params + 0x238);
            &&& image.subrange(text, text + len) == encode_utf8(cmdline)
            &&& image[text + len] == 0
        }),
{
    let image = boot_image(kernel, cmdline, mem_size);
    let params = boot_params(encode_utf8(cmdline).len() as int, mem_size);
    law_boot_structures_do_not_overlap(kernel, cmdline, mem_size);
    law_boot_params_read_back(params);
    let page = image.subrange(BOOT_PARAMS_ADDR as int, BOOT_PARAMS_ADDR + 0x1000);
    assert(forall|k: int| 0 <= k < 0x1000 ==> #[trigger] image[BOOT_PARAMS_ADDR + k] == page[k]);
    assert(u32_at(image, BOOT_PARAMS_ADDR + 0x228) == u32_at(page, 0x228) && u32_at(
        image,
        BOOT_PARAMS_ADDR + 0x238,
    ) == u32_at(page, 0x238)) by {
        reveal(u32_at);
    }
    let text = image.subrange(CMDLINE_ADDR as int, CMDLINE_ADDR + cmdline_bytes(cmdline).len());
    let len = encode_utf8(cmdline).len() as int;
    assert(image.subrange(CMDLINE_ADDR as int, CMDLINE_ADDR + len) =~= text.take(len));
    assert(text.take(len) =~= encode_utf8(cmdline));
    assert(image[CMDLINE_ADDR + len] == text[len]);
}

} // verus!
