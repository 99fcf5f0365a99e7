//! The boot environment: everything the CPU and the kernel need to start.
//!
//! It has four parts: the boot parameters with the command line, the GDT, the
//! page tables, and the CPU registers.

use crate::bytes::{u32_bytes, u64_bytes};
use crate::memory::{
    has_room, keeps_mapping, lemma_store_adjacent, lemma_store_clipped, store, zeroed, GuestMemory,
};
use crate::registers::{DescriptorTable, GeneralRegisters, Segment, SpecialRegisters};
use vm_memory::{ByteValued, GuestMemoryError};
use vstd::prelude::*;
use vstd::utf8::encode_utf8;

verus! {

/// Guest address of the GDT.
pub const GDT_ADDR: u64 = 0x500;

/// Guest address of the page-map level 4 table.
pub const PML4_ADDR: u64 = 0x1000;

/// Guest address of the page-directory-pointer table.
pub const PDPT_ADDR: u64 = 0x2000;

/// Guest address of the page directory.
pub const PD_ADDR: u64 = 0x3000;

/// Guest address of the boot parameters.
pub const BOOT_PARAMS_ADDR: u64 = 0x7000;

/// Guest address of the kernel command line.
pub const CMDLINE_ADDR: u64 = 0x2_0000;

/// Null descriptor, which the CPU wants as GDT entry 0.
pub const GDT_NULL: u64 = 0;

/// 64-bit kernel code: base 0, limit 0xFFFFF, G=1, L=1, D=0, P=1, DPL=0, S=1,
/// type 0xA.
pub const GDT_CODE: u64 = 0x00AF_9A00_0000_FFFF;

/// Kernel data: base 0, limit 0xFFFFF, G=1, D=1, L=0, P=1, DPL=0, S=1,
/// type 0x2.
pub const GDT_DATA: u64 = 0x00CF_9200_0000_FFFF;

/// Selector of the code segment: its offset in the GDT.
pub const CODE_SEL: u16 = 0x08;

/// Selector of the data segment: its offset in the GDT.
pub const DATA_SEL: u16 = 0x10;

/// Page-table entry flag: the entry is valid.
pub const PTE_PRESENT: u64 = 0x1;

/// Page-table entry flag: the page is writable.
pub const PTE_RW: u64 = 0x2;

/// Page-directory entry flag: the entry maps a 2 MiB page.
pub const PTE_PS: u64 = 0x80;

/// The size of a large page.
pub const LARGE_PAGE: u64 = 0x20_0000;

/// CR0: protection enable.
pub const CR0_PE: u64 = 0x1;

/// CR0: monitor coprocessor.
pub const CR0_MP: u64 = 0x2;

/// CR0: extension type, hardwired to 1.
pub const CR0_ET: u64 = 0x10;

/// CR0: numeric error.
pub const CR0_NE: u64 = 0x20;

/// CR0: paging.
pub const CR0_PG: u64 = 0x8000_0000;

/// CR4: physical address extension.
pub const CR4_PAE: u64 = 0x20;

/// EFER: long mode enable.
pub const EFER_LME: u64 = 0x100;

/// EFER: long mode active.
pub const EFER_LMA: u64 = 0x400;

/// The e820 type of usable RAM.
pub const E820_RAM: u32 = 1;

/// Top of conventional memory (640 KiB).
pub const LOW_RAM_END: u64 = 0x000A_0000;

/// Base of extended memory (1 MiB). Between the two lies the hole of the
/// legacy VGA and BIOS, which no region covers.
pub const EXT_RAM_START: u64 = 0x0010_0000;

/// Why the boot environment could not be written. Each variant names the
/// structure that did not fit in guest memory.
#[derive(Debug)]
pub enum BootError {
    Cmdline(GuestMemoryError),
    CmdlineTerminator(GuestMemoryError),
    BootParams(GuestMemoryError),
    Gdt(GuestMemoryError),
    Pml4(GuestMemoryError),
    Pdpt(GuestMemoryError),
    Pd(GuestMemoryError),
}

impl BootError {
    /// The message that goes with the error.
    pub open spec fn text(self) -> Seq<char> {
        match self {
            BootError::Cmdline(_) => "Failed to write cmdline to guest memory"@,
            BootError::CmdlineTerminator(_) => "Failed to write cmdline null terminator"@,
            BootError::BootParams(_) => "Failed to write boot_params to guest memory"@,
            BootError::Gdt(_) => "Failed to write GDT entry"@,
            BootError::Pml4(_) => "Failed to write PML4 entry"@,
            BootError::Pdpt(_) => "Failed to write PDPT entry"@,
            BootError::Pd(_) => "Failed to write PD entry"@,
        }
    }

    /// The message that goes with the error.
    pub fn message(&self) -> (text: &'static str)
        ensures
            text@ == self.text(),
    {
        match self {
            BootError::Cmdline(_) => "Failed to write cmdline to guest memory",
            BootError::CmdlineTerminator(_) => "Failed to write cmdline null terminator",
            BootError::BootParams(_) => "Failed to write boot_params to guest memory",
            BootError::Gdt(_) => "Failed to write GDT entry",
            BootError::Pml4(_) => "Failed to write PML4 entry",
            BootError::Pdpt(_) => "Failed to write PDPT entry",
            BootError::Pd(_) => "Failed to write PD entry",
        }
    }
}

/// The bytes of the command line as the kernel finds it: the text and a null
/// byte.
pub open spec fn cmdline_bytes(cmdline: Seq<char>) -> Seq<u8> {
    encode_utf8(cmdline).push(0)
}

/// Writes the kernel command line into guest memory, null-terminated. If it
/// does not fit, the part that fits is written.
pub fn write_cmdline(guest_mem: &mut GuestMemory, cmdline: &str) -> (res: Result<(), BootError>)
    ensures
        final(guest_mem)@ == store(
            old(guest_mem)@,
            CMDLINE_ADDR as int,
            cmdline_bytes(cmdline@),
        ),
        res is Ok <==> CMDLINE_ADDR + encode_utf8(cmdline@).len() < old(guest_mem)@.len(),
        res is Err && res->Err_0 is Cmdline <==> !has_room(
            old(guest_mem)@,
            CMDLINE_ADDR as int,
            encode_utf8(cmdline@),
        ),
        res is Err ==> res->Err_0 is Cmdline || res->Err_0 is CmdlineTerminator,
        keeps_mapping(*old(guest_mem), *final(guest_mem)),
{
    let ghost before = guest_mem@;
    let bytes = cmdline.as_bytes();
    match guest_mem.write_slice(bytes, CMDLINE_ADDR) {
        Ok(()) => {},
        Err(e) => {
            proof {
                lemma_store_clipped(
                    before,
                    CMDLINE_ADDR as int,
                    cmdline_bytes(cmdline@),
                    bytes@.len() as int,
                );
                assert(cmdline_bytes(cmdline@).take(bytes@.len() as int) =~= bytes@);
            }
            return Err(BootError::Cmdline(e));
        },
    }
    let terminator: [u8; 1] = [0];
    let written = guest_mem.write_slice(terminator.as_slice(), CMDLINE_ADDR + bytes.len() as u64);
    proof {
        lemma_store_adjacent(before, CMDLINE_ADDR as int, bytes@, terminator@);
        assert(bytes@ + terminator@ =~= cmdline_bytes(cmdline@));
    }
    match written {
        Ok(()) => Ok(()),
        Err(e) => Err(BootError::CmdlineTerminator(e)),
    }
}

/// One entry of the e820 memory map.
#[derive(Debug, Clone, Copy, PartialEq, Eq, Structural)]
pub struct E820Entry {
    pub addr: u64,
    pub size: u64,
    pub type_: u32,
}

/// The fields of the boot parameters that are filled in. All others are zero.
#[derive(Debug, Clone, Copy, PartialEq, Eq)]
pub struct BootParams {
    pub cmd_line_ptr: u32,
    pub cmdline_size: u32,
    pub type_of_loader: u8,
    pub e820_table: [E820Entry; 2],
    pub e820_entries: u8,
}

/// The twenty bytes of an e820 entry.
pub open spec fn e820_bytes(entry: E820Entry) -> Seq<u8> {
    u64_bytes(entry.addr) + u64_bytes(entry.size) + u32_bytes(entry.type_)
}

/// The boot parameters as a page of memory. The places of the fields are those
/// of the x86 boot protocol.
pub open spec fn boot_params_page(params: BootParams) -> Seq<u8> {
    let page = zeroed(0x1000);
    let page = store(page, 0x1E8, seq![params.e820_entries]);
    let page = store(page, 0x210, seq![params.type_of_loader]);
    let page = store(page, 0x228, u32_bytes(params.cmd_line_ptr));
    let page = store(page, 0x238, u32_bytes(params.cmdline_size));
    let page = store(page, 0x2D0, e820_bytes(params.e820_table[0]));
    store(page, 0x2E4, e820_bytes(params.e820_table[1]))
}

/// The boot parameters of a guest with `mem_size` bytes of RAM and a command
/// line of `cmdline_size` bytes: an unnamed boot loader, and the two RAM
/// regions that a PC reports, below 640 KiB and from 1 MiB up.
pub open spec fn boot_params(cmdline_size: int, mem_size: int) -> BootParams {
    BootParams {
        cmd_line_ptr: CMDLINE_ADDR as u32,
        cmdline_size: cmdline_size as u32,
        type_of_loader: 0xFF,
        e820_table: [
            E820Entry { addr: 0, size: LOW_RAM_END, type_: E820_RAM },
            E820Entry {
                addr: EXT_RAM_START,
                size: if mem_size < EXT_RAM_START {
                    0
                } else {
                    (mem_size - EXT_RAM_START) as u64
                },
                type_: E820_RAM,
            },
        ],
        e820_entries: 2,
    }
}

/// Fills `linux_loader::bootparam::boot_params` and takes its bytes with
/// vm-memory's `ByteValued::as_slice`. The structure is packed and zeroed by
/// `default`, and its fields lie where `boot_params_page` puts them; on x86, the
/// one architecture that has it, integers are little-endian.
#[verifier::external_body]
fn encode_boot_params(fields: &BootParams) -> (page: Vec<u8>)
    ensures
        page@ == boot_params_page(*fields),
{
    let mut params = linux_loader::bootparam::boot_params::default();
    params.hdr.cmd_line_ptr = fields.cmd_line_ptr;
    params.hdr.cmdline_size = fields.cmdline_size;
    params.hdr.type_of_loader = fields.type_of_loader;
    params.e820_table[0].addr = fields.e820_table[0].addr;
    params.e820_table[0].size = fields.e820_table[0].size;
    params.e820_table[0].type_ = fields.e820_table[0].type_;
    params.e820_table[1].addr = fields.e820_table[1].addr;
    params.e820_table[1].size = fields.e820_table[1].size;
    params.e820_table[1].type_ = fields.e820_table[1].type_;
    params.e820_entries = fields.e820_entries;
    params.as_slice().to_vec()
}

/// Builds the boot parameters (the "zero page") and writes them into guest
/// memory. They tell the kernel where its command line is and which memory it
/// has. The kernel ignores a map of fewer than two regions. If the page does
/// not fit, the part that fits is written.
pub fn write_boot_params(guest_mem: &mut GuestMemory, cmdline: &str, mem_size: u64) -> (res: Result<
    (),
    BootError,
>)
    requires
        encode_utf8(cmdline@).len() <= u32::MAX,
    ensures
        final(guest_mem)@ == store(
            old(guest_mem)@,
            BOOT_PARAMS_ADDR as int,
            boot_params_page(boot_params(encode_utf8(cmdline@).len() as int, mem_size as int)),
        ),
        res is Ok <==> BOOT_PARAMS_ADDR + 0x1000 <= old(guest_mem)@.len(),
        res matches Err(e) ==> e is BootParams,
        0x7210 < old(guest_mem)@.len() ==> final(guest_mem)@[0x7210] == 0xFF,
        keeps_mapping(*old(guest_mem), *final(guest_mem)),
{
    let low = E820Entry { addr: 0, size: LOW_RAM_END, type_: E820_RAM };
    let extended = E820Entry {
        addr: EXT_RAM_START,
        size: mem_size.saturating_sub(EXT_RAM_START),
        type_: E820_RAM,
    };
    let params = BootParams {
        cmd_line_ptr: CMDLINE_ADDR as u32,
        cmdline_size: cmdline.as_bytes().len() as u32,
        type_of_loader: 0xFF,
        e820_table: [low, extended],
        e820_entries: 2,
    };
    proof {
        let expected = boot_params(encode_utf8(cmdline@).len() as int, mem_size as int);
        assert(params.e820_table@ =~= expected.e820_table@);
        assert(boot_params_page(params) == boot_params_page(expected));
    }
    let page = encode_boot_params(&params);
    match guest_mem.write_slice(page.as_slice(), BOOT_PARAMS_ADDR) {
        Ok(()) => Ok(()),
        Err(e) => Err(BootError::BootParams(e)),
    }
}

/// The GDT's bytes: the null, the code and the data descriptor.
pub open spec fn gdt_bytes() -> Seq<u8> {
    u64_bytes(GDT_NULL) + u64_bytes(GDT_CODE) + u64_bytes(GDT_DATA)
}

/// Entry `index` of the page directory: a present, writable 2 MiB page at
/// `index` times 2 MiB.
pub open spec fn pd_entry(index: int) -> u64 {
    (index * LARGE_PAGE) as u64 | PTE_PRESENT | PTE_RW | PTE_PS
}

/// The page directory's bytes: 512 entries of 8 bytes.
pub open spec fn pd_bytes() -> Seq<u8> {
    Seq::new(0x1000, |k: int| u64_bytes(pd_entry(k / 8))[k % 8])
}

/// Memory `mem` with the GDT written into it.
pub open spec fn with_gdt(mem: Seq<u8>) -> Seq<u8> {
    store(mem, GDT_ADDR as int, gdt_bytes())
}

/// Memory `mem` with the page tables written into it.
pub open spec fn with_page_tables(mem: Seq<u8>) -> Seq<u8> {
    let pml4 = store(mem, PML4_ADDR as int, u64_bytes(PDPT_ADDR | PTE_PRESENT | PTE_RW));
    let pdpt = store(pml4, PDPT_ADDR as int, u64_bytes(PD_ADDR | PTE_PRESENT | PTE_RW));
    store(pdpt, PD_ADDR as int, pd_bytes())
}

/// One more entry makes one more eight bytes of the page directory.
proof fn lemma_pd_prefix(index: int)
    requires
        0 <= index < 512,
    ensures
        pd_bytes().take(8 * index) + u64_bytes(pd_entry(index)) == pd_bytes().take(8 * index + 8),
{
    let entry = u64_bytes(pd_entry(index));
    let longer = pd_bytes().take(8 * index + 8);
    assert forall|k: int| 0 <= k < 8 implies #[trigger] longer[8 * index + k] == entry[k] by {
        assert((8 * index + k) / 8 == index && (8 * index + k) % 8 == k);
    }
    assert forall|j: int| 0 <= j < 8 * index + 8 implies #[trigger] longer[j] == (pd_bytes().take(
        8 * index,
    ) + entry)[j] by {
        if j >= 8 * index {
            assert(longer[8 * index + (j - 8 * index)] == entry[j - 8 * index]);
        }
    }
    assert(pd_bytes().take(8 * index) + entry =~= longer);
}

/// Writes the GDT into guest memory: three entries, 24 bytes. If they do not
/// all fit, the part that fits is written.
pub fn write_gdt(guest_mem: &mut GuestMemory) -> (res: Result<(), BootError>)
    ensures
        final(guest_mem)@ == with_gdt(old(guest_mem)@),
        res is Ok <==> GDT_ADDR + 24 <= old(guest_mem)@.len(),
        res matches Err(e) ==> e is Gdt,
        keeps_mapping(*old(guest_mem), *final(guest_mem)),
{
    let gdt_entries: [u64; 3] = [GDT_NULL, GDT_CODE, GDT_DATA];
    let ghost before = guest_mem@;
    let ghost table = gdt_bytes();
    let mut i: usize = 0;
    proof {
        assert(store(before, GDT_ADDR as int, table.take(0)) =~= before);
    }
    while i < 3
        invariant
            i <= 3,
            before == old(guest_mem)@,
            keeps_mapping(*old(guest_mem), *guest_mem),
            gdt_entries@ == seq![GDT_NULL, GDT_CODE, GDT_DATA],
            table == gdt_bytes(),
            guest_mem@ == store(before, GDT_ADDR as int, table.take(8 * i)),
            i > 0 ==> GDT_ADDR + 8 * i <= before.len(),
        decreases 3 - i,
    {
        let addr: u64 = GDT_ADDR + (i as u64) * 8;
        let entry: u64 = gdt_entries[i];
        let written = guest_mem.write_u64(entry, addr);
        proof {
            lemma_store_adjacent(before, GDT_ADDR as int, table.take(8 * i), u64_bytes(entry));
            assert(table.take(8 * i) + u64_bytes(entry) =~= table.take(8 * i + 8));
        }
        match written {
            Ok(()) => {},
            Err(e) => {
                proof {
                    lemma_store_clipped(before, GDT_ADDR as int, table, 8 * i + 8);
                }
                return Err(BootError::Gdt(e));
            },
        }
        i = i + 1;
    }
    proof {
        assert(table.take(24) =~= table);
    }
    Ok(())
}

/// Builds identity-mapped page tables that cover the first GiB with 2 MiB
/// pages: one PML4 entry, one PDPT entry and a full page directory. If they do
/// not all fit, the part that fits is written.
pub fn write_page_tables(guest_mem: &mut GuestMemory) -> (res: Result<(), BootError>)
    ensures
        final(guest_mem)@ == with_page_tables(old(guest_mem)@),
        res is Ok <==> PD_ADDR + 0x1000 <= old(guest_mem)@.len(),
        res is Err && res->Err_0 is Pml4 <==> old(guest_mem)@.len() < PML4_ADDR + 8,
        res is Err && res->Err_0 is Pdpt <==> PML4_ADDR + 8 <= old(guest_mem)@.len() < PDPT_ADDR
            + 8,
        res is Err && res->Err_0 is Pd <==> PDPT_ADDR + 8 <= old(guest_mem)@.len() < PD_ADDR
            + 0x1000,
        keeps_mapping(*old(guest_mem), *final(guest_mem)),
{
    let ghost before = guest_mem@;
    match guest_mem.write_u64(PDPT_ADDR | PTE_PRESENT | PTE_RW, PML4_ADDR) {
        Ok(()) => {},
        Err(e) => {
            proof {
                assert(guest_mem@ =~= with_page_tables(before));
            }
            return Err(BootError::Pml4(e));
        },
    }
    match guest_mem.write_u64(PD_ADDR | PTE_PRESENT | PTE_RW, PDPT_ADDR) {
        Ok(()) => {},
        Err(e) => {
            proof {
                assert(guest_mem@ =~= with_page_tables(before));
            }
            return Err(BootError::Pdpt(e));
        },
    }
    let ghost upper = guest_mem@;
    let ghost table = pd_bytes();
    proof {
        assert(store(upper, PD_ADDR as int, table.take(0)) =~= upper);
    }
    let mut i: u64 = 0;
    while i < 512
        invariant
            i <= 512,
            before == old(guest_mem)@,
            keeps_mapping(*old(guest_mem), *guest_mem),
            table == pd_bytes(),
            store(upper, PD_ADDR as int, table) == with_page_tables(before),
            upper.len() == before.len(),
            PDPT_ADDR + 8 <= before.len(),
            guest_mem@ == store(upper, PD_ADDR as int, table.take(8 * i)),
            i > 0 ==> PD_ADDR + 8 * i <= before.len(),
        decreases 512 - i,
    {
        let phys_addr: u64 = i * LARGE_PAGE;
        let entry: u64 = phys_addr | PTE_PRESENT | PTE_RW | PTE_PS;
        let addr: u64 = PD_ADDR + i * 8;
        let written = guest_mem.write_u64(entry, addr);
        proof {
            lemma_store_adjacent(upper, PD_ADDR as int, table.take(8 * i), u64_bytes(entry));
            lemma_pd_prefix(i as int);
        }
        match written {
            Ok(()) => {},
            Err(e) => {
                proof {
                    lemma_store_clipped(upper, PD_ADDR as int, table, 8 * i + 8);
                }
                return Err(BootError::Pd(e));
            },
        }
        i = i + 1;
    }
    proof {
        assert(table.take(0x1000) =~= table);
    }
    Ok(())
}

/// What the code segment register holds.
pub open spec fn code_segment() -> Segment {
    Segment {
        base: 0,
        limit: 0xFFFF_FFFF,
        selector: CODE_SEL,
        type_: 0xB,
        present: 1,
        dpl: 0,
        db: 0,
        s: 1,
        l: 1,
        g: 1,
        avl: 0,
        unusable: 0,
        padding: 0,
    }
}

/// What each data segment register holds.
pub open spec fn data_segment() -> Segment {
    Segment { selector: DATA_SEL, type_: 0x3, db: 1, l: 0, ..code_segment() }
}

/// The code segment register: 64-bit, ring 0, flat. Its type is that of the
/// descriptor with the accessed bit set, which KVM expects.
pub fn make_code_segment() -> (segment: Segment)
    ensures
        segment == code_segment(),
{
    Segment {
        base: 0,
        limit: 0xFFFF_FFFF,
        selector: CODE_SEL,
        type_: 0xB,
        present: 1,
        dpl: 0,
        db: 0,
        s: 1,
        l: 1,
        g: 1,
        avl: 0,
        unusable: 0,
        padding: 0,
    }
}

/// The data segment registers: present, writable, ring 0, flat.
pub fn make_data_segment() -> (segment: Segment)
    ensures
        segment == data_segment(),
{
    Segment {
        base: 0,
        limit: 0xFFFF_FFFF,
        selector: DATA_SEL,
        type_: 0x3,
        present: 1,
        dpl: 0,
        db: 1,
        s: 1,
        l: 0,
        g: 1,
        avl: 0,
        unusable: 0,
        padding: 0,
    }
}

/// The special registers `sregs` switched to 64-bit long mode on this
/// module's tables. Registers that are not named stay as they are.
pub open spec fn long_mode(sregs: SpecialRegisters) -> SpecialRegisters {
    SpecialRegisters {
        cs: code_segment(),
        ds: data_segment(),
        es: data_segment(),
        fs: data_segment(),
        gs: data_segment(),
        ss: data_segment(),
        gdt: DescriptorTable { base: GDT_ADDR, limit: 23 },
        cr0: CR0_PE | CR0_MP | CR0_ET | CR0_NE | CR0_PG,
        cr3: PML4_ADDR,
        cr4: CR4_PAE,
        efer: EFER_LME | EFER_LMA,
        ..sregs
    }
}

/// The general registers at kernel entry: RIP at the entry point, RSI at the
/// boot parameters, in RFLAGS the one bit that is always set, zero elsewhere.
pub open spec fn entry_registers(entry_addr: u64) -> GeneralRegisters {
    GeneralRegisters {
        rax: 0,
        rbx: 0,
        rcx: 0,
        rdx: 0,
        rsi: BOOT_PARAMS_ADDR,
        rdi: 0,
        rsp: 0,
        rbp: 0,
        r8: 0,
        r9: 0,
        r10: 0,
        r11: 0,
        r12: 0,
        r13: 0,
        r14: 0,
        r15: 0,
        rip: entry_addr,
        rflags: 0x2,
    }
}

/// Writes the GDT and the page tables into guest memory. If they do not all
/// fit, the part that fits is written.
pub fn write_tables(guest_mem: &mut GuestMemory) -> (res: Result<(), BootError>)
    ensures
        final(guest_mem)@ == with_page_tables(with_gdt(old(guest_mem)@)),
        res is Ok <==> PD_ADDR + 0x1000 <= old(guest_mem)@.len(),
        res is Err && res->Err_0 is Gdt <==> old(guest_mem)@.len() < GDT_ADDR + 24,
        res is Err && res->Err_0 is Pml4 <==> GDT_ADDR + 24 <= old(guest_mem)@.len() < PML4_ADDR
            + 8,
        res is Err && res->Err_0 is Pdpt <==> PML4_ADDR + 8 <= old(guest_mem)@.len() < PDPT_ADDR
            + 8,
        res is Err && res->Err_0 is Pd <==> PDPT_ADDR + 8 <= old(guest_mem)@.len() < PD_ADDR
            + 0x1000,
        keeps_mapping(*old(guest_mem), *final(guest_mem)),
{
    match write_gdt(guest_mem) {
        Ok(()) => {},
        Err(e) => {
            proof {
                assert(guest_mem@ =~= with_page_tables(guest_mem@));
            }
            return Err(e);
        },
    }
    write_page_tables(guest_mem)
}

/// The registers with which the vCPU enters 64-bit long mode at the kernel
/// entry point, from the special registers `sregs` that it has.
pub fn start_registers(sregs: SpecialRegisters, entry_addr: u64) -> (regs: (
    SpecialRegisters,
    GeneralRegisters,
))
    ensures
        regs.0 == long_mode(sregs),
        regs.1 == entry_registers(entry_addr),
        regs.0.cr3 == 0x1000,
        regs.1.rip == entry_addr,
        regs.1.rsi == 0x7000,
{
    let mut new_sregs = sregs;
    new_sregs.cr0 = CR0_PE | CR0_MP | CR0_ET | CR0_NE | CR0_PG;
    new_sregs.cr3 = PML4_ADDR;
    new_sregs.cr4 = CR4_PAE;
    new_sregs.efer = EFER_LME | EFER_LMA;
    new_sregs.gdt = DescriptorTable { base: GDT_ADDR, limit: 23 };
    new_sregs.cs = make_code_segment();
    new_sregs.ds = make_data_segment();
    new_sregs.es = make_data_segment();
    new_sregs.fs = make_data_segment();
    new_sregs.gs = make_data_segment();
    new_sregs.ss = make_data_segment();

    let regs = GeneralRegisters {
        rax: 0,
        rbx: 0,
        rcx: 0,
        rdx: 0,
        rsi: BOOT_PARAMS_ADDR,
        rdi: 0,
        rsp: 0,
        rbp: 0,
        r8: 0,
        r9: 0,
        r10: 0,
        r11: 0,
        r12: 0,
        r13: 0,
        r14: 0,
        r15: 0,
        rip: entry_addr,
        rflags: 0x2,
    };

    (new_sregs, regs)
}

/// Prepares the vCPU to enter 64-bit long mode at the kernel entry point:
/// writes the GDT and the page tables into guest memory, and gives the
/// registers to set, from the special registers `sregs` that the vCPU has.
pub fn configure(
    guest_mem: &mut GuestMemory,
    sregs: SpecialRegisters,
    entry_addr: u64,
) -> (res: Result<(SpecialRegisters, GeneralRegisters), BootError>)
    ensures
        final(guest_mem)@ == with_page_tables(with_gdt(old(guest_mem)@)),
        res is Ok <==> PD_ADDR + 0x1000 <= old(guest_mem)@.len(),
        res matches Ok(regs) ==> regs.0 == long_mode(sregs) && regs.1 == entry_registers(
            entry_addr,
        ),
        res is Err && res->Err_0 is Gdt <==> old(guest_mem)@.len() < GDT_ADDR + 24,
        res is Err && res->Err_0 is Pml4 <==> GDT_ADDR + 24 <= old(guest_mem)@.len() < PML4_ADDR
            + 8,
        res is Err && res->Err_0 is Pdpt <==> PML4_ADDR + 8 <= old(guest_mem)@.len() < PDPT_ADDR
            + 8,
        res is Err && res->Err_0 is Pd <==> PDPT_ADDR + 8 <= old(guest_mem)@.len() < PD_ADDR
            + 0x1000,
        keeps_mapping(*old(guest_mem), *final(guest_mem)),
{
    match write_tables(guest_mem) {
        Ok(()) => Ok(start_registers(sregs, entry_addr)),
        Err(e) => Err(e),
    }
}

} // verus!
