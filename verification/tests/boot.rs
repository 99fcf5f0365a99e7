use linux_loader::bootparam::{boot_e820_entry, boot_params};
use naos_linux::boot::{
    configure, make_code_segment, make_data_segment, write_boot_params, write_cmdline, write_gdt,
    write_page_tables, BootError, BOOT_PARAMS_ADDR, CMDLINE_ADDR, CODE_SEL, CR0_PE, CR0_PG,
    CR4_PAE, DATA_SEL, E820_RAM, EFER_LMA, EFER_LME, EXT_RAM_START, GDT_ADDR, GDT_CODE, GDT_DATA,
    GDT_NULL, LOW_RAM_END, PDPT_ADDR, PD_ADDR, PML4_ADDR, PTE_PRESENT, PTE_PS, PTE_RW,
};
use naos_linux::memory::{allocate, GuestMemory};
use naos_linux::registers::{DescriptorTable, Segment, SpecialRegisters};

const TWO_MIB: u64 = 2 * 1024 * 1024;

fn guest_mem(bytes: u64) -> GuestMemory {
    allocate(usize::try_from(bytes).unwrap()).unwrap()
}

fn read_u8(mem: &GuestMemory, addr: u64) -> u8 {
    let mut buf = [0_u8; 1];
    mem.read_slice(&mut buf, addr).unwrap();
    buf[0]
}

fn read_u32(mem: &GuestMemory, addr: u64) -> u32 {
    let mut buf = [0_u8; 4];
    mem.read_slice(&mut buf, addr).unwrap();
    u32::from_le_bytes(buf)
}

fn read_u64(mem: &GuestMemory, addr: u64) -> u64 {
    let mut buf = [0_u8; 8];
    mem.read_slice(&mut buf, addr).unwrap();
    u64::from_le_bytes(buf)
}

fn read_all(mem: &GuestMemory, len: usize) -> Vec<u8> {
    let mut buf = vec![0_u8; len];
    mem.read_slice(&mut buf, 0).unwrap();
    buf
}

/// Guest address of a `boot_params` field, given its struct offset.
fn boot_param_field(field_offset: usize) -> u64 {
    BOOT_PARAMS_ADDR + field_offset as u64
}

// --- GDT descriptor encoding (Intel SDM Vol. 3A, 3.4.5 / 5.2.1) ---

#[test]
fn null_descriptor_is_zero() {
    assert_eq!(GDT_NULL, 0);
}

#[test]
fn code_descriptor_is_64bit_ring0() {
    // Access byte (bits 47:40) = 0x9A: P=1, DPL=0, S=1, Type=code/exec/read.
    assert_eq!((GDT_CODE >> 40) & 0xFF, 0x9A);
    // Flags nibble (bits 55:52) = 0xA: G=1, D=0, L=1 -> 64-bit code segment.
    assert_eq!((GDT_CODE >> 52) & 0xF, 0xA);
}

#[test]
fn data_descriptor_is_writable_ring0() {
    // Access byte = 0x92: P=1, DPL=0, S=1, Type=data/writable.
    assert_eq!((GDT_DATA >> 40) & 0xFF, 0x92);
    // Flags nibble = 0xC: G=1, D=1, L=0 (data segments are not long).
    assert_eq!((GDT_DATA >> 52) & 0xF, 0xC);
}

// --- write_gdt / write_page_tables / write_cmdline (guest memory writers) ---

#[test]
fn write_gdt_lays_out_null_code_data() {
    let mut mem = guest_mem(0x1000);
    write_gdt(&mut mem).unwrap();
    assert_eq!(read_u64(&mem, GDT_ADDR), GDT_NULL);
    assert_eq!(read_u64(&mem, GDT_ADDR + 8), GDT_CODE);
    assert_eq!(read_u64(&mem, GDT_ADDR + 16), GDT_DATA);
}

#[test]
fn page_tables_chain_pml4_pdpt_pd() {
    let mut mem = guest_mem(0x5000);
    write_page_tables(&mut mem).unwrap();
    let pml4 = read_u64(&mem, PML4_ADDR);
    let pdpt = read_u64(&mem, PDPT_ADDR);
    assert_eq!(pml4, PDPT_ADDR | PTE_PRESENT | PTE_RW);
    assert_eq!(pdpt, PD_ADDR | PTE_PRESENT | PTE_RW);
    // Table pointers are not large-page entries.
    assert_eq!(pml4 & PTE_PS, 0);
}

#[test]
fn page_directory_identity_maps_with_large_pages() {
    let mut mem = guest_mem(0x5000);
    write_page_tables(&mut mem).unwrap();
    for index in [0_u64, 1, 255, 511] {
        let entry = read_u64(&mem, PD_ADDR + index * 8);
        assert_ne!(entry & PTE_PRESENT, 0);
        assert_ne!(entry & PTE_RW, 0);
        assert_ne!(entry & PTE_PS, 0); // 2 MiB large page
        // Identity mapping: physical base (flags masked off) == index * 2 MiB.
        assert_eq!(entry & !0xFFF, index * TWO_MIB);
    }
}

#[test]
fn write_cmdline_writes_string_then_null() {
    let mut mem = guest_mem(CMDLINE_ADDR + 0x1000);
    let cmdline = "console=ttyS0";
    write_cmdline(&mut mem, cmdline).unwrap();
    let mut buf = vec![0_u8; cmdline.len()];
    mem.read_slice(&mut buf, CMDLINE_ADDR).unwrap();
    assert_eq!(buf, cmdline.as_bytes());
    let terminator = read_u8(&mem, CMDLINE_ADDR + cmdline.len() as u64);
    assert_eq!(terminator, 0);
}

// --- write_boot_params (the e820 map) ---

#[test]
fn boot_params_describe_two_ram_regions() {
    let mut mem = guest_mem(0x8000);
    let mem_size = 256 * TWO_MIB; // 512 MiB
    write_boot_params(&mut mem, "console=ttyS0", mem_size).unwrap();

    // The kernel discards e820 tables with fewer than two entries, so the
    // count must be exactly the two regions we wrote.
    let entries = read_u8(&mem, boot_param_field(0x1E8));
    assert_eq!(entries, 2);

    let table = 0x2D0;
    let stride = std::mem::size_of::<boot_e820_entry>();

    // Region 0: conventional memory [0, 640 KiB).
    assert_eq!(read_u64(&mem, boot_param_field(table)), 0);
    assert_eq!(read_u64(&mem, boot_param_field(table + 8)), LOW_RAM_END);
    assert_eq!(read_u32(&mem, boot_param_field(table + 16)), E820_RAM);

    // Region 1: extended memory [1 MiB, top of RAM).
    assert_eq!(read_u64(&mem, boot_param_field(table + stride)), EXT_RAM_START);
    assert_eq!(
        read_u64(&mem, boot_param_field(table + stride + 8)),
        mem_size - EXT_RAM_START
    );
    assert_eq!(read_u32(&mem, boot_param_field(table + stride + 16)), E820_RAM);
}

#[test]
fn boot_params_record_cmdline_pointer_and_loader_type() {
    let mut mem = guest_mem(0x8000);
    write_boot_params(&mut mem, "x", 64 * TWO_MIB).unwrap();

    let cmd_ptr = read_u32(&mem, boot_param_field(0x228));
    assert_eq!(u64::from(cmd_ptr), CMDLINE_ADDR);

    let loader = read_u8(&mem, boot_param_field(0x210));
    assert_eq!(loader, 0xFF);
}

/// The places of the fields, by the structure's own field names.
#[test]
fn boot_params_bytes_are_those_of_the_structure() {
    let mut mem = guest_mem(0x8000);
    write_boot_params(&mut mem, "quiet", 3 * TWO_MIB).unwrap();

    let mut params = boot_params::default();
    params.hdr.cmd_line_ptr = 0x2_0000;
    params.hdr.cmdline_size = 5;
    params.hdr.type_of_loader = 0xFF;
    params.e820_table[0] = boot_e820_entry {
        addr: 0,
        size: 0xA_0000,
        type_: 1,
    };
    params.e820_table[1] = boot_e820_entry {
        addr: 0x10_0000,
        size: 0x50_0000,
        type_: 1,
    };
    params.e820_entries = 2;
    let expected = vm_memory::ByteValued::as_slice(&params);

    let mut page = vec![0_u8; 0x1000];
    mem.read_slice(&mut page, BOOT_PARAMS_ADDR).unwrap();
    assert_eq!(page, expected);
    // The layout, spelled out.
    assert_eq!(page[0x1E8], 2);
    assert_eq!(page[0x210], 0xFF);
    assert_eq!(&page[0x228..0x22C], &[0, 0, 2, 0]);
    assert_eq!(&page[0x238..0x23C], &[5, 0, 0, 0]);
    assert_eq!(&page[0x2D8..0x2E4], &[0, 0, 0xA, 0, 0, 0, 0, 0, 1, 0, 0, 0]);
    assert_eq!(&page[0x2E4..0x2EC], &[0, 0, 0x10, 0, 0, 0, 0, 0]);
    assert_eq!(&page[0x2EC..0x2F8], &[0, 0, 0x50, 0, 0, 0, 0, 0, 1, 0, 0, 0]);
    assert_eq!(page.iter().filter(|&&byte| byte != 0).count(), 9);
}

#[test]
fn extended_region_is_empty_below_one_mib() {
    let mut mem = guest_mem(0x8000);
    write_boot_params(&mut mem, "", 0x8000).unwrap();
    assert_eq!(read_u64(&mem, boot_param_field(0x2E4)), EXT_RAM_START);
    assert_eq!(read_u64(&mem, boot_param_field(0x2EC)), 0);
}

// --- segment register builders ---

#[test]
fn code_segment_is_long_mode() {
    let cs = make_code_segment();
    assert_eq!(cs.selector, CODE_SEL);
    assert_eq!(cs.l, 1); // 64-bit
    assert_eq!(cs.db, 0); // must be 0 when L=1
    assert_eq!(cs.present, 1);
    assert_eq!(cs.dpl, 0);
}

#[test]
fn data_segment_is_present_and_not_long() {
    let ds = make_data_segment();
    assert_eq!(ds.selector, DATA_SEL);
    assert_eq!(ds.l, 0);
    assert_eq!(ds.present, 1);
}

// --- configure ---

fn segment(fill: u8) -> Segment {
    Segment {
        base: u64::from(fill),
        limit: u32::from(fill),
        selector: u16::from(fill),
        type_: fill,
        present: fill,
        dpl: fill,
        db: fill,
        s: fill,
        l: fill,
        g: fill,
        avl: fill,
        unusable: fill,
        padding: fill,
    }
}

fn reset_registers() -> SpecialRegisters {
    SpecialRegisters {
        cs: segment(1),
        ds: segment(2),
        es: segment(3),
        fs: segment(4),
        gs: segment(5),
        ss: segment(6),
        tr: segment(7),
        ldt: segment(8),
        gdt: DescriptorTable { base: 9, limit: 10 },
        idt: DescriptorTable {
            base: 11,
            limit: 12,
        },
        cr0: 0x6000_0010,
        cr2: 13,
        cr3: 14,
        cr4: 15,
        cr8: 16,
        efer: 17,
        apic_base: 0xFEE0_0900,
        interrupt_bitmap: [18, 19, 20, 21],
    }
}

#[test]
fn configure_puts_vcpu_in_long_mode() {
    let mut mem = guest_mem(TWO_MIB); // covers GDT + page tables
    let entry = 0x10_0000;

    let (sregs, regs) = configure(&mut mem, reset_registers(), entry).unwrap();

    assert_eq!(sregs.cr3, PML4_ADDR);
    assert_ne!(sregs.cr0 & CR0_PE, 0);
    assert_ne!(sregs.cr0 & CR0_PG, 0);
    assert_ne!(sregs.cr4 & CR4_PAE, 0);
    assert_ne!(sregs.efer & EFER_LME, 0);
    assert_eq!(sregs.cs.selector, CODE_SEL);
    assert_eq!(sregs.cs.l, 1);

    assert_eq!(regs.rip, entry);
    assert_eq!(regs.rsi, BOOT_PARAMS_ADDR);
}

#[test]
fn configure_sets_exact_registers_and_keeps_the_others() {
    let mut mem = guest_mem(0x4000);
    let before = reset_registers();
    let (sregs, regs) = configure(&mut mem, before, 0x123_4567).unwrap();

    assert_eq!(sregs.cr0, 0x8000_0033);
    assert_eq!(sregs.cr4, 0x20);
    assert_eq!(sregs.efer, 0x500);
    assert_ne!(sregs.efer & EFER_LMA, 0);
    assert_eq!(
        sregs.gdt,
        DescriptorTable {
            base: 0x500,
            limit: 23
        }
    );
    let cs = Segment {
        base: 0,
        limit: 0xFFFF_FFFF,
        selector: 8,
        type_: 0xB,
        present: 1,
        dpl: 0,
        db: 0,
        s: 1,
        l: 1,
        g: 1,
        avl: 0,
        unusable: 0,
        padding: 0,
    };
    let ds = Segment {
        selector: 0x10,
        type_: 3,
        db: 1,
        l: 0,
        ..cs
    };
    assert_eq!(sregs.cs, cs);
    for data in [sregs.ds, sregs.es, sregs.fs, sregs.gs, sregs.ss] {
        assert_eq!(data, ds);
    }

    assert_eq!(sregs.tr, before.tr);
    assert_eq!(sregs.ldt, before.ldt);
    assert_eq!(sregs.idt, before.idt);
    assert_eq!(sregs.cr2, before.cr2);
    assert_eq!(sregs.cr8, before.cr8);
    assert_eq!(sregs.apic_base, before.apic_base);
    assert_eq!(sregs.interrupt_bitmap, before.interrupt_bitmap);

    assert_eq!(regs.rip, 0x123_4567);
    assert_eq!(regs.rsi, 0x7000);
    assert_eq!(regs.rflags, 2);
    let zero = [
        regs.rax, regs.rbx, regs.rcx, regs.rdx, regs.rdi, regs.rsp, regs.rbp, regs.r8, regs.r9,
        regs.r10, regs.r11, regs.r12, regs.r13, regs.r14, regs.r15,
    ];
    assert_eq!(zero, [0; 15]);
}

// --- the laws of the boot environment, on one guest ---

/// The walk that the CPU does for a 2 MiB page.
fn walk(mem: &GuestMemory, cr3: u64, virt: u64) -> u64 {
    let address = 0x000F_FFFF_FFFF_F000;
    let pml4e = read_u64(mem, cr3 + 8 * (virt >> 39 & 511));
    let pdpte = read_u64(mem, (pml4e & address) + 8 * (virt >> 30 & 511));
    let pde = read_u64(mem, (pdpte & address) + 8 * (virt >> 21 & 511));
    assert_eq!(pml4e & pdpte & pde & 3, 3);
    assert_eq!(pde & 0x80, 0x80);
    (pde & address & !0x1F_FFFF) + (virt & 0x1F_FFFF)
}

#[test]
fn first_gib_is_identity_mapped() {
    let mut mem = guest_mem(0x4000);
    write_page_tables(&mut mem).unwrap();
    for virt in [0, 0x7000, 0x1F_FFFF, 0x20_0000, 0x100_0000, 0x3FFF_FFFF] {
        assert_eq!(walk(&mem, PML4_ADDR, virt), virt);
    }
    // The next GiB has no entry.
    assert_eq!(read_u64(&mem, PDPT_ADDR + 8), 0);
    assert_eq!(read_u64(&mem, PML4_ADDR + 8), 0);
}

#[test]
fn boot_structures_keep_clear_of_each_other() {
    let mut mem = guest_mem(0x10_0000);
    let len = 0x10_0000;
    mem.write_slice(&vec![0x5A; len], 0).unwrap();
    let cmdline = "console=ttyS0 reboot=k";
    write_cmdline(&mut mem, cmdline).unwrap();
    write_boot_params(&mut mem, cmdline, len as u64).unwrap();
    let params = read_all(&mem, len)[0x7000..0x8000].to_vec();
    let (_, regs) = configure(&mut mem, reset_registers(), 0x8_0000).unwrap();

    let image = read_all(&mem, len);
    assert_eq!(&image[0x7000..0x8000], &params[..]);
    // From RSI to the command line and its terminator.
    let text = read_u32(&mem, regs.rsi + 0x228) as usize;
    let size = read_u32(&mem, regs.rsi + 0x238) as usize;
    assert_eq!(&image[text..text + size], cmdline.as_bytes());
    assert_eq!(image[text + size], 0);
    assert_eq!(walk(&mem, PML4_ADDR, 0x8_0000), 0x8_0000);

    let structures = [
        0x500..0x518,
        0x1000..0x1008,
        0x2000..0x2008,
        0x3000..0x4000,
        0x7000..0x8000,
        0x2_0000..0x2_0000 + cmdline.len() + 1,
    ];
    for (addr, byte) in image.iter().enumerate() {
        if !structures.iter().any(|range| range.contains(&addr)) {
            assert_eq!(*byte, 0x5A);
        }
    }
}

#[test]
fn segment_registers_match_the_gdt_in_memory() {
    let mut mem = guest_mem(0x4000);
    let (sregs, _) = configure(&mut mem, reset_registers(), 0).unwrap();
    for segment in [sregs.cs, sregs.ds] {
        let raw = read_u64(&mem, sregs.gdt.base + u64::from(segment.selector));
        assert_eq!(raw >> 40 & 0xF | 1, u64::from(segment.type_));
        assert_eq!(raw >> 44 & 1, u64::from(segment.s));
        assert_eq!(raw >> 45 & 3, u64::from(segment.dpl));
        assert_eq!(raw >> 47 & 1, u64::from(segment.present));
        assert_eq!(raw >> 53 & 1, u64::from(segment.l));
        assert_eq!(raw >> 54 & 1, u64::from(segment.db));
        assert_eq!(raw >> 55 & 1, u64::from(segment.g));
        let limit = raw & 0xFFFF | (raw >> 48 & 0xF) << 16;
        assert_eq!(limit << 12 | 0xFFF, u64::from(segment.limit));
    }
}

// --- memory that is too small ---

#[test]
fn each_structure_that_does_not_fit_is_named() {
    let mut mem = guest_mem(0x517);
    assert!(matches!(write_gdt(&mut mem), Err(BootError::Gdt(_))));
    // The descriptors and the part of one that fit are there.
    assert_eq!(read_u64(&mem, GDT_ADDR + 8), GDT_CODE);
    let mut tail = [0_u8; 7];
    mem.read_slice(&mut tail, GDT_ADDR + 16).unwrap();
    assert_eq!(tail, GDT_DATA.to_le_bytes()[..7]);
    assert!(matches!(
        configure(&mut mem, reset_registers(), 0),
        Err(BootError::Gdt(_))
    ));

    let sizes = [0x1007, 0x2007, 0x3FFF];
    let mut messages = Vec::new();
    for size in sizes {
        let mut mem = guest_mem(size);
        messages.push(write_page_tables(&mut mem).unwrap_err().message());
    }
    assert_eq!(
        messages,
        [
            "Failed to write PML4 entry",
            "Failed to write PDPT entry",
            "Failed to write PD entry"
        ]
    );

    let mut mem = guest_mem(0x7FFF);
    let err = write_boot_params(&mut mem, "", 0x7FFF).unwrap_err();
    assert!(matches!(err, BootError::BootParams(_)));
    assert_eq!(err.message(), "Failed to write boot_params to guest memory");
    assert_eq!(BootError::Gdt(out_of_range()).message(), "Failed to write GDT entry");
}

fn out_of_range() -> vm_memory::GuestMemoryError {
    guest_mem(8).write_u64(0, 8).unwrap_err()
}

#[test]
fn cmdline_that_does_not_fit_is_rejected() {
    let mut mem = guest_mem(CMDLINE_ADDR + 4);
    let err = write_cmdline(&mut mem, "quiet").unwrap_err();
    assert!(matches!(err, BootError::Cmdline(_)));
    assert_eq!(err.message(), "Failed to write cmdline to guest memory");
    assert_eq!(read_u32(&mem, CMDLINE_ADDR), u32::from_le_bytes(*b"quie"));

    // Room for the text alone.
    let err = write_cmdline(&mut mem, "quie").unwrap_err();
    assert!(matches!(err, BootError::CmdlineTerminator(_)));
    assert_eq!(err.message(), "Failed to write cmdline null terminator");

    // An empty command line is a lone null byte.
    let mut mem = guest_mem(CMDLINE_ADDR);
    assert!(matches!(
        write_cmdline(&mut mem, ""),
        Err(BootError::CmdlineTerminator(_))
    ));
    let mut mem = guest_mem(CMDLINE_ADDR + 1);
    mem.write_slice(&[7], CMDLINE_ADDR).unwrap();
    write_cmdline(&mut mem, "").unwrap();
    assert_eq!(read_u8(&mem, CMDLINE_ADDR), 0);
}
