use naos_linux::kernel::{load, KernelError};
use naos_linux::memory::{allocate, GuestMemory};

const ELF_HEADER_LEN: u64 = 64;
const PROGRAM_HEADER_LEN: u64 = 56;

fn guest_mem() -> GuestMemory {
    allocate(32 * 1024 * 1024).unwrap()
}

fn read(mem: &GuestMemory, addr: u64, len: usize) -> Vec<u8> {
    let mut buf = vec![0_u8; len];
    mem.read_slice(&mut buf, addr).unwrap();
    buf
}

/// An ELF64 header for `phnum` program headers right behind it.
fn elf_header(entry: u64, phnum: u16) -> Vec<u8> {
    let mut elf = Vec::new();
    // e_ident: magic, ELFCLASS64, little-endian, version, System V ABI.
    elf.extend_from_slice(&[0x7f, b'E', b'L', b'F', 2, 1, 1, 0]);
    elf.extend_from_slice(&[0; 8]); // ABI version + padding (16 bytes total)
    elf.extend_from_slice(&2_u16.to_le_bytes()); // e_type = ET_EXEC
    elf.extend_from_slice(&62_u16.to_le_bytes()); // e_machine = EM_X86_64
    elf.extend_from_slice(&1_u32.to_le_bytes()); // e_version
    elf.extend_from_slice(&entry.to_le_bytes()); // e_entry
    elf.extend_from_slice(&ELF_HEADER_LEN.to_le_bytes()); // e_phoff
    elf.extend_from_slice(&0_u64.to_le_bytes()); // e_shoff
    elf.extend_from_slice(&0_u32.to_le_bytes()); // e_flags
    elf.extend_from_slice(&64_u16.to_le_bytes()); // e_ehsize
    elf.extend_from_slice(&56_u16.to_le_bytes()); // e_phentsize
    elf.extend_from_slice(&phnum.to_le_bytes()); // e_phnum
    elf.extend_from_slice(&0_u16.to_le_bytes()); // e_shentsize
    elf.extend_from_slice(&0_u16.to_le_bytes()); // e_shnum
    elf.extend_from_slice(&0_u16.to_le_bytes()); // e_shstrndx
    assert_eq!(elf.len() as u64, ELF_HEADER_LEN);
    elf
}

fn program_header(type_: u32, offset: u64, paddr: u64, filesz: u64, memsz: u64) -> Vec<u8> {
    let mut header = Vec::new();
    header.extend_from_slice(&type_.to_le_bytes()); // p_type
    header.extend_from_slice(&5_u32.to_le_bytes()); // p_flags = R+X
    header.extend_from_slice(&offset.to_le_bytes()); // p_offset
    header.extend_from_slice(&paddr.to_le_bytes()); // p_vaddr
    header.extend_from_slice(&paddr.to_le_bytes()); // p_paddr
    header.extend_from_slice(&filesz.to_le_bytes()); // p_filesz
    header.extend_from_slice(&memsz.to_le_bytes()); // p_memsz
    header.extend_from_slice(&0x1000_u64.to_le_bytes()); // p_align
    header
}

/// Build the smallest valid `x86_64` ELF the loader will accept: an ELF64
/// header plus a single `PT_LOAD` segment of NOPs at `entry`.
fn minimal_elf64(entry: u64) -> Vec<u8> {
    let segment = [0x90_u8; 16]; // NOPs
    let p_offset = ELF_HEADER_LEN + PROGRAM_HEADER_LEN;
    let mut elf = elf_header(entry, 1);
    elf.extend_from_slice(&program_header(1, p_offset, entry, 16, 16));
    assert_eq!(elf.len() as u64, p_offset);
    elf.extend_from_slice(&segment);
    elf
}

#[test]
fn load_fails_on_a_non_elf_file() {
    let result = load(&mut guest_mem(), b"definitely not an ELF binary");
    assert!(result.is_err());
}

#[test]
fn load_returns_entry_address_of_a_valid_elf() {
    let entry = 0x10_0000;
    let result = load(&mut guest_mem(), &minimal_elf64(entry));
    assert_eq!(result.unwrap(), entry);
}

#[test]
fn the_error_has_a_message() {
    let err = load(&mut guest_mem(), b"").unwrap_err();
    assert_eq!(err.message(), "Failed to load vmlinux ELF");
    let KernelError::Load(_) = err;
}

#[test]
fn segments_are_copied_to_their_physical_addresses_in_order() {
    let mut elf = elf_header(0x123, 5);
    // A stack segment and an empty one are not loaded.
    elf.extend_from_slice(&program_header(0x6474_e551, 0, 0x50, 8, 8));
    elf.extend_from_slice(&program_header(1, u64::MAX, u64::MAX, 0, u64::MAX));
    elf.extend_from_slice(&program_header(1, 344, 0x1000, 4, 8));
    elf.extend_from_slice(&program_header(1, 348, 0x1002, 4, 4));
    // The header itself, at the end of memory.
    elf.extend_from_slice(&program_header(1, 0, 0x2000 - 4, 4, 4));
    elf.extend_from_slice(b"abcdefgh");

    let mut mem = allocate(0x2000).unwrap();
    mem.write_slice(&[0xEE; 0x2000], 0).unwrap();
    assert_eq!(load(&mut mem, &elf).unwrap(), 0x123);

    assert_eq!(read(&mem, 0x0FFF, 8), b"\xEEabefgh\xEE");
    assert_eq!(read(&mem, 0x1FFC, 4), b"\x7fELF");
    // What has no bytes in the file stays as it was.
    assert_eq!(read(&mem, 0x1006, 2), [0xEE, 0xEE]);
    assert_eq!(read(&mem, 0, 0x0FFF), vec![0xEE; 0x0FFF]);
}

#[test]
fn bss_is_zero_in_fresh_memory() {
    let mut elf = elf_header(0x400, 1);
    elf.extend_from_slice(&program_header(1, 120, 0x400, 4, 0x100));
    elf.extend_from_slice(b"textmore");
    let mut mem = allocate(0x1000).unwrap();
    load(&mut mem, &elf).unwrap();
    assert_eq!(read(&mem, 0x400, 4), b"text");
    assert_eq!(read(&mem, 0x404, 0xFC), vec![0; 0xFC]);
}

#[test]
fn an_elf_without_segments_has_an_entry_point() {
    let mut mem = allocate(0x1000).unwrap();
    assert_eq!(load(&mut mem, &elf_header(u64::MAX, 0)).unwrap(), u64::MAX);
    assert_eq!(read(&mem, 0, 0x1000), vec![0; 0x1000]);
}

#[test]
fn invalid_headers_are_refused_and_nothing_is_written() {
    let valid = minimal_elf64(0x100);
    let mut images = vec![valid[..63].to_vec(), valid[..100].to_vec()];
    // Magic, byte order, size and place of the program headers.
    for (offset, byte) in [(0, 0x7E), (1, 0), (2, 0), (3, 0), (5, 2), (54, 55), (32, 63)] {
        let mut image = valid.clone();
        image[offset] = byte;
        images.push(image);
    }
    for image in images {
        let mut mem = allocate(0x1000).unwrap();
        mem.write_slice(&[0xEE; 0x1000], 0).unwrap();
        assert!(load(&mut mem, &image).is_err());
        assert_eq!(read(&mem, 0, 0x1000), vec![0xEE; 0x1000]);
    }
}

#[test]
fn segments_that_do_not_fit_are_refused() {
    let offset = ELF_HEADER_LEN + PROGRAM_HEADER_LEN;
    for header in [
        program_header(1, offset, 0xFF1, 16, 16),      // past the end of memory
        program_header(1, offset + 1, 0x100, 16, 16),  // past the end of the image
        program_header(1, offset, 0x100, 16, u64::MAX), // past the end of addresses
    ] {
        let mut elf = elf_header(0x100, 1);
        elf.extend_from_slice(&header);
        elf.extend_from_slice(&[0x90; 16]);
        let mut mem = allocate(0x1000).unwrap();
        assert!(load(&mut mem, &elf).is_err());
        // Nothing was written below or above the segment.
        assert_eq!(read(&mem, 0, 0x100), vec![0; 0x100]);
        assert_eq!(read(&mem, 0x110, 0x100), vec![0; 0x100]);
    }
}

#[test]
fn an_image_refused_midway_is_loaded_up_to_there() {
    let mut elf = elf_header(0, 3);
    elf.extend_from_slice(&program_header(1, 232, 0x100, 4, 4));
    elf.extend_from_slice(&program_header(1, 236, 0xFFE, 4, 4)); // two bytes too many
    elf.extend_from_slice(&program_header(1, 232, 0x200, 4, 4));
    elf.extend_from_slice(b"abcdefgh");
    let mut mem = allocate(0x1000).unwrap();
    assert!(load(&mut mem, &elf).is_err());
    assert_eq!(read(&mem, 0x100, 4), b"abcd");
    assert_eq!(read(&mem, 0xFFE, 2), b"ef");
    assert_eq!(read(&mem, 0x200, 4), [0; 4]);
}

#[test]
fn notes_are_read_through() {
    let offset = ELF_HEADER_LEN + PROGRAM_HEADER_LEN;
    let mut elf = elf_header(7, 1);
    elf.extend_from_slice(&program_header(4, offset, 0x100, 12, 12));
    let truncated = elf.clone();
    elf.extend_from_slice(&[0; 12]);
    let mut mem = allocate(0x1000).unwrap();
    assert_eq!(load(&mut mem, &elf).unwrap(), 7);
    assert!(load(&mut mem, &truncated).is_err());
    assert_eq!(read(&mem, 0, 0x1000), vec![0; 0x1000]);
}
