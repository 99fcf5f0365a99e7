//! Kernel loading: the segments of a vmlinux ELF image are copied into guest
//! memory, and its entry point is where the vCPU starts.

use crate::bytes::{u32_at, u64_at};
use crate::memory::{keeps_mapping, store, zeroed, GuestMemory};
use linux_loader::loader::elf::Elf as ElfLoader;
use linux_loader::loader::KernelLoader;
use std::io::Cursor;
use vm_memory::Address;
use vstd::prelude::*;

verus! {

/// linux-loader's error of a failed load.
#[verifier::external_type_specification]
#[verifier::external_body]
pub struct ExLoaderError(linux_loader::loader::Error);

/// Size of the ELF header.
pub const ELF_HEADER_LEN: u64 = 64;

/// Size of one program header.
pub const PROGRAM_HEADER_LEN: u64 = 56;

/// Program header type of a segment that is loaded.
pub const PT_LOAD: u32 = 1;

/// Program header type of a segment of notes.
pub const PT_NOTE: u32 = 4;

/// The number that the two bytes of `image` from `addr` on stand for.
pub open spec fn u16_at(image: Seq<u8>, addr: int) -> int {
    image[addr] + 0x100 * image[addr + 1]
}

/// The entry point that the ELF header names (`e_entry`).
pub open spec fn entry_point(image: Seq<u8>) -> int {
    u64_at(image, 24)
}

/// The offset of the program headers (`e_phoff`).
pub open spec fn program_headers(image: Seq<u8>) -> int {
    u64_at(image, 32)
}

/// The number of program headers (`e_phnum`).
pub open spec fn program_header_count(image: Seq<u8>) -> int {
    u16_at(image, 56)
}

/// Whether `image` starts with the header of a little-endian ELF file whose
/// program headers have the size of 64-bit ones and lie behind the ELF header.
pub open spec fn has_elf_header(image: Seq<u8>) -> bool {
    &&& ELF_HEADER_LEN <= image.len()
    &&& image[0] == 0x7F
    &&& image[1] == 0x45
    &&& image[2] == 0x4C
    &&& image[3] == 0x46
    &&& image[5] == 1
    &&& u16_at(image, 54) == PROGRAM_HEADER_LEN
    &&& ELF_HEADER_LEN <= program_headers(image)
}

/// Whether all program headers lie within the image.
pub open spec fn has_program_headers(image: Seq<u8>) -> bool {
    program_header_count(image) == 0 || program_headers(image) + PROGRAM_HEADER_LEN
        * program_header_count(image) <= image.len()
}

/// What a program header says of its segment.
pub struct ProgramHeader {
    pub type_: int,
    pub offset: int,
    pub phys_addr: int,
    pub file_size: int,
    pub mem_size: int,
}

/// Program header `index` of the image.
pub open spec fn program_header(image: Seq<u8>, index: int) -> ProgramHeader {
    let addr = program_headers(image) + PROGRAM_HEADER_LEN * index;
    ProgramHeader {
        type_: u32_at(image, addr),
        offset: u64_at(image, addr + 8),
        phys_addr: u64_at(image, addr + 24),
        file_size: u64_at(image, addr + 32),
        mem_size: u64_at(image, addr + 40),
    }
}

/// Whether the host can address every offset and size in the headers. A
/// 64-bit host can.
pub open spec fn addressable(image: Seq<u8>) -> bool {
    &&& program_headers(image) <= usize::MAX
    &&& forall|index: int|
        0 <= index < program_header_count(image) ==> (#[trigger] program_header(
            image,
            index,
        )).file_size <= usize::MAX
}

/// The bytes of segment `index` in the image.
pub open spec fn segment_bytes(image: Seq<u8>, index: int) -> Seq<u8> {
    let header = program_header(image, index);
    Seq::new(header.file_size as nat, |k: int| image[header.offset + k])
}

/// Memory `mem` with the first `count` segments of the image loaded: the bytes
/// of each `PT_LOAD` segment lie at its physical address.
pub open spec fn with_segments(mem: Seq<u8>, image: Seq<u8>, count: int) -> Seq<u8>
    decreases count,
{
    if count <= 0 {
        mem
    } else {
        let before = with_segments(mem, image, count - 1);
        let header = program_header(image, count - 1);
        if header.type_ == PT_LOAD {
            store(before, header.phys_addr, segment_bytes(image, count - 1))
        } else {
            before
        }
    }
}

/// Whether address `addr` receives a byte of segment `index`.
pub open spec fn in_segment(image: Seq<u8>, index: int, addr: int) -> bool {
    let header = program_header(image, index);
    header.type_ == PT_LOAD && header.phys_addr <= addr < header.phys_addr + header.file_size
}

/// Whether segment `index` can be copied if it is to be loaded: its bytes are
/// in the image, and there is memory for them.
pub open spec fn segment_fits(mem_len: nat, image: Seq<u8>, index: int) -> bool {
    let header = program_header(image, index);
    header.type_ == PT_LOAD && header.file_size > 0 ==> {
        &&& header.offset + header.file_size <= image.len()
        &&& header.phys_addr + header.file_size <= mem_len
        &&& header.phys_addr + header.mem_size <= u64::MAX
    }
}

/// Whether the headers are valid and every segment fits.
pub open spec fn image_fits(mem_len: nat, image: Seq<u8>) -> bool {
    &&& has_elf_header(image)
    &&& has_program_headers(image)
    &&& forall|index: int|
        0 <= index < program_header_count(image) ==> #[trigger] segment_fits(mem_len, image, index)
}

/// Whether the image has a segment of notes.
pub open spec fn has_notes(image: Seq<u8>) -> bool {
    exists|index: int|
        0 <= index < program_header_count(image) && (#[trigger] program_header(image, index)).type_
            == PT_NOTE
}

/// Whether memory can be `after` an image was refused midway, if it was
/// `before`: the segments up to some one are loaded, and of that one at most a
/// leading part.
pub open spec fn partly_loaded(before: Seq<u8>, image: Seq<u8>, after: Seq<u8>) -> bool {
    exists|index: int, len: int|
        {
            let header = program_header(image, index);
            &&& 0 <= index < program_header_count(image)
            &&& 0 <= len <= header.file_size
            &&& len > 0 ==> header.type_ == PT_LOAD && header.offset + len <= image.len()
            &&& after == store(
                with_segments(before, image, index),
                header.phys_addr,
                #[trigger] segment_bytes(image, index).take(len),
            )
        }
}

/// What loading the image makes of memory `before`: `after`, and the entry
/// point if the image was taken.
pub open spec fn loaded(
    before: Seq<u8>,
    image: Seq<u8>,
    after: Seq<u8>,
    entry: Option<u64>,
) -> bool {
    // Only an image with valid headers is taken, and its entry point returned.
    &&& entry is Some ==> has_elf_header(image) && has_program_headers(image)
    &&& entry matches Some(addr) ==> addr == entry_point(image)
    // What was taken fits and has been copied, segment by segment.
    &&& entry is Some && addressable(image) ==> {
        &&& image_fits(before.len(), image)
        &&& after == with_segments(before, image, program_header_count(image))
    }
    // An image that fits is taken unless its notes are refused.
    &&& image_fits(before.len(), image) && addressable(image) && !has_notes(image) ==> entry is Some
    // Of one that is refused, the first segments may have been copied.
    &&& entry is None && has_elf_header(image) && has_program_headers(image) && addressable(image)
        ==> partly_loaded(before, image, after)
    // Nothing is written for invalid headers, and never outside a segment.
    &&& !(has_elf_header(image) && has_program_headers(image)) ==> after == before
    &&& after.len() == before.len()
    &&& forall|addr: int|
        0 <= addr < before.len() && (forall|index: int|
            0 <= index < program_header_count(image) ==> !#[trigger] in_segment(image, index, addr))
            ==> #[trigger] after[addr] == before[addr]
}

/// Whether linux-loader takes the image into a memory of `mem_len` bytes, on a
/// host that can address what the headers name. It depends, among other
/// things, on the notes in the image.
pub uninterp spec fn elf_accepted(mem_len: nat, image: Seq<u8>) -> bool;

/// Why the kernel could not be loaded.
#[derive(Debug)]
pub enum KernelError {
    Load(linux_loader::loader::Error),
}

impl KernelError {
    /// The message that goes with the error.
    pub open spec fn text(self) -> Seq<char> {
        "Failed to load vmlinux ELF"@
    }

    /// The message that goes with the error.
    pub fn message(&self) -> (text: &'static str)
        ensures
            text@ == self.text(),
    {
        "Failed to load vmlinux ELF"
    }
}

/// Calls linux-loader's `KernelLoader::load` for `Elf` on the bytes of an
/// image, with neither an offset nor a start of high memory.
///
/// Which images it takes is `elf_accepted`; what it does with them is `loaded`.
/// It reads the ELF header and the program headers, copies the `PT_LOAD`
/// segments in order to their physical addresses and returns the entry point;
/// it reads through notes and may refuse them. An image that it refuses midway
/// has been copied up to some byte of some segment; which one is not stated. The
/// memory is only written to, so its mapping stays the one it was.
#[verifier::external_body]
fn elf_load(guest_mem: &mut GuestMemory, image: &[u8]) -> (res: Result<
    u64,
    linux_loader::loader::Error,
>)
    ensures
        addressable(image@) ==> (res is Ok <==> elf_accepted(old(guest_mem)@.len(), image@)),
        loaded(
            old(guest_mem)@,
            image@,
            final(guest_mem)@,
            match res {
                Ok(entry_addr) => Some(entry_addr),
                Err(_) => None,
            },
        ),
        keeps_mapping(*old(guest_mem), *final(guest_mem)),
{
    match ElfLoader::load(&guest_mem.mem, None, &mut Cursor::new(image), None) {
        Ok(result) => Ok(result.kernel_load.raw_value()),
        Err(e) => Err(e),
    }
}

/// Loads a vmlinux ELF image into guest memory, at the physical addresses that
/// its program headers give, and returns the kernel's entry point.
pub fn load(guest_mem: &mut GuestMemory, image: &[u8]) -> (res: Result<u64, KernelError>)
    ensures
        addressable(image@) ==> (res is Ok <==> elf_accepted(old(guest_mem)@.len(), image@)),
        loaded(
            old(guest_mem)@,
            image@,
            final(guest_mem)@,
            match res {
                Ok(entry_addr) => Some(entry_addr),
                Err(_) => None,
            },
        ),
        keeps_mapping(*old(guest_mem), *final(guest_mem)),
{
    match elf_load(guest_mem, image) {
        Ok(entry_addr) => Ok(entry_addr),
        Err(e) => Err(KernelError::Load(e)),
    }
}

/// Every segment is found in memory at its physical address once the image is
/// loaded, but for bytes that a later segment covers.
pub proof fn law_segments_are_loaded(
    mem: Seq<u8>,
    image: Seq<u8>,
    count: int,
    index: int,
    addr: int,
)
    requires
        0 <= index < count,
        0 <= addr < mem.len(),
        in_segment(image, index, addr),
        forall|later: int| index < later < count ==> !#[trigger] in_segment(image, later, addr),
    ensures
        with_segments(mem, image, count)[addr] == image[program_header(image, index).offset + addr
            - program_header(image, index).phys_addr],
    decreases count,
{
    reveal(u64_at);
    reveal(u32_at);
    lemma_with_segments_len(mem, image, count - 1);
    if index < count - 1 {
        law_segments_are_loaded(mem, image, count - 1, index, addr);
        assert(!in_segment(image, count - 1, addr));
    }
}

/// The part of a segment that has no bytes in the image (a kernel's .bss) is
/// zero once the image is loaded into zeroed memory, but for what other
/// segments put there.
pub proof fn law_bss_is_zero(len: nat, image: Seq<u8>, count: int, index: int, addr: int)
    requires
        0 <= index < count,
        0 <= addr < len,
        ({
            let header = program_header(image, index);
            &&& header.type_ == PT_LOAD
            &&& header.phys_addr + header.file_size <= addr < header.phys_addr + header.mem_size
        }),
        forall|other: int|
            0 <= other < count && other != index ==> !#[trigger] in_segment(image, other, addr),
    ensures
        with_segments(zeroed(len), image, count)[addr] == 0,
{
    assert forall|other: int| 0 <= other < count implies !#[trigger] in_segment(
        image,
        other,
        addr,
    ) by {}
    lemma_outside_segments(zeroed(len), image, count, addr);
}

/// Where an image says what is to be loaded: the entry point in its ELF header,
/// and of each segment the kind, the place in the file, the physical address and
/// the two sizes in a program header of 56 bytes.
pub proof fn law_headers_are_read_by_the_elf_layout(image: Seq<u8>, index: int)
    ensures
        entry_point(image) == u64_at(image, 24),
        program_header_count(image) == image[56] + 0x100 * image[57],
        ({
            let at = u64_at(image, 32) + 56 * index;
            let header = program_header(image, index);
            &&& header.type_ == u32_at(image, at)
            &&& header.offset == u64_at(image, at + 8)
            &&& header.phys_addr == u64_at(image, at + 24)
            &&& header.file_size == u64_at(image, at + 32)
            &&& header.mem_size == u64_at(image, at + 40)
        }),
{
}

/// An image that is taken starts where its ELF header says, and every byte of a
/// segment of type 1 is in memory at its physical address, but for what a later
/// segment covers. An image without the ELF magic is not taken.
pub proof fn law_taken_image_is_in_memory(
    before: Seq<u8>,
    image: Seq<u8>,
    after: Seq<u8>,
    entry: Option<u64>,
    index: int,
    k: int,
)
    requires
        loaded(before, image, after, entry),
        addressable(image),
    ensures
        entry matches Some(addr) ==> addr == u64_at(image, 24),
        entry is Some ==> {
            &&& image.len() >= 64
            &&& image[0] == 0x7F && image[1] == 0x45 && image[2] == 0x4C && image[3] == 0x46
        },
        ({
            let count = image[56] + 0x100 * image[57];
            let header = program_header(image, index);
            let addr = header.phys_addr + k;
            entry is Some && 0 <= index < count && header.type_ == 1 && 0 <= k < header.file_size
                && (forall|later: int|
                index < later < count ==> !#[trigger] in_segment(image, later, addr)) ==> {
                &&& addr < after.len()
                &&& header.offset + k < image.len()
                &&& after[addr] == image[header.offset + k]
            }
        }),
        after.len() == before.len(),
{
    let count = program_header_count(image);
    let header = program_header(image, index);
    let addr = header.phys_addr + k;
    if entry is Some && 0 <= index < count && header.type_ == 1 && 0 <= k < header.file_size && (
    forall|later: int| index < later < count ==> !#[trigger] in_segment(image, later, addr)) {
        assert(segment_fits(before.len(), image, index));
        assert(0 <= header.phys_addr) by {
            reveal(u64_at);
            reveal(u32_at);
        }
        law_segments_are_loaded(before, image, count, index, addr);
    }
}

/// Whatever becomes of an image, memory that none of its segments is meant for
/// stays as it is.
pub proof fn law_loading_leaves_the_rest(
    before: Seq<u8>,
    image: Seq<u8>,
    after: Seq<u8>,
    entry: Option<u64>,
    addr: int,
)
    requires
        loaded(before, image, after, entry),
        0 <= addr < before.len(),
        forall|index: int|
            0 <= index < image[56] + 0x100 * image[57] ==> {
                let header = #[trigger] program_header(image, index);
                !(header.type_ == 1 && header.phys_addr <= addr < header.phys_addr
                    + header.file_size)
            },
    ensures
        after[addr] == before[addr],
{
    assert forall|index: int| 0 <= index < program_header_count(image) implies !#[trigger] in_segment(
        image,
        index,
        addr,
    ) by {
        let header = program_header(image, index);
    }
}

/// Memory that no segment is meant for stays as it is.
proof fn lemma_outside_segments(mem: Seq<u8>, image: Seq<u8>, count: int, addr: int)
    requires
        0 <= addr < mem.len(),
        forall|index: int| 0 <= index < count ==> !#[trigger] in_segment(image, index, addr),
    ensures
        with_segments(mem, image, count)[addr] == mem[addr],
    decreases count,
{
    reveal(u64_at);
    reveal(u32_at);
    if count > 0 {
        lemma_with_segments_len(mem, image, count - 1);
        lemma_outside_segments(mem, image, count - 1, addr);
        assert(!in_segment(image, count - 1, addr));
    }
}

/// Loading segments keeps the size of memory.
proof fn lemma_with_segments_len(mem: Seq<u8>, image: Seq<u8>, count: int)
    ensures
        with_segments(mem, image, count).len() == mem.len(),
    decreases count,
{
    if count > 0 {
        lemma_with_segments_len(mem, image, count - 1);
    }
}

} // verus!
