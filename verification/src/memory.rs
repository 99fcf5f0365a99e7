//! Guest physical memory: one block of RAM that starts at guest address 0.

use crate::bytes::{encode_u64, u64_bytes};
use vm_memory::mmap::FromRangesError;
use vm_memory::{
    Address, Bytes, GuestAddress, GuestMemoryError, GuestMemoryMmap, GuestMemoryRegion,
};
use vstd::prelude::*;

verus! {

/// vm-memory's collection of regions, the type behind `GuestMemoryMmap`.
#[verifier::external_type_specification]
#[verifier::external_body]
#[verifier::reject_recursive_types(R)]
pub struct ExGuestRegionCollection<R>(vm_memory::GuestRegionCollection<R>);

/// vm-memory's memory-mapped region.
#[verifier::external_type_specification]
#[verifier::external_body]
#[verifier::reject_recursive_types(B)]
pub struct ExGuestRegionMmap<B>(vm_memory::GuestRegionMmap<B>);

/// vm-memory's error of a read or a write of guest memory.
#[verifier::external_type_specification]
#[verifier::external_body]
pub struct ExGuestMemoryError(vm_memory::GuestMemoryError);

/// vm-memory's error of an allocation of guest memory.
#[verifier::external_type_specification]
#[verifier::external_body]
pub struct ExFromRangesError(vm_memory::mmap::FromRangesError);

/// One MiB, the unit in which guest memory is sized.
pub const MIB: u64 = 0x10_0000;

/// The bytes that a mapped memory of one region holds, in address order.
pub uninterp spec fn guest_bytes(mem: GuestMemoryMmap) -> Seq<u8>;

/// `len` bytes of zeroed RAM.
pub open spec fn zeroed(len: nat) -> Seq<u8> {
    Seq::new(len, |i: int| 0u8)
}

/// Memory `mem` with `data` laid over it from address `addr` on. What would
/// come to lie past the end of `mem` is cut off.
pub open spec fn store(mem: Seq<u8>, addr: int, data: Seq<u8>) -> Seq<u8> {
    Seq::new(
        mem.len(),
        |i: int|
            if addr <= i < addr + data.len() {
                data[i - addr]
            } else {
                mem[i]
            },
    )
}

/// The buffer `data` filled from address `addr` of `mem` on. What would come
/// from past the end of `mem` stays as it is.
pub open spec fn fetch(mem: Seq<u8>, addr: int, data: Seq<u8>) -> Seq<u8> {
    Seq::new(
        data.len(),
        |i: int|
            if addr + i < mem.len() {
                mem[addr + i]
            } else {
                data[i]
            },
    )
}

/// Whether all of `data` has room in `mem` at address `addr`. An empty write
/// has room everywhere.
pub open spec fn has_room(mem: Seq<u8>, addr: int, data: Seq<u8>) -> bool {
    data.len() == 0 || addr + data.len() <= mem.len()
}

/// A read gives back what a write put there.
pub proof fn law_read_gives_back_write(mem: Seq<u8>, addr: int, data: Seq<u8>, buffer: Seq<u8>)
    requires
        0 <= addr,
        addr + data.len() <= mem.len(),
        buffer.len() == data.len(),
    ensures
        fetch(store(mem, addr, data), addr, buffer) == data,
{
    assert(fetch(store(mem, addr, data), addr, buffer) =~= data);
}

/// A write leaves every byte alone that it is not meant for, and the size of
/// memory.
pub proof fn law_write_leaves_the_rest(mem: Seq<u8>, addr: int, data: Seq<u8>, other: int)
    requires
        0 <= other < mem.len(),
        other < addr || addr + data.len() <= other,
    ensures
        store(mem, addr, data).len() == mem.len(),
        store(mem, addr, data)[other] == mem[other],
{
}

/// A write to memory that ends early is the same write cut off there.
pub proof fn law_write_is_cut_off_at_the_end(mem: Seq<u8>, addr: int, data: Seq<u8>, len: int)
    requires
        0 <= len <= mem.len(),
    ensures
        store(mem.take(len), addr, data) == store(mem, addr, data).take(len),
{
    assert(store(mem.take(len), addr, data) =~= store(mem, addr, data).take(len));
}

/// A transfer has room if and only if every byte of it lies in memory.
pub proof fn law_room_is_for_every_byte(mem: Seq<u8>, addr: int, data: Seq<u8>)
    requires
        0 <= addr,
    ensures
        has_room(mem, addr, data) <==> forall|k: int|
            #![trigger data[k]]
            0 <= k < data.len() ==> addr + k < mem.len(),
{
    if data.len() > 0 && addr + data.len() > mem.len() {
        assert(data[data.len() - 1] <= 255);
    }
}

/// A read past the end of memory fills the buffer up to there and leaves the
/// rest of it.
pub proof fn law_read_stops_at_the_end(mem: Seq<u8>, addr: int, buffer: Seq<u8>, k: int)
    requires
        0 <= addr,
        0 <= k < buffer.len(),
    ensures
        fetch(mem, addr, buffer).len() == buffer.len(),
        addr + k < mem.len() ==> fetch(mem, addr, buffer)[k] == mem[addr + k],
        mem.len() <= addr + k ==> fetch(mem, addr, buffer)[k] == buffer[k],
{
}

/// Fresh memory has the size that was asked for and holds nothing but zeros.
pub proof fn law_fresh_memory_is_zero(len: nat, addr: int)
    ensures
        zeroed(len).len() == len,
        0 <= addr < len ==> zeroed(len)[addr] == 0,
{
}

/// Two writes of which the second starts where the first ends are one write.
pub proof fn lemma_store_adjacent(mem: Seq<u8>, addr: int, first: Seq<u8>, second: Seq<u8>)
    requires
        0 <= addr,
    ensures
        store(store(mem, addr, first), addr + first.len(), second) == store(
            mem,
            addr,
            first + second,
        ),
{
    assert(store(store(mem, addr, first), addr + first.len(), second) =~= store(
        mem,
        addr,
        first + second,
    ));
}

/// Of a write that runs past the end of the memory, only the part before the
/// end matters.
pub proof fn lemma_store_clipped(mem: Seq<u8>, addr: int, data: Seq<u8>, len: int)
    requires
        0 <= len <= data.len(),
        mem.len() <= addr + len,
    ensures
        store(mem, addr, data.take(len)) == store(mem, addr, data),
{
    assert(store(mem, addr, data.take(len)) =~= store(mem, addr, data));
}

/// Why guest memory could not be set up.
#[derive(Debug)]
pub enum MemoryError {
    /// The size in bytes does not fit in 64 bits.
    SizeOverflow,
    /// The size in bytes does not fit in the host's address space.
    SizeExceedsUsize,
    /// The host refused the mapping.
    Mmap(FromRangesError),
    /// The memory has no region to register.
    NoRegions,
}

impl MemoryError {
    /// The message that goes with the error.
    pub open spec fn text(self) -> Seq<char> {
        match self {
            MemoryError::SizeOverflow => "Memory size overflow"@,
            MemoryError::SizeExceedsUsize => "Memory size exceeds usize"@,
            MemoryError::Mmap(_) => "Failed to create guest memory via mmap"@,
            MemoryError::NoRegions => "Guest memory has no regions"@,
        }
    }

    /// The message that goes with the error.
    pub fn message(&self) -> (text: &'static str)
        ensures
            text@ == self.text(),
    {
        match self {
            MemoryError::SizeOverflow => "Memory size overflow",
            MemoryError::SizeExceedsUsize => "Memory size exceeds usize",
            MemoryError::Mmap(_) => "Failed to create guest memory via mmap",
            MemoryError::NoRegions => "Guest memory has no regions",
        }
    }
}

/// One region of guest memory as KVM is told of it.
#[derive(Debug, Clone, Copy, PartialEq, Eq)]
pub struct MemoryRegion {
    pub slot: u32,
    pub flags: u32,
    pub guest_phys_addr: u64,
    pub memory_size: u64,
    pub userspace_addr: u64,
}

/// The guest's RAM: a single anonymous mapping at guest address 0. Nothing
/// else in the process refers to the mapping, so until a guest runs on it a
/// write through this value is the only way in which the bytes change.
#[derive(Debug)]
pub struct GuestMemory {
    pub(crate) mem: GuestMemoryMmap,
}

impl View for GuestMemory {
    type V = Seq<u8>;

    closed spec fn view(&self) -> Seq<u8> {
        guest_bytes(self.mem)
    }
}

/// Calls `GuestMemoryMmap::from_ranges` for one range at guest address 0. The
/// mapping is private and anonymous, which the kernel hands out zeroed and
/// refuses for a length of 0. Whether the host grants any other length is its
/// own affair.
#[verifier::external_body]
fn map_anonymous(size: usize) -> (res: Result<GuestMemoryMmap, FromRangesError>)
    ensures
        res matches Ok(mem) ==> guest_bytes(mem) == zeroed(size as nat),
        size == 0 ==> res is Err,
{
    GuestMemoryMmap::from_ranges(&[(GuestAddress(0), size)])
}

impl GuestMemory {
    /// A mapping is no longer than the host's address space.
    #[verifier::type_invariant]
    spec fn fits_host(self) -> bool {
        guest_bytes(self.mem).len() <= usize::MAX
    }

    /// Calls `Bytes::write_slice` of vm-memory. The bytes are copied in address
    /// order up to the end of the memory, and the call fails if some of them
    /// are left over; an empty slice is written anywhere. The mapping stays the
    /// one it was.
    #[verifier::external_body]
    fn raw_write_slice(&mut self, data: &[u8], addr: u64) -> (res: Result<(), GuestMemoryError>)
        ensures
            guest_bytes(final(self).mem) == store(guest_bytes(old(self).mem), addr as int, data@),
            res is Ok <==> has_room(guest_bytes(old(self).mem), addr as int, data@),
            keeps_mapping(*old(self), *final(self)),
    {
        self.mem.write_slice(data, GuestAddress(addr))
    }

    /// Calls `Bytes::read_slice` of vm-memory. The bytes are copied in address
    /// order up to the end of the memory, and the call fails if some of `data`
    /// is left over; an empty slice is read anywhere.
    #[verifier::external_body]
    fn raw_read_slice(&self, data: &mut [u8], addr: u64) -> (res: Result<(), GuestMemoryError>)
        ensures
            final(data)@ == fetch(guest_bytes(self.mem), addr as int, old(data)@),
            res is Ok <==> has_room(guest_bytes(self.mem), addr as int, old(data)@),
    {
        self.mem.read_slice(data, GuestAddress(addr))
    }

    /// Calls `GuestMemory::iter` of vm-memory and reads the first region's
    /// start, length and host address. A `GuestMemory` has one region, which
    /// starts at 0 and holds all its bytes. Where the host mapped it differs
    /// from run to run, so no value is claimed for the host address.
    #[verifier::external_body]
    fn raw_first_region(&self) -> (res: Option<(u64, u64, u64)>)
        ensures
            res is Some,
            res->Some_0.0 == 0,
            res->Some_0.1 == guest_bytes(self.mem).len(),
    {
        match vm_memory::GuestMemory::iter(&self.mem).next() {
            Some(region) => Some(
                (region.start_addr().raw_value(), region.len(), region.as_ptr() as u64),
            ),
            None => None,
        }
    }

    /// Writes `data` at guest address `addr`. Where it does not fit, the part
    /// that fits is written and the error is returned.
    pub fn write_slice(&mut self, data: &[u8], addr: u64) -> (res: Result<(), GuestMemoryError>)
        ensures
            final(self)@ == store(old(self)@, addr as int, data@),
            res is Ok <==> has_room(old(self)@, addr as int, data@),
            final(self)@.len() <= usize::MAX,
            keeps_mapping(*old(self), *final(self)),
    {
        proof {
            use_type_invariant(&*self);
        }
        self.raw_write_slice(data, addr)
    }

    /// Writes the eight little-endian bytes of `value` at guest address `addr`.
    pub fn write_u64(&mut self, value: u64, addr: u64) -> (res: Result<(), GuestMemoryError>)
        ensures
            final(self)@ == store(old(self)@, addr as int, u64_bytes(value)),
            res is Ok <==> addr + 8 <= old(self)@.len(),
            keeps_mapping(*old(self), *final(self)),
    {
        let bytes = encode_u64(value);
        self.write_slice(bytes.as_slice(), addr)
    }

    /// Reads into `data` what guest memory holds from address `addr` on. Where
    /// the memory ends before `data` does, the error is returned and the rest
    /// of `data` is left as it was.
    pub fn read_slice(&self, data: &mut [u8], addr: u64) -> (res: Result<(), GuestMemoryError>)
        ensures
            final(data)@ == fetch(self@, addr as int, old(data)@),
            res is Ok <==> has_room(self@, addr as int, old(data)@),
    {
        self.raw_read_slice(data, addr)
    }
}

/// Whether `addr` is the host address that vm-memory gives for the one region
/// of `guest_mem`.
pub closed spec fn mapped_at(guest_mem: GuestMemory, addr: u64) -> bool {
    call_ensures(
        GuestMemory::raw_first_region,
        (&guest_mem,),
        Some((0u64, guest_mem@.len() as u64, addr)),
    )
}

/// Whether the host has `after` where it had `before`: it is the same mapping,
/// whatever it holds now.
pub open spec fn keeps_mapping(before: GuestMemory, after: GuestMemory) -> bool {
    forall|host: u64| #[trigger] mapped_at(before, host) ==> mapped_at(after, host)
}

/// Whether `cause` is the error with which vm-memory failed to map `size`
/// bytes.
pub closed spec fn refused(size: usize, cause: FromRangesError) -> bool {
    call_ensures(map_anonymous, (size,), Err::<GuestMemoryMmap, FromRangesError>(cause))
}

/// Allocates `size` bytes of zeroed guest memory.
pub fn allocate(size: usize) -> (res: Result<GuestMemory, MemoryError>)
    ensures
        match res {
            Ok(mem) => mem@ == zeroed(size as nat) && size != 0,
            Err(e) => e matches MemoryError::Mmap(cause) && refused(size, cause),
        },
{
    let map = map_anonymous;
    match map(size) {
        Ok(mem) => Ok(GuestMemory { mem }),
        Err(e) => Err(MemoryError::Mmap(e)),
    }
}

/// Builds the guest's physical memory: `size_mib` MiB of zeroed RAM at guest
/// address 0, in one region without gaps.
pub fn build(size_mib: u64) -> (res: Result<GuestMemory, MemoryError>)
    ensures
        res is Err && res->Err_0 is SizeOverflow <==> size_mib * MIB > u64::MAX,
        res is Err && res->Err_0 is SizeExceedsUsize <==> usize::MAX < size_mib * MIB <= u64::MAX,
        res matches Ok(mem) ==> mem@ == zeroed((size_mib * MIB) as nat),
        res matches Ok(mem) ==> mem@.len() == size_mib * 0x10_0000,
        res matches Err(MemoryError::Mmap(cause)) ==> refused((size_mib * MIB) as usize, cause),
        res matches Err(e) ==> !(e is NoRegions),
        size_mib == 0 ==> res is Err,
{
    let size_bytes = match size_mib.checked_mul(MIB) {
        Some(bytes) => bytes,
        None => return Err(MemoryError::SizeOverflow),
    };
    if size_bytes > usize::MAX as u64 {
        return Err(MemoryError::SizeExceedsUsize);
    }
    allocate(size_bytes as usize)
}

/// Describes the guest memory for KVM: slot 0, ordinary RAM, all of it, at
/// guest address 0, and where the host has it.
pub fn register(guest_mem: &GuestMemory) -> (res: Result<MemoryRegion, MemoryError>)
    ensures
        res matches Ok(region) && {
            &&& region.slot == 0
            &&& region.flags == 0
            &&& region.guest_phys_addr == 0
            &&& region.memory_size == guest_mem@.len()
            &&& mapped_at(*guest_mem, region.userspace_addr)
        },
{
    let first_region = GuestMemory::raw_first_region;
    let (start, len, host) = match first_region(guest_mem) {
        Some(region) => region,
        None => return Err(MemoryError::NoRegions),
    };
    Ok(
        MemoryRegion {
            slot: 0,
            flags: 0,
            guest_phys_addr: start,
            memory_size: len,
            userspace_addr: host,
        },
    )
}

} // verus!
