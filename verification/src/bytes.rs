//! Little-endian encoding of integers, the byte order of the guest.

use vstd::prelude::*;

verus! {

/// The digit of `value` that stands for multiples of `weight` in base 256.
pub open spec fn digit(value: int, weight: int) -> u8 {
    (value / weight % 0x100) as u8
}

/// The four bytes of `value`, least significant first.
pub open spec fn u32_bytes(value: u32) -> Seq<u8> {
    seq![
        digit(value as int, 1),
        digit(value as int, 0x100),
        digit(value as int, 0x1_0000),
        digit(value as int, 0x100_0000),
    ]
}

/// The eight bytes of `value`, least significant first.
pub open spec fn u64_bytes(value: u64) -> Seq<u8> {
    u32_bytes((value % 0x1_0000_0000) as u32) + u32_bytes((value / 0x1_0000_0000) as u32)
}

/// The number that the four bytes of `mem` from `addr` on stand for.
#[verifier::opaque]
pub open spec fn u32_at(mem: Seq<u8>, addr: int) -> int {
    mem[addr] + 0x100 * mem[addr + 1] + 0x1_0000 * mem[addr + 2] + 0x100_0000 * mem[addr + 3]
}

/// The number that the eight bytes of `mem` from `addr` on stand for.
#[verifier::opaque]
pub open spec fn u64_at(mem: Seq<u8>, addr: int) -> int {
    u32_at(mem, addr) + 0x1_0000_0000 * u32_at(mem, addr + 4)
}

/// Bytes that hold the encoding of a 32-bit value at `addr` read back as it.
pub proof fn lemma_u32_round_trip(mem: Seq<u8>, addr: int, value: u32)
    requires
        forall|k: int| 0 <= k < 4 ==> mem[addr + k] == #[trigger] u32_bytes(value)[k],
    ensures
        u32_at(mem, addr) == value,
{
    reveal(u32_at);
    let bytes = u32_bytes(value);
    assert(mem[addr + 0] == bytes[0] && mem[addr + 1] == bytes[1]);
    assert(mem[addr + 2] == bytes[2] && mem[addr + 3] == bytes[3]);
}

/// Bytes that hold the encoding of a 64-bit value at `addr` read back as it.
pub proof fn lemma_u64_round_trip(mem: Seq<u8>, addr: int, value: u64)
    requires
        forall|k: int| 0 <= k < 8 ==> mem[addr + k] == #[trigger] u64_bytes(value)[k],
    ensures
        u64_at(mem, addr) == value,
{
    reveal(u64_at);
    let low = (value % 0x1_0000_0000) as u32;
    let high = (value / 0x1_0000_0000) as u32;
    assert forall|k: int| 0 <= k < 4 implies mem[addr + k] == #[trigger] u32_bytes(low)[k] by {
        assert(u64_bytes(value)[k] == u32_bytes(low)[k]);
    }
    assert forall|k: int| 0 <= k < 4 implies mem[addr + 4 + k] == #[trigger] u32_bytes(high)[k] by {
        assert(u64_bytes(value)[4 + k] == u32_bytes(high)[k]);
    }
    lemma_u32_round_trip(mem, addr, low);
    lemma_u32_round_trip(mem, addr + 4, high);
}

/// Four bytes stand for the number of which they are the base-256 digits, the
/// least significant one first.
pub proof fn law_u32_is_the_sum_of_its_bytes(value: u32)
    ensures
        u32_bytes(value).len() == 4,
        u32_bytes(value)[0] + 0x100 * u32_bytes(value)[1] + 0x1_0000 * u32_bytes(value)[2]
            + 0x100_0000 * u32_bytes(value)[3] == value,
{
    lemma_u32_round_trip(u32_bytes(value), 0, value);
    reveal(u32_at);
}

/// Eight bytes stand for the number of which they are the base-256 digits, the
/// least significant one first.
pub proof fn law_u64_is_the_sum_of_its_bytes(value: u64)
    ensures
        u64_bytes(value).len() == 8,
        ({
            let b = u64_bytes(value);
            b[0] + 0x100 * b[1] + 0x1_0000 * b[2] + 0x100_0000 * b[3] + 0x1_0000_0000 * b[4]
                + 0x100_0000_0000 * b[5] + 0x1_0000_0000_0000 * b[6] + 0x100_0000_0000_0000 * b[7]
                == value
        }),
{
    lemma_u64_round_trip(u64_bytes(value), 0, value);
    reveal(u64_at);
    reveal(u32_at);
}

/// A number is read from memory as the sum of its bytes, each worth 256 times
/// the one before it.
pub proof fn law_numbers_are_read_little_endian(mem: Seq<u8>, addr: int)
    ensures
        u32_at(mem, addr) == mem[addr] + 0x100 * mem[addr + 1] + 0x1_0000 * mem[addr + 2]
            + 0x100_0000 * mem[addr + 3],
        u64_at(mem, addr) == mem[addr] + 0x100 * mem[addr + 1] + 0x1_0000 * mem[addr + 2]
            + 0x100_0000 * mem[addr + 3] + 0x1_0000_0000 * mem[addr + 4] + 0x100_0000_0000
            * mem[addr + 5] + 0x1_0000_0000_0000 * mem[addr + 6] + 0x100_0000_0000_0000 * mem[addr
            + 7],
{
    reveal(u64_at);
    reveal(u32_at);
}

/// The little-endian bytes of `value`.
pub fn encode_u64(value: u64) -> (bytes: [u8; 8])
    ensures
        bytes@ == u64_bytes(value),
{
    let low: u32 = (value % 0x1_0000_0000) as u32;
    let high: u32 = (value / 0x1_0000_0000) as u32;
    [
        (low % 0x100) as u8,
        (low / 0x100 % 0x100) as u8,
        (low / 0x1_0000 % 0x100) as u8,
        (low / 0x100_0000 % 0x100) as u8,
        (high % 0x100) as u8,
        (high / 0x100 % 0x100) as u8,
        (high / 0x1_0000 % 0x100) as u8,
        (high / 0x100_0000 % 0x100) as u8,
    ]
}

} // verus!
