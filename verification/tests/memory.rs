use naos_linux::bytes::encode_u64;
use naos_linux::memory::{allocate, build, register, MemoryError, MIB};

#[test]
fn built_memory_is_zeroed_and_has_its_size() {
    let mut mem = build(2).unwrap();
    let mut all = vec![1_u8; 2 * MIB as usize];
    mem.read_slice(&mut all, 0).unwrap();
    assert!(all.iter().all(|&byte| byte == 0));
    // The last byte is there, the next one is not.
    mem.write_slice(&[9], 2 * MIB - 1).unwrap();
    assert!(mem.write_slice(&[9], 2 * MIB).is_err());
}

#[test]
fn sizes_that_cannot_be_are_refused() {
    let err = build(u64::MAX / MIB + 1).unwrap_err();
    assert!(matches!(err, MemoryError::SizeOverflow));
    assert_eq!(err.message(), "Memory size overflow");
    let err = build(u64::MAX).unwrap_err();
    assert!(matches!(err, MemoryError::SizeOverflow));

    let err = build(0).unwrap_err();
    assert!(matches!(err, MemoryError::Mmap(_)));
    assert_eq!(err.message(), "Failed to create guest memory via mmap");
    // The largest size in MiB is more than any host maps.
    assert!(matches!(build(u64::MAX / MIB), Err(MemoryError::Mmap(_))));
    assert!(matches!(allocate(0), Err(MemoryError::Mmap(_))));

    assert_eq!(
        MemoryError::SizeExceedsUsize.message(),
        "Memory size exceeds usize"
    );
    assert_eq!(
        MemoryError::NoRegions.message(),
        "Guest memory has no regions"
    );
}

#[test]
fn memory_is_registered_whole() {
    let mem = build(3).unwrap();
    let region = register(&mem).unwrap();
    assert_eq!(region.slot, 0);
    assert_eq!(region.flags, 0);
    assert_eq!(region.guest_phys_addr, 0);
    assert_eq!(region.memory_size, 3 * MIB);
    assert_ne!(region.userspace_addr, 0);
    assert_eq!(region.userspace_addr % 0x1000, 0);
    // Two memories lie apart, and one stays where it is.
    let other = register(&build(3).unwrap()).unwrap();
    assert!(region.userspace_addr.abs_diff(other.userspace_addr) >= 3 * MIB);
    assert_eq!(register(&mem).unwrap().userspace_addr, region.userspace_addr);
    let mut mem = mem;
    mem.write_slice(b"written", 7).unwrap();
    mem.write_slice(b"past the end", 3 * MIB - 4).unwrap_err();
    assert_eq!(register(&mem).unwrap().userspace_addr, region.userspace_addr);
}

#[test]
fn a_read_gives_back_a_write() {
    let mut mem = allocate(16).unwrap();
    mem.write_slice(b"guest", 3).unwrap();
    let mut all = [0xFF_u8; 16];
    mem.read_slice(&mut all, 0).unwrap();
    assert_eq!(&all, b"\0\0\0guest\0\0\0\0\0\0\0\0");
}

#[test]
fn transfers_stop_at_the_end_of_memory() {
    let mut mem = allocate(16).unwrap();
    assert!(mem.write_slice(b"abcd", 14).is_err());
    let mut buf = *b"....";
    assert!(mem.read_slice(&mut buf, 14).is_err());
    assert_eq!(&buf, b"ab..");
    assert!(mem.write_slice(b"x", 16).is_err());
    assert!(mem.write_slice(b"x", u64::MAX).is_err());
    // Nothing can be written anywhere.
    mem.write_slice(b"", u64::MAX).unwrap();
    mem.read_slice(&mut [], 17).unwrap();
}

#[test]
fn adjacent_writes_are_one_write() {
    let mut first = allocate(8).unwrap();
    first.write_slice(b"abc", 1).unwrap();
    first.write_slice(b"def", 4).unwrap();
    let mut second = allocate(8).unwrap();
    second.write_slice(b"abcdef", 1).unwrap();
    let (mut a, mut b) = ([0; 8], [0; 8]);
    first.read_slice(&mut a, 0).unwrap();
    second.read_slice(&mut b, 0).unwrap();
    assert_eq!(a, b);
}

#[test]
fn numbers_are_little_endian() {
    assert_eq!(
        encode_u64(0x0123_4567_89AB_CDEF),
        [0xEF, 0xCD, 0xAB, 0x89, 0x67, 0x45, 0x23, 0x01]
    );
    assert_eq!(encode_u64(u64::MAX), [0xFF; 8]);
    let mut mem = allocate(8).unwrap();
    mem.write_u64(0x1122_3344_5566_7788, 0).unwrap();
    let mut buf = [0; 8];
    mem.read_slice(&mut buf, 0).unwrap();
    assert_eq!(u64::from_le_bytes(buf), 0x1122_3344_5566_7788);
    assert!(mem.write_u64(0, 1).is_err());
}
