use varmint::memory::{GuestMemory, MemError};

fn mapped(size: usize, base: u64) -> GuestMemory {
    let mut m = GuestMemory::new(size);
    m.map(base);
    m
}

#[test]
fn read_gives_back_what_was_written() {
    let mut m = mapped(64, 0x1000);
    m.write(0x1008, &[1, 2, 3, 4]).unwrap();
    assert_eq!(m.read(0x1008, 4).unwrap(), vec![1, 2, 3, 4]);
    assert_eq!(m.read(0x1004, 4).unwrap(), vec![0, 0, 0, 0]);
}

#[test]
fn unmapped_memory_refuses_access() {
    let m = GuestMemory::new(16);
    assert_eq!(m.read(0, 1), Err(MemError::Unmapped));
}

#[test]
fn access_past_the_end_is_refused() {
    let mut m = mapped(16, 0x1000);
    assert_eq!(m.read(0x100c, 8), Err(MemError::BadArgument));
    assert_eq!(m.read(0x0fff, 1), Err(MemError::BadArgument));
    assert_eq!(m.write(0x100f, &[1, 2]), Err(MemError::BadArgument));
    assert_eq!(m.read(0x1000, 16).unwrap(), vec![0; 16]);
}

#[test]
fn integers_are_little_endian() {
    let mut m = mapped(32, 0);
    m.write_u32(4, 0x1234_5678).unwrap();
    assert_eq!(m.read(4, 4).unwrap(), vec![0x78, 0x56, 0x34, 0x12]);
    assert_eq!(m.read_u16(4).unwrap(), 0x5678);
    assert_eq!(m.read_u32(4).unwrap(), 0x1234_5678);
    m.write_u16(8, 0xabcd).unwrap();
    assert_eq!(m.read_u64(4).unwrap(), 0x0000_abcd_1234_5678);
    assert_eq!(m.read_u32_at(0, 4), Some(0x1234_5678));
    assert_eq!(m.read_u32_at(u64::MAX, 4), None);
}
