use mm::{MmAllocator, MEM_POOL_SIZE};

#[test]
fn allocations_are_aligned_and_disjoint() {
    let mut a = MmAllocator::new(64);
    assert_eq!(a.allocate(3, 1), Some(0));
    assert_eq!(a.used(), 3);
    assert_eq!(a.allocate(8, 8), Some(8));
    assert_eq!(a.used(), 16);
    assert_eq!(a.allocate(4, 4), Some(16));
    assert_eq!(a.used(), 20);
}

#[test]
fn allocation_crossing_the_end_fails() {
    let mut a = MmAllocator::new(32);
    assert_eq!(a.allocate(10, 1), Some(0));
    assert_eq!(a.allocate(10, 1), Some(10));
    // 20 used: 13 more bytes would cross the end
    assert_eq!(a.allocate(13, 1), None);
    assert_eq!(a.used(), 20);
    // padding counts too: 12 bytes fit unaligned, not aligned to 16
    assert_eq!(a.allocate(12, 16), None);
    assert_eq!(a.allocate(12, 1), Some(20));
    assert_eq!(a.used(), 32);
    assert_eq!(a.allocate(1, 1), None);
    assert_eq!(a.allocate(0, 1), Some(32));
}

#[test]
fn release_reclaims_nothing() {
    let mut a = MmAllocator::new(16);
    let at = a.allocate(16, 1).unwrap();
    a.release(at, 16);
    assert_eq!(a.used(), 16);
    assert_eq!(a.allocate(1, 1), None);
}

#[test]
fn advance_computes_padded_ranges() {
    assert_eq!(MmAllocator::advance(5, 4, 4, 100), Some((8, 12)));
    assert_eq!(MmAllocator::advance(8, 4, 4, 100), Some((8, 12)));
    assert_eq!(MmAllocator::advance(97, 4, 4, 100), None);
    assert_eq!(MmAllocator::advance(usize::MAX - 1, 0, 4, usize::MAX), None);
    assert_eq!(MmAllocator::advance(0, usize::MAX, 1, usize::MAX), Some((0, usize::MAX)));
}

#[test]
fn default_pool_size() {
    let a = MmAllocator::new(MEM_POOL_SIZE);
    assert_eq!(a.capacity(), 256 * 10024);
    assert_eq!(a.used(), 0);
}
