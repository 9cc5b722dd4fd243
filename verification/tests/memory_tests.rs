use pdcn_common::memory::{LinearMemory, MemoryError};

#[test]
fn new_memory_is_zeroed() {
    let m = LinearMemory::new(16);
    assert_eq!(m.len(), 16);
    assert_eq!(m.as_bytes(), &[0u8; 16][..]);
}

#[test]
fn get_inside_returns_region() {
    let m = LinearMemory::from_bytes(vec![1, 2, 3, 4, 5, 6]);
    assert_eq!(m.get(1, 3), Ok(vec![2, 3, 4]));
    assert_eq!(m.get(6, 0), Ok(vec![]));
    assert_eq!(m.get(0, 6), Ok(vec![1, 2, 3, 4, 5, 6]));
}

#[test]
fn get_outside_fails() {
    let m = LinearMemory::from_bytes(vec![1, 2, 3, 4, 5, 6]);
    assert_eq!(
        m.get(4, 3),
        Err(MemoryError { offset: 4, size: 3, memory_len: 6 })
    );
    assert_eq!(
        m.get(7, 0),
        Err(MemoryError { offset: 7, size: 0, memory_len: 6 })
    );
    assert_eq!(
        m.get(1, usize::MAX),
        Err(MemoryError { offset: 1, size: usize::MAX, memory_len: 6 })
    );
}

#[test]
fn set_then_get_reads_back() {
    let mut m = LinearMemory::new(8);
    assert_eq!(m.set(3, &[9, 8, 7]), Ok(()));
    assert_eq!(m.get(3, 3), Ok(vec![9, 8, 7]));
    assert_eq!(m.into_bytes(), vec![0, 0, 0, 9, 8, 7, 0, 0]);
}

#[test]
fn set_outside_fails_and_leaves_memory() {
    let mut m = LinearMemory::from_bytes(vec![1, 2, 3, 4]);
    assert_eq!(
        m.set(2, &[5, 5, 5]),
        Err(MemoryError { offset: 2, size: 3, memory_len: 4 })
    );
    assert_eq!(m.as_bytes(), &[1, 2, 3, 4][..]);
}
