use spacetimedb_lib::zeroizing::{ZeroizingBuffer, ZeroizingVec, MAX_BUF_SIZE};
use zeroize::ZeroizeOnDrop;

#[test]
fn test_has_zeroize_on_drop() {
    const fn assert_zeroize_on_drop<T: ZeroizeOnDrop>() {}
    assert_zeroize_on_drop::<ZeroizingVec>();
    assert_zeroize_on_drop::<ZeroizingBuffer>();
}

#[test]
fn collected_bytes_leave_unharmed() {
    let mut data = ZeroizingVec::new(4);
    assert_eq!(data.len(), 0);
    data.as_mut_vec().extend_from_slice(&[1, 2, 3, 4, 5]);
    assert_eq!(data.len(), 5);
    assert_eq!(data.into_inner(), vec![1, 2, 3, 4, 5]);
}

#[test]
fn overwritten_bytes_are_zeros() {
    let mut data = ZeroizingVec::new(4);
    data.as_mut_vec().extend_from_slice(&[1, 2, 3, 4, 5]);
    data.overwrite();
    assert_eq!(data.into_inner(), vec![0; 5]);
}

#[test]
fn wiped_bytes_are_gone() {
    let mut data = ZeroizingVec::new(4);
    data.as_mut_vec().extend_from_slice(&[1, 2, 3, 4, 5]);
    data.wipe();
    assert_eq!(data.len(), 0);
    assert_eq!(data.into_inner(), Vec::<u8>::new());
}

#[test]
fn a_buffer_starts_and_ends_with_zeros() {
    let mut buffer = ZeroizingBuffer::new();
    assert_eq!(buffer.as_slice().len(), MAX_BUF_SIZE);
    assert!(buffer.as_slice().iter().all(|b| *b == 0));
    buffer.as_mut_slice()[0] = 7;
    buffer.as_mut_slice()[MAX_BUF_SIZE - 1] = 9;
    assert_eq!(buffer.as_slice()[0], 7);
    buffer.wipe();
    assert_eq!(buffer.as_slice().len(), MAX_BUF_SIZE);
    assert!(buffer.as_slice().iter().all(|b| *b == 0));
}
