use robot_comm::ringbuffer::RingBuffer;

#[test]
pub fn test() {
    let mut bruh = RingBuffer::with_maximum_capacity(32);

    let _ = bruh.write_tracked(&[1, 2, 3, 4, 5, 6, 7, 8, 9, 10]);
    println!("{:02?}", bruh.contents_vec());
    let _ = bruh.write_tracked(&[11, 12, 13, 14, 15, 16, 17, 18, 19, 20]);
    println!("{:02?}", bruh.contents_vec());
    let _ = bruh.write_tracked(&[21, 22, 23, 24, 25, 26, 27, 28, 29, 30]);
    println!("{:02?}", bruh.contents_vec());
    bruh.write_combined_tracked(&[[1, 2, 3, 4, 5, 6, 7, 8].as_slice(); 3])
        .unwrap();
    println!("{:02?}", bruh.contents_vec());
    let _ = bruh.write_tracked(&[0xFF; 33]);
    println!("{:02?}", bruh.contents_vec());
    let _ = bruh.write_tracked(&[31, 32, 33, 34, 35, 36, 37, 38, 39, 40]);
    println!("{:02?}", bruh.contents_vec());
    let _ = bruh.write_tracked(&[41, 42, 43, 44, 45, 46, 47, 48, 49, 50]);
    println!("{:02?}", bruh.contents_vec());
    let _ = bruh.write_tracked(&[51, 52, 53, 54, 55, 56, 57, 58, 59, 60]);
    println!("{:02?}", bruh.contents_vec());
    let _ = bruh.write_tracked(&[61, 62]);
    println!("{:02?}", bruh.contents_vec());

    bruh.take(12);
    println!("{:?}", bruh.contents_vec());

    let _ = bruh.write_tracked(&[63, 64, 255]);
    println!("{:?}", bruh.contents_vec());
}

#[test]
fn ringbuffer_write_then_take_frame() {
    let mut rb = RingBuffer::with_maximum_capacity(64);
    rb.write_tracked(&[7, 8, 9]).unwrap();
    assert_eq!(rb.contents_vec(), vec![0, 3, 7, 8, 9]);
    let mut out = [0u8; 16];
    let n = rb.take_tracked(&mut out).unwrap();
    assert_eq!(n, 5);
    assert_eq!(&out[..5], &[0, 3, 7, 8, 9]);
    assert!(rb.is_empty());
}

#[test]
fn ringbuffer_too_large_frame_is_refused() {
    let mut rb = RingBuffer::with_maximum_capacity(8);
    assert!(rb.write_tracked(&[1, 2, 3, 4, 5, 6, 7]).is_err());
    assert_eq!(rb.len(), 0);
}

#[test]
fn ringbuffer_oldest_bytes_are_dropped_when_full() {
    let mut rb = RingBuffer::with_maximum_capacity(4);
    rb.write(&[1, 2, 3]).unwrap();
    rb.write(&[4, 5]).unwrap();
    assert_eq!(rb.contents_vec(), vec![2, 3, 4, 5]);
    assert_eq!(rb.current_capacity(), 4);
    assert_eq!(rb.max_capacity(), 4);
}

#[test]
fn ringbuffer_clear_empties() {
    let mut rb = RingBuffer::with_maximum_capacity(16);
    rb.write(&[1, 2, 3]).unwrap();
    rb.clear();
    assert!(rb.is_empty());
    assert_eq!(rb.contents_vec(), Vec::<u8>::new());
}

#[test]
fn ring_with_maximum_starts_empty() {
    let rb = RingBuffer::with_maximum_capacity(8);
    assert_eq!(rb.max_capacity(), 8);
    assert_eq!(rb.len(), 0);
    assert!(rb.is_empty());
    assert_eq!(rb.current_capacity(), 0);
}
