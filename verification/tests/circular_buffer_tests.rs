use heapless::CircularBuffer;

#[test]
fn new_is_empty() {
    let buf = CircularBuffer::new(vec![0u8; 8]);
    assert!(buf.is_empty());
    assert_eq!(buf.len(), 0);
    assert_eq!(buf.capacity(), 8);
    assert_eq!(buf.index(), 0);
    assert_eq!(buf.as_slice(), &[]);
}

#[test]
fn from_array_starts_full() {
    let buf = CircularBuffer::from_array(vec![1, 2, 3]);
    assert!(buf.is_full());
    assert_eq!(buf.len(), 3);
    assert_eq!(buf.capacity(), 3);
    assert_eq!(buf.index(), 0);
    assert_eq!(buf.as_slice(), &[1, 2, 3]);
}

#[test]
fn push_fills_then_wraps() {
    let mut buf = CircularBuffer::new(vec![0i32; 3]);

    buf.push(1);
    assert_eq!(buf.as_slice(), &[1]);
    assert_eq!(buf.index(), 1);

    buf.push(2);
    buf.push(3);
    assert!(buf.is_full());
    assert_eq!(buf.as_slice(), &[1, 2, 3]);
    assert_eq!(buf.index(), 0);

    // overwrites the oldest value; storage order is not rotated
    buf.push(4);
    assert_eq!(buf.len(), 3);
    assert_eq!(buf.as_slice(), &[4, 2, 3]);
    assert_eq!(buf.index(), 1);
}

#[test]
fn retains_most_recent_values() {
    let capacity: usize = 3;
    let mut buf = CircularBuffer::new(vec![0i32; capacity]);

    // push capacity + 2 values
    for i in 1..=5 {
        buf.push(i);
        assert!(buf.len() <= capacity);
    }
    assert_eq!(buf.len(), capacity);

    // content check, independent of storage order: exactly the 3 most
    // recently pushed values remain
    let mut contents: Vec<i32> = buf.as_slice().to_vec();
    contents.sort();
    assert_eq!(contents, vec![3, 4, 5]);
}

#[test]
fn overwrite_keeps_length_at_capacity() {
    let mut buf = CircularBuffer::from_array(vec![10, 20]);
    buf.push(30);
    assert_eq!(buf.len(), 2);
    assert_eq!(buf.as_slice(), &[30, 20]);
    buf.push(40);
    assert_eq!(buf.len(), 2);
    assert_eq!(buf.as_slice(), &[30, 40]);
    buf.push(50);
    assert_eq!(buf.as_slice(), &[50, 40]);
}
