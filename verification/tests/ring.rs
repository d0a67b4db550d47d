use tarnos::kcore::ring::RingBuffer;

#[test]
fn empty_pop_returns_none() {
    let mut q: RingBuffer<u32, 4> = RingBuffer::new();
    assert!(q.is_empty());
    assert_eq!(q.pop(), None);
}

#[test]
fn fifo_order_is_preserved() {
    let mut q: RingBuffer<u32, 4> = RingBuffer::new();
    assert!(q.push(1));
    assert!(q.push(2));
    assert!(q.push(3));
    assert_eq!(q.pop(), Some(1));
    assert_eq!(q.pop(), Some(2));
    assert_eq!(q.pop(), Some(3));
    assert_eq!(q.pop(), None);
}

#[test]
fn push_fails_when_full_without_corrupting_state() {
    let mut q: RingBuffer<u32, 2> = RingBuffer::new();
    assert!(q.push(1));
    assert!(q.push(2));
    assert!(q.is_full());
    assert!(!q.push(3), "push into a full buffer must fail");
    assert_eq!(q.pop(), Some(1));
    assert_eq!(q.pop(), Some(2));
    assert_eq!(q.pop(), None);
}

#[test]
fn wraps_around_the_backing_array() {
    let mut q: RingBuffer<u32, 3> = RingBuffer::new();
    for round in 0..5u32 {
        assert!(q.push(round * 10));
        assert!(q.push(round * 10 + 1));
        assert_eq!(q.pop(), Some(round * 10));
        assert_eq!(q.pop(), Some(round * 10 + 1));
        assert!(q.is_empty());
    }
}

#[test]
fn len_tracks_pushes_and_pops() {
    let mut q: RingBuffer<u32, 4> = RingBuffer::new();
    assert_eq!(q.len(), 0);
    q.push(1);
    q.push(2);
    assert_eq!(q.len(), 2);
    q.pop();
    assert_eq!(q.len(), 1);
}
