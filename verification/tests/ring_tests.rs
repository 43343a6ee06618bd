use btop_gui::ring::RingBuffer;

#[test]
fn new_buffer_is_empty() {
    let b: RingBuffer<f64> = RingBuffer::new(3);
    assert_eq!(b.len(), 0);
    assert_eq!(b.capacity(), 3);
    assert!(b.as_slice().is_empty());
    assert_eq!(b.last(), 0.0);
    let c: RingBuffer<u64> = RingBuffer::new(0);
    assert_eq!(c.last(), 0);
}

#[test]
fn push_keeps_latest_samples() {
    let mut b = RingBuffer::new(3);
    for v in [1.0, 2.0, 3.0, 4.0, 5.0] {
        b.push(v);
    }
    assert_eq!(b.as_slice(), vec![3.0, 4.0, 5.0]);
    assert_eq!(b.last(), 5.0);
    assert_eq!(b.len(), 3);
}

#[test]
fn values_iterate_oldest_first() {
    let mut b = RingBuffer::new(2);
    b.push(10u32);
    b.push(20);
    b.push(30);
    let v: Vec<u32> = b.values().copied().collect();
    assert_eq!(v, vec![20, 30]);
}

#[test]
fn capacity_zero_keeps_one_sample() {
    let mut b = RingBuffer::new(0);
    b.push(1.5);
    assert_eq!(b.as_slice(), vec![1.5]);
    b.push(2.5);
    assert_eq!(b.as_slice(), vec![2.5]);
    assert_eq!(b.len(), 1);
}

#[test]
fn holds_window_for_every_prefix() {
    let cap = 4;
    let mut b = RingBuffer::new(cap);
    let mut all: Vec<u32> = Vec::new();
    for v in 0..20u32 {
        b.push(v);
        all.push(v);
        let start = all.len().saturating_sub(cap);
        assert_eq!(b.as_slice(), all[start..].to_vec());
    }
}

#[test]
fn clone_and_continue_from_copy_history() {
    let mut b = RingBuffer::new(3);
    b.push(1.0);
    b.push(2.0);
    let c = b.clone();
    assert_eq!(c.as_slice(), vec![1.0, 2.0]);
    assert_eq!(c.capacity(), 3);
    let mut carried = RingBuffer::continue_from(Some(&b), 10);
    carried.push(3.0);
    carried.push(4.0);
    assert_eq!(carried.as_slice(), vec![2.0, 3.0, 4.0]);
    let fresh: RingBuffer<f64> = RingBuffer::continue_from(None, 10);
    assert_eq!(fresh.capacity(), 10);
    assert_eq!(fresh.len(), 0);
    assert_eq!(b.as_slice(), vec![1.0, 2.0]);
}
