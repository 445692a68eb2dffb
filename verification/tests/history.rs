use ledger::history::RingBuffer;

fn contents(buffer: &RingBuffer<u32>) -> Vec<u32> {
    buffer.snapshot().into_iter().map(|item| *item).collect()
}

#[test]
fn new_buffer_is_empty() {
    let buffer: RingBuffer<u32> = RingBuffer::with_capacity(3);
    assert_eq!(buffer.len(), 0);
    assert_eq!(buffer.capacity(), 3);
    assert_eq!(contents(&buffer), Vec::<u32>::new());
    assert_eq!(buffer.get(0), None);
}

#[test]
fn push_puts_the_newest_in_front() {
    let mut buffer: RingBuffer<u32> = RingBuffer::with_capacity(3);
    buffer.push(1);
    buffer.push(2);
    assert_eq!(contents(&buffer), vec![2, 1]);
    assert_eq!(buffer.len(), 2);
    assert_eq!(buffer.get(0), Some(&2));
    assert_eq!(buffer.get(1), Some(&1));
    assert_eq!(buffer.get(2), None);
}

#[test]
fn full_buffer_drops_the_oldest() {
    let mut buffer: RingBuffer<u32> = RingBuffer::with_capacity(3);
    buffer.push(1);
    buffer.push(2);
    buffer.push(3);
    assert_eq!(contents(&buffer), vec![3, 2, 1]);
    buffer.push(4);
    assert_eq!(contents(&buffer), vec![4, 3, 2]);
    buffer.push(5);
    assert_eq!(contents(&buffer), vec![5, 4, 3]);
    assert_eq!(buffer.len(), 3);
    assert_eq!(buffer.capacity(), 3);
}

#[test]
fn buffer_of_one_keeps_the_last() {
    let mut buffer: RingBuffer<u32> = RingBuffer::with_capacity(1);
    buffer.push(7);
    buffer.push(8);
    assert_eq!(contents(&buffer), vec![8]);
}

#[test]
fn buffer_of_none_keeps_nothing() {
    let mut buffer: RingBuffer<u32> = RingBuffer::with_capacity(0);
    buffer.push(7);
    buffer.push(8);
    assert_eq!(buffer.len(), 0);
    assert_eq!(contents(&buffer), Vec::<u32>::new());
}

#[test]
fn default_buffer_keeps_ten() {
    let mut buffer: RingBuffer<u32> = RingBuffer::default();
    assert_eq!(buffer.capacity(), 10);
    let mut next: u32 = 1;
    while next <= 10 {
        buffer.push(next);
        next += 1;
    }
    assert_eq!(contents(&buffer), vec![10, 9, 8, 7, 6, 5, 4, 3, 2, 1]);
    buffer.push(11);
    buffer.push(12);
    assert_eq!(contents(&buffer), vec![12, 11, 10, 9, 8, 7, 6, 5, 4, 3]);
    assert_eq!(buffer.len(), 10);
}

#[test]
fn many_pushes_keep_the_most_recent_in_order() {
    let mut buffer: RingBuffer<u32> = RingBuffer::with_capacity(4);
    let mut next: u32 = 0;
    while next < 1000 {
        buffer.push(next);
        next += 1;
    }
    assert_eq!(contents(&buffer), vec![999, 998, 997, 996]);
}
