use bumper_core::ring_buffer::RingBuffer;
use bumper_core::ring_buffer::RingBufferError;

#[test]
fn create_ring_buffer() {
    let buffer: RingBuffer<usize, 2> = RingBuffer::new();
    assert_eq!(*buffer.index(0), 0);
    assert_eq!(*buffer.front().unwrap(), 0);
}

#[test]
fn ring_buffer_iterator() {
    let mut buffer: RingBuffer<usize, 5> = RingBuffer::new();

    buffer.push(4).unwrap();
    buffer.push(3).unwrap();
    buffer.push(2).unwrap();
    buffer.push(1).unwrap();

    let mut iterator = buffer.iter();
    assert_eq!(iterator.next().unwrap(), &4);
    assert_eq!(iterator.next().unwrap(), &3);
    assert_eq!(iterator.next().unwrap(), &2);
    assert_eq!(iterator.next().unwrap(), &1);
}

#[test]
fn push_reports_a_full_buffer() {
    let mut buffer: RingBuffer<u8, 3> = RingBuffer::new();
    buffer.push(10).unwrap();
    buffer.push(20).unwrap();
    assert_eq!(buffer.push(30), Err(RingBufferError::Full));
    assert_eq!(buffer.len(), 2);
}

#[test]
fn pop_reports_an_empty_buffer() {
    let mut buffer: RingBuffer<u8, 3> = RingBuffer::new();
    assert_eq!(buffer.pop(), Err(RingBufferError::Empty));
    buffer.push(10).unwrap();
    assert_eq!(buffer.pop(), Ok(()));
    assert_eq!(buffer.pop(), Err(RingBufferError::Empty));
}

#[test]
fn buffer_wraps_around_its_storage() {
    let mut buffer: RingBuffer<u8, 3> = RingBuffer::new();
    for round in 0..5u8 {
        buffer.push(round).unwrap();
        buffer.push(round + 100).unwrap();
        assert_eq!(*buffer.front().unwrap(), round);
        buffer.pop().unwrap();
        assert_eq!(*buffer.front().unwrap(), round + 100);
        buffer.pop().unwrap();
        assert!(buffer.is_empty());
    }
}

#[test]
fn iterator_stops_after_the_last_element() {
    let mut buffer: RingBuffer<u8, 4> = RingBuffer::new();
    buffer.push(1).unwrap();
    buffer.push(2).unwrap();
    let mut iterator = buffer.iter();
    assert_eq!(iterator.next(), Some(&1));
    assert_eq!(iterator.next(), Some(&2));
    assert_eq!(iterator.next(), None);
    assert_eq!(iterator.next(), None);
}
