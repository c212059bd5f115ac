use explorer::collections::{FifoQueue, HasQueue, LifoQueue};
use explorer::error::QueueError;

#[test]
fn fifo_rejects_a_push_beyond_capacity() {
    let mut q: FifoQueue<i32> = FifoQueue::new(2);
    assert_eq!(q.push(10), Ok(()));
    assert_eq!(q.push(20), Ok(()));
    assert_eq!(q.push(30), Err(QueueError::QueueFull));
    assert_eq!(q.len(), 2);
}

#[test]
fn lifo_pops_in_reverse_of_arrival() {
    let mut q: LifoQueue<i32> = LifoQueue::new(3);
    assert_eq!(q.push(1), Ok(()));
    assert_eq!(q.push(2), Ok(()));
    assert_eq!(q.push(3), Ok(()));
    assert_eq!(q.pop(), Ok(3));
    assert_eq!(q.pop(), Ok(2));
    assert_eq!(q.pop(), Ok(1));
    assert_eq!(q.pop(), Err(QueueError::QueueEmpty));
}

#[test]
fn fifo_pop_serves_the_oldest_and_leaves_it() {
    let mut q: FifoQueue<i32> = FifoQueue::new(3);
    assert_eq!(q.push(7), Ok(()));
    assert_eq!(q.push(8), Ok(()));
    assert_eq!(q.pop(), Ok(7));
    assert_eq!(q.len(), 2);
    assert_eq!(q.pop(), Ok(7));
    assert_eq!(q.len(), 2);
}

#[test]
fn fifo_pop_of_empty_queue_fails() {
    let mut q: FifoQueue<i32> = FifoQueue::new(1);
    assert_eq!(q.pop(), Err(QueueError::QueueEmpty));
    assert_eq!(q.len(), 0);
}

#[test]
fn lifo_rejects_a_push_beyond_capacity() {
    let mut q: LifoQueue<String> = LifoQueue::new(1);
    assert_eq!(q.push("a".to_string()), Ok(()));
    assert_eq!(q.push("b".to_string()), Err(QueueError::QueueFull));
    assert_eq!(q.len(), 1);
    assert_eq!(q.pop(), Ok("a".to_string()));
    assert_eq!(q.len(), 0);
}

#[test]
fn a_full_queue_is_left_unchanged_by_a_failed_push() {
    let mut q: LifoQueue<i32> = LifoQueue::new(2);
    assert_eq!(q.push(1), Ok(()));
    assert_eq!(q.push(2), Ok(()));
    assert_eq!(q.push(3), Err(QueueError::QueueFull));
    assert_eq!(q.pop(), Ok(2));
    assert_eq!(q.pop(), Ok(1));
}

#[test]
fn zero_capacity_queue_is_always_full_and_empty() {
    let mut fifo: FifoQueue<u8> = FifoQueue::new(0);
    assert_eq!(fifo.push(1), Err(QueueError::QueueFull));
    assert_eq!(fifo.pop(), Err(QueueError::QueueEmpty));
    assert_eq!(fifo.len(), 0);
    let mut lifo: LifoQueue<u8> = LifoQueue::new(0);
    assert_eq!(lifo.push(1), Err(QueueError::QueueFull));
    assert_eq!(lifo.pop(), Err(QueueError::QueueEmpty));
    assert_eq!(lifo.len(), 0);
}

#[test]
fn clear_empties_a_queue_and_fails_on_an_empty_one() {
    let mut fifo: FifoQueue<i32> = FifoQueue::new(4);
    assert_eq!(fifo.clear(), Err(QueueError::QueueEmpty));
    assert_eq!(fifo.push(1), Ok(()));
    assert_eq!(fifo.push(2), Ok(()));
    assert_eq!(fifo.clear(), Ok(()));
    assert_eq!(fifo.len(), 0);
    assert_eq!(fifo.clear(), Err(QueueError::QueueEmpty));

    let mut lifo: LifoQueue<i32> = LifoQueue::new(4);
    assert_eq!(lifo.clear(), Err(QueueError::QueueEmpty));
    assert_eq!(lifo.push(1), Ok(()));
    assert_eq!(lifo.clear(), Ok(()));
    assert_eq!(lifo.len(), 0);
    assert_eq!(lifo.pop(), Err(QueueError::QueueEmpty));
}

#[test]
fn capacity_is_the_one_given_at_construction() {
    let mut fifo: FifoQueue<i32> = FifoQueue::new(5);
    assert_eq!(fifo.capacity(), 5);
    assert_eq!(fifo.push(1), Ok(()));
    assert_eq!(fifo.capacity(), 5);
    let lifo: LifoQueue<i32> = LifoQueue::new(9);
    assert_eq!(lifo.capacity(), 9);
}

#[test]
fn length_follows_each_operation() {
    let mut q: LifoQueue<i32> = LifoQueue::new(3);
    assert_eq!(q.len(), 0);
    assert_eq!(q.push(1), Ok(()));
    assert_eq!(q.len(), 1);
    assert_eq!(q.push(2), Ok(()));
    assert_eq!(q.len(), 2);
    assert_eq!(q.pop(), Ok(2));
    assert_eq!(q.len(), 1);
    assert_eq!(q.clear(), Ok(()));
    assert_eq!(q.len(), 0);
}

#[test]
fn length_never_exceeds_capacity() {
    let mut q: FifoQueue<usize> = FifoQueue::new(3);
    for i in 0..10 {
        let _ = q.push(i);
        assert!(q.len() <= q.capacity());
    }
    assert_eq!(q.len(), 3);
    assert_eq!(q.pop(), Ok(0));
}
