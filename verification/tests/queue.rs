use server::BoundedQueue;

#[test]
fn new_queue_is_empty() {
    let q: BoundedQueue<u32> = BoundedQueue::new(3);
    assert_eq!(q.len(), 0);
    assert_eq!(q.capacity(), 3);
    assert!(q.is_empty());
    assert!(!q.is_full());
}

#[test]
fn queue_hands_out_in_order_of_arrival() {
    let mut q: BoundedQueue<&str> = BoundedQueue::new(3);
    assert_eq!(q.try_send("a"), Ok(()));
    assert_eq!(q.try_send("b"), Ok(()));
    assert_eq!(q.try_send("c"), Ok(()));
    assert_eq!(q.try_recv(), Some("a"));
    assert_eq!(q.try_recv(), Some("b"));
    assert_eq!(q.try_send("d"), Ok(()));
    assert_eq!(q.try_recv(), Some("c"));
    assert_eq!(q.try_recv(), Some("d"));
    assert_eq!(q.try_recv(), None);
}

#[test]
fn full_queue_hands_the_item_back() {
    let mut q: BoundedQueue<u8> = BoundedQueue::new(2);
    assert_eq!(q.try_send(1), Ok(()));
    assert!(!q.is_full());
    assert_eq!(q.try_send(2), Ok(()));
    assert!(q.is_full());
    assert_eq!(q.len(), 2);
    assert_eq!(q.try_send(3), Err(3));
    assert_eq!(q.len(), 2);
    assert_eq!(q.try_recv(), Some(1));
    assert_eq!(q.try_send(4), Ok(()));
    assert_eq!(q.try_recv(), Some(2));
    assert_eq!(q.try_recv(), Some(4));
    assert!(q.is_empty());
}

#[test]
fn empty_queue_gives_nothing() {
    let mut q: BoundedQueue<u8> = BoundedQueue::new(1);
    assert_eq!(q.try_recv(), None);
    assert_eq!(q.try_recv(), None);
    assert_eq!(q.len(), 0);
}

#[test]
fn queue_without_capacity_refuses_everything() {
    let mut q: BoundedQueue<u8> = BoundedQueue::new(0);
    assert!(q.is_full());
    assert!(q.is_empty());
    assert_eq!(q.try_send(9), Err(9));
    assert_eq!(q.try_recv(), None);
}
