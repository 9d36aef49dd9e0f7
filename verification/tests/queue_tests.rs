use vibe_review::queue::{fifo_round_trip, relay, Error, Queue};

#[test]
fn push_and_pop_single_item() {
    let mut queue: Queue<i32> = Queue::new(3);

    queue.push(42).unwrap();
    assert_eq!(queue.len(), 1);

    let item = queue.pop();
    assert_eq!(item, Some(42));
    assert_eq!(queue.len(), 0);
}

#[test]
fn push_and_pop_multiple_items() {
    let mut queue = Queue::new(3);

    queue.push(1).unwrap();
    queue.push(2).unwrap();
    queue.push(3).unwrap();

    assert_eq!(queue.pop(), Some(1));
    assert_eq!(queue.pop(), Some(2));
    assert_eq!(queue.pop(), Some(3));
}

#[test]
fn fifo_ordering() {
    let mut queue = Queue::new(5);

    for i in 0..5 {
        queue.push(i).unwrap();
    }

    for i in 0..5 {
        assert_eq!(queue.pop(), Some(i));
    }
}

#[test]
fn full_queue_rejects_push() {
    let mut queue = Queue::new(2);

    queue.push(1).unwrap();
    queue.push(2).unwrap();

    let result = queue.push(3);
    assert_eq!(result, Err(Error::Full(3)));
    assert_eq!(queue.len(), 2);
}

#[test]
fn failed_push_returns_the_item() {
    let mut queue = Queue::new(1);
    queue.push(String::from("kept")).unwrap();

    match queue.push(String::from("rejected")) {
        Err(Error::Full(item)) => assert_eq!(item, "rejected"),
        Ok(()) => panic!("push into a full queue must fail"),
    }
    assert_eq!(queue.len(), 1);
    assert_eq!(queue.pop(), Some(String::from("kept")));
}

#[test]
fn is_full_returns_true_at_capacity() {
    let mut queue = Queue::new(2);

    assert!(!queue.is_full());
    queue.push(1).unwrap();
    assert!(!queue.is_full());
    queue.push(2).unwrap();
    assert!(queue.is_full());
}

#[test]
fn empty_queue_returns_none() {
    let mut queue: Queue<i32> = Queue::new(3);

    assert_eq!(queue.pop(), None);
}

#[test]
fn is_empty_returns_true_when_empty() {
    let mut queue = Queue::new(2);

    assert!(queue.is_empty());
    queue.push(1).unwrap();
    assert!(!queue.is_empty());
    queue.pop();
    assert!(queue.is_empty());
}

#[test]
fn wraparound_behavior() {
    let mut queue = Queue::new(3);

    queue.push(1).unwrap();
    queue.push(2).unwrap();
    queue.push(3).unwrap();

    assert_eq!(queue.pop(), Some(1));
    assert_eq!(queue.pop(), Some(2));

    queue.push(4).unwrap();
    queue.push(5).unwrap();

    assert_eq!(queue.pop(), Some(3));
    assert_eq!(queue.pop(), Some(4));
    assert_eq!(queue.pop(), Some(5));
    assert!(queue.is_empty());
}

#[test]
fn multiple_wraparound_cycles() {
    let mut queue = Queue::new(2);

    for cycle in 0..5 {
        let base = cycle * 2;

        queue.push(base).unwrap();
        queue.push(base + 1).unwrap();
        assert!(queue.is_full());

        assert_eq!(queue.pop(), Some(base));
        assert_eq!(queue.pop(), Some(base + 1));
        assert!(queue.is_empty());
    }
}

#[test]
fn capacity_of_one() {
    let mut queue = Queue::new(1);

    assert!(queue.is_empty());
    queue.push(42).unwrap();
    assert!(queue.is_full());
    assert_eq!(queue.push(99), Err(Error::Full(99)));
    assert_eq!(queue.pop(), Some(42));
    assert!(queue.is_empty());
}

#[test]
fn works_with_non_copy_types() {
    let mut queue = Queue::new(2);

    queue.push(String::from("hello")).unwrap();
    queue.push(String::from("world")).unwrap();

    assert_eq!(queue.pop(), Some(String::from("hello")));
    assert_eq!(queue.pop(), Some(String::from("world")));
}

#[test]
fn rejected_item_can_be_taken_back() {
    let mut queue = Queue::new(1);
    queue.push(String::from("first")).unwrap();
    let error = queue.push(String::from("second")).unwrap_err();
    assert_eq!(error.message(), "queue is full");
    assert_eq!(error.into_item(), "second");
}

#[test]
fn capacity_is_fixed() {
    let mut queue = Queue::new(4);
    assert_eq!(queue.capacity(), 4);
    queue.push(1).unwrap();
    queue.pop();
    assert_eq!(queue.capacity(), 4);
}

#[test]
fn round_trip_returns_push_order() {
    let mut queue: Queue<u32> = Queue::new(8);
    let out = fifo_round_trip(&mut queue, vec![3, 1, 4, 1, 5, 9, 2, 6]);
    assert_eq!(out, vec![3, 1, 4, 1, 5, 9, 2, 6]);
    assert!(queue.is_empty());
}

#[test]
fn round_trip_cycles_end_empty() {
    let mut queue: Queue<u32> = Queue::new(3);
    for cycle in 0..3u32 {
        let base = cycle * 10;
        let out = fifo_round_trip(&mut queue, vec![base, base + 1, base + 2]);
        assert_eq!(out, vec![base, base + 1, base + 2]);
        assert!(queue.is_empty());
    }
}

#[test]
fn relay_keeps_order_across_many_wraps() {
    let mut queue: Queue<usize> = Queue::new(3);
    queue.push(0).unwrap();
    queue.push(1).unwrap();

    let items: Vec<usize> = (2..50).collect();
    let out = relay(&mut queue, items);

    let expected: Vec<usize> = (0..48).collect();
    assert_eq!(out, expected);
    assert_eq!(queue.pop(), Some(48));
    assert_eq!(queue.pop(), Some(49));
    assert_eq!(queue.pop(), None);
}
