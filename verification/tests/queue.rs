use scottqueue::tlqueue::Queue;

#[test]
fn test_single_item() {
    let mut q: Queue<i64> = Queue::new();
    q.push(1);
    assert_eq!(q.pop().unwrap(), 1);
}

#[test]
fn test_queue() {
    let values = &vec![1, 2, 3, 4, 5];
    let mut q: Queue<i64> = Queue::new();
    for value in values {
        q.push(*value);
    }
    let mut results: Vec<i64> = vec![];
    for _ in 0..5 {
        results.push(q.pop().unwrap());
    }
    assert_eq!(&results, values);
}

#[test]
fn test_iterator() {
    let values = &vec![1, 2, 3, 4, 5];
    let mut q: Queue<i64> = Queue::new();
    for value in values {
        q.push(*value);
    }
    let results: Vec<i64> = q.drain_sequence();
    assert_eq!(&results, values);
}

#[test]
fn test_from_iterator() {
    let values = &vec![1, 2, 3, 4, 5];
    let mut q: Queue<i64> = Queue::from_sequence(values.clone());
    let results: Vec<i64> = q.drain_sequence();
    assert_eq!(&results, values);
}

#[test]
fn empty_on_start() {
    let mut q: Queue<u32> = Queue::new();
    assert_eq!(q.pop(), None);
}

#[test]
fn drain_then_refill() {
    let mut q: Queue<u32> = Queue::new();
    q.push(10);
    q.push(20);
    assert_eq!(q.pop(), Some(10));
    assert_eq!(q.pop(), Some(20));
    assert_eq!(q.pop(), None);
    q.push(42);
    assert_eq!(q.pop(), Some(42));
    assert_eq!(q.pop(), None);
}

#[test]
fn repeated_pop_on_drained() {
    let mut q: Queue<u8> = Queue::new();
    q.push(7);
    assert_eq!(q.pop(), Some(7));
    for _ in 0..10 {
        assert_eq!(q.pop(), None);
    }
    q.push(8);
    assert_eq!(q.pop(), Some(8));
}

#[test]
fn from_sequence_empty() {
    let mut q: Queue<u64> = Queue::from_sequence(vec![]);
    assert_eq!(q.pop(), None);
    let results: Vec<u64> = q.drain_sequence();
    assert!(results.is_empty());
}

#[test]
fn non_copy_values() {
    let mut q: Queue<String> = Queue::new();
    q.push(String::from("first"));
    q.push(String::from("second"));
    assert_eq!(q.pop(), Some(String::from("first")));
    q.push(String::from("third"));
    assert_eq!(q.pop(), Some(String::from("second")));
    assert_eq!(q.pop(), Some(String::from("third")));
    assert_eq!(q.pop(), None);
}

#[test]
fn interleaved_no_loss_no_duplication() {
    // A serialized interleaving of pushes and pops: every pushed value comes
    // out exactly once, in push order, across many sentinel promotions.
    let mut q: Queue<usize> = Queue::new();
    let mut popped: Vec<usize> = vec![];
    let mut next: usize = 0;
    for round in 0..100 {
        for _ in 0..(round % 7) + 1 {
            q.push(next);
            next += 1;
        }
        for _ in 0..(round % 5) {
            if let Some(v) = q.pop() {
                popped.push(v);
            }
        }
    }
    popped.extend(q.drain_sequence());
    let expected: Vec<usize> = (0..next).collect();
    assert_eq!(popped, expected);
}

#[test]
fn drain_leaves_queue_usable() {
    let mut q: Queue<i64> = Queue::from_sequence(vec![1, 2, 3]);
    assert_eq!(q.drain_sequence(), vec![1, 2, 3]);
    assert_eq!(q.drain_sequence(), Vec::<i64>::new());
    q.push(4);
    assert_eq!(q.drain_sequence(), vec![4]);
}
