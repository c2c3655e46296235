use nate_engine::SchedulingQueue;
use nate_engine::SystemWrapper;

fn entry(system: u32, update_rate: u128, priority: u128) -> SystemWrapper<u32> {
    SystemWrapper { system, update_rate, priority }
}

#[test]
fn new_queue_is_empty() {
    let mut queue: SchedulingQueue<u32> = SchedulingQueue::new();
    assert_eq!(queue.len(), 0);
    assert!(queue.is_empty());
    assert!(queue.peek().is_none());
    assert!(queue.pop().is_none());
    assert_eq!(queue.len(), 0);
}

#[test]
fn pop_returns_smallest_priority_first() {
    let mut queue = SchedulingQueue::new();
    for (system, priority) in [(0u32, 700u128), (1, 100), (2, 900), (3, 300), (4, 500), (5, 200)] {
        queue.push(entry(system, 10, priority));
    }
    assert_eq!(queue.len(), 6);
    let mut seen = Vec::new();
    while let Some(next) = queue.pop() {
        seen.push((next.priority, next.system));
    }
    assert_eq!(seen, vec![(100, 1), (200, 5), (300, 3), (500, 4), (700, 0), (900, 2)]);
    assert!(queue.is_empty());
}

#[test]
fn pop_keeps_entries_with_equal_priority() {
    let mut queue = SchedulingQueue::new();
    queue.push(entry(1, 10, 50));
    queue.push(entry(2, 20, 50));
    queue.push(entry(3, 30, 40));
    let first = queue.pop().unwrap();
    assert_eq!((first.system, first.priority), (3, 40));
    let second = queue.pop().unwrap();
    let third = queue.pop().unwrap();
    assert_eq!(second.priority, 50);
    assert_eq!(third.priority, 50);
    let mut systems = vec![second.system, third.system];
    systems.sort();
    assert_eq!(systems, vec![1, 2]);
    assert!(queue.pop().is_none());
}

#[test]
fn peek_leaves_the_entry_in_place() {
    let mut queue = SchedulingQueue::new();
    queue.push(entry(7, 5, 30));
    queue.push(entry(8, 5, 20));
    let (system, priority) = {
        let next = queue.peek().unwrap();
        (next.system, next.priority)
    };
    assert_eq!((system, priority), (8, 20));
    assert_eq!(queue.len(), 2);
    let popped = queue.pop().unwrap();
    assert_eq!((popped.system, popped.priority), (8, 20));
    assert_eq!(queue.len(), 1);
}

#[test]
fn pop_and_reinsert_keeps_the_count() {
    let mut queue = SchedulingQueue::new();
    queue.push(entry(0, 100_000, 100_000));
    queue.push(entry(1, 250_000, 250_000));
    queue.push(entry(2, 70_000, 70_000));
    let mut last = 0u128;
    for _ in 0..1000 {
        let mut next = queue.pop().unwrap();
        assert_eq!(queue.len(), 2);
        assert!(next.priority >= last);
        last = next.priority;
        next.advance();
        queue.push(next);
        assert_eq!(queue.len(), 3);
    }
}

#[test]
fn queue_orders_many_entries() {
    let mut queue = SchedulingQueue::new();
    let mut expected = Vec::new();
    let mut state: u64 = 0x2545_f491_4f6c_dd1d;
    for system in 0..500u32 {
        state = state.wrapping_mul(6364136223846793005).wrapping_add(1442695040888963407);
        let priority = u128::from(state >> 40);
        expected.push(priority);
        queue.push(entry(system, 1, priority));
    }
    expected.sort();
    let mut popped = Vec::new();
    while let Some(next) = queue.pop() {
        popped.push(next.priority);
    }
    assert_eq!(popped, expected);
}

#[test]
fn queue_takes_entries_after_it_ran_empty() {
    let mut queue = SchedulingQueue::new();
    queue.push(entry(1, 1, 9));
    assert_eq!(queue.pop().unwrap().priority, 9);
    assert!(queue.pop().is_none());
    queue.push(entry(2, 1, 4));
    queue.push(entry(3, 1, 2));
    assert_eq!(queue.pop().unwrap().system, 3);
    assert_eq!(queue.pop().unwrap().system, 2);
}
