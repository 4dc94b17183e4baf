use rust_threadpool::queue::TaskQueue;

#[test]
fn starts_empty() {
    let q: TaskQueue<u64> = TaskQueue::new();
    assert!(q.is_empty());
    assert_eq!(q.len(), 0);
}

#[test]
fn fifo_pops_oldest_first() {
    let mut q: TaskQueue<u64> = TaskQueue::new();
    q.push_back(10);
    q.push_back(20);
    q.push_back(30);
    assert_eq!(q.len(), 3);
    assert_eq!(q.pop_front(), Some(10));
    assert_eq!(q.pop_front(), Some(20));
    assert_eq!(q.pop_front(), Some(30));
    assert_eq!(q.pop_front(), None);
}

#[test]
fn lifo_pops_newest_first() {
    let mut q: TaskQueue<u64> = TaskQueue::new();
    q.push_back(10);
    q.push_back(20);
    q.push_back(30);
    assert_eq!(q.pop_back(), Some(30));
    assert_eq!(q.pop_back(), Some(20));
    assert_eq!(q.pop_back(), Some(10));
    assert_eq!(q.pop_back(), None);
}

#[test]
fn pops_on_empty_change_nothing() {
    let mut q: TaskQueue<u64> = TaskQueue::new();
    assert_eq!(q.pop_front(), None);
    assert_eq!(q.pop_back(), None);
    q.push_back(7);
    assert_eq!(q.len(), 1);
}

#[test]
fn reserve_keeps_contents() {
    let mut q: TaskQueue<u64> = TaskQueue::new();
    q.push_back(1);
    q.push_back(2);
    q.reserve(1000);
    assert_eq!(q.len(), 2);
    assert_eq!(q.pop_front(), Some(1));
    assert_eq!(q.pop_front(), Some(2));
}

#[test]
fn holds_owned_boxed_values() {
    // the pool's queue holds type-erased one-shot callables; box moves work
    let mut q: TaskQueue<Box<u64>> = TaskQueue::new();
    q.push_back(Box::new(42));
    assert_eq!(q.pop_front(), Some(Box::new(42)));
}
