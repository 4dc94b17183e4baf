use rust_threadpool::tracker::PoolTracker;

/// Runs one idle worker until everything is drained: take a task, finish it,
/// repeat. Mirrors a single worker's IDLE/EXECUTING cycle.
fn drain(t: &mut PoolTracker) {
    while !t.is_drained() {
        if let Some(_rec) = t.record_take() {
            t.record_finish(t.executing_count() - 1);
        }
    }
}

/// The full shutdown: signal done, drain, and let every worker exit.
fn shut_down(t: &mut PoolTracker) {
    t.record_shutdown();
    drain(t);
    while !t.all_workers_exited() {
        t.record_worker_exit();
    }
}

#[test]
fn exactly_once_single_submissions() {
    let mut t = PoolTracker::new(2, true);
    for _ in 0..3 {
        assert!(t.record_submit(1).is_some());
    }
    shut_down(&mut t);
    assert!(t.all_workers_exited());
    assert_eq!(t.completed_count(), 3);
    assert_eq!(t.submitted_count(), 3);
    // each submission number shows up exactly once in the completion record
    let mut seen = vec![false; 3];
    for i in 0..3 {
        let rec = t.completed_task(i);
        assert!(!seen[rec.id as usize]);
        seen[rec.id as usize] = true;
    }
    assert!(seen.iter().all(|&s| s));
}

#[test]
fn fifo_takes_oldest_first() {
    let mut t = PoolTracker::new(1, true);
    t.record_submit(1);
    t.record_submit(1);
    t.record_submit(1);
    let rec = t.record_take().unwrap();
    assert_eq!(rec.id, 0);
}

#[test]
fn lifo_takes_newest_first() {
    let mut t = PoolTracker::new(1, false);
    t.record_submit(1);
    t.record_submit(1);
    t.record_submit(1);
    let rec = t.record_take().unwrap();
    assert_eq!(rec.id, 2);
}

#[test]
fn take_on_empty_queue_returns_nothing() {
    let mut t = PoolTracker::new(1, true);
    assert!(t.record_take().is_none());
    assert_eq!(t.executing_count(), 0);
}

#[test]
fn no_lost_work_per_element() {
    for n in [0usize, 1, 1000] {
        let mut t = PoolTracker::new(4, true);
        assert!(t.record_submit_sequence(n));
        assert_eq!(t.submitted_count(), n);
        assert_eq!(t.total_items(), n as u64);
        shut_down(&mut t);
        assert_eq!(t.completed_items(), n as u64);
        assert_eq!(t.completed_count(), n);
    }
}

#[test]
fn no_lost_work_per_element_large() {
    let n: usize = 1_000_000;
    // newest-first keeps each take constant-time
    let mut t = PoolTracker::new(8, false);
    assert!(t.record_submit_sequence(n));
    shut_down(&mut t);
    assert_eq!(t.completed_items(), n as u64);
}

#[test]
fn no_lost_work_chunked() {
    let n: usize = 1000;
    for c in [1usize, 1000, 142] {
        let mut t = PoolTracker::new(4, false);
        assert!(t.record_submit_chunked(n, c));
        assert_eq!(t.total_items(), n as u64);
        shut_down(&mut t);
        assert_eq!(t.completed_items(), n as u64);
    }
}

#[test]
fn no_lost_work_chunked_large() {
    let n: usize = 1_000_000;
    for c in [1usize, n, n / 7] {
        let mut t = PoolTracker::new(4, false);
        assert!(t.record_submit_chunked(n, c));
        if c == n / 7 {
            assert_eq!(t.submitted_count(), 8);
        }
        shut_down(&mut t);
        assert_eq!(t.completed_items(), n as u64);
    }
}

#[test]
fn chunked_task_weights_follow_the_partition() {
    let mut t = PoolTracker::new(4, true);
    assert!(t.record_submit_chunked(10, 3));
    assert_eq!(t.submitted_count(), 4);
    assert_eq!(t.total_items(), 10);
    let w: Vec<u64> = (0..4).map(|_| t.record_take().unwrap().weight).collect();
    assert_eq!(w, vec![3, 3, 3, 1]);
    for i in (0..4).rev() {
        t.record_finish(i);
    }
    assert_eq!(t.completed_items(), 10);
}

#[test]
fn mixed_submissions_drain_to_the_exact_total() {
    let mut t = PoolTracker::new(3, true);
    t.record_submit(1);
    t.record_submit_sequence(50);
    t.record_submit_chunked(100, 7);
    t.record_submit(1);
    assert_eq!(t.total_items(), 152);
    shut_down(&mut t);
    assert_eq!(t.completed_items(), 152);
}

#[test]
fn slow_task_blocks_completion() {
    let mut t = PoolTracker::new(2, true);
    t.record_submit(1); // the slow task, blocked on a latch in a real pool
    t.record_submit(1);
    let slow = t.record_take().unwrap();
    assert_eq!(slow.id, 0);
    // the other worker drains the rest of the queue
    let other = t.record_take().unwrap();
    t.record_finish(1);
    assert_eq!(other.id, 1);
    // queue empty, yet not drained: the slow task still executes
    assert_eq!(t.pending_count(), 0);
    assert!(!t.is_drained());
    assert!(t.completed_items() < t.total_items());
    // releasing the latch finishes the task; only now is the pool drained
    t.record_finish(0);
    assert!(t.is_drained());
    assert_eq!(t.completed_items(), t.total_items());
}

#[test]
fn late_submissions_are_rejected() {
    let mut t = PoolTracker::new(1, true);
    t.record_submit(1);
    t.record_shutdown();
    assert!(t.record_submit(1).is_none());
    assert!(!t.record_submit_sequence(5));
    assert!(!t.record_submit_chunked(9, 2));
    assert_eq!(t.submitted_count(), 1);
    assert_eq!(t.total_items(), 1);
}

#[test]
fn interleaved_submitters_still_complete_everything() {
    // two submission streams interleaved, as concurrent callers would race
    let mut t = PoolTracker::new(2, true);
    for _ in 0..10 {
        t.record_submit(1);
        t.record_submit_chunked(6, 4);
        t.record_submit_sequence(3);
    }
    assert_eq!(t.total_items(), 100);
    shut_down(&mut t);
    assert_eq!(t.completed_items(), 100);
    assert_eq!(t.completed_count(), t.submitted_count());
}

#[test]
fn workers_exit_only_after_drain() {
    let mut t = PoolTracker::new(2, true);
    t.record_submit_sequence(5);
    shut_down(&mut t);
    assert!(t.all_workers_exited());
    assert_eq!(t.terminated_count(), 2);
    assert!(t.is_drained());
    assert!(t.is_done());
}

#[test]
fn out_of_order_finishes_lose_nothing() {
    let mut t = PoolTracker::new(3, true);
    t.record_submit_sequence(3);
    let a = t.record_take().unwrap();
    let b = t.record_take().unwrap();
    let c = t.record_take().unwrap();
    assert_eq!((a.id, b.id, c.id), (0, 1, 2));
    // finish in the order 1, 2, 0
    t.record_finish(1);
    t.record_finish(1);
    t.record_finish(0);
    assert!(t.is_drained());
    assert_eq!(t.completed_count(), 3);
    let done_ids: Vec<u64> = (0..3).map(|i| t.completed_task(i).id).collect();
    assert_eq!(done_ids, vec![1, 2, 0]);
}
