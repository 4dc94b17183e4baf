use rust_threadpool::worker::{
    completion_reached, must_notify_completion, parked_worker_step, shutdown_poll_step,
    spin_worker_step, submit_wake_signal, ParkedStep, PollStep, SpinStep, WakeSignal,
};

const CAP: u64 = 100_000_000;

#[test]
fn spinning_worker_exits_on_done() {
    assert_eq!(spin_worker_step(true, false, 3, CAP), SpinStep::Exit);
    assert_eq!(spin_worker_step(true, true, 0, CAP), SpinStep::Exit);
}

#[test]
fn spinning_worker_runs_taken_task() {
    assert_eq!(spin_worker_step(false, true, 9, CAP), SpinStep::Run);
}

#[test]
fn spinning_worker_backs_off_exponentially() {
    assert_eq!(spin_worker_step(false, false, 0, CAP), SpinStep::Sleep(1));
    assert_eq!(spin_worker_step(false, false, 5, CAP), SpinStep::Sleep(32));
    assert_eq!(spin_worker_step(false, false, 60, CAP), SpinStep::Sleep(CAP));
}

#[test]
fn parked_worker_waits_only_while_empty_and_not_done() {
    assert_eq!(parked_worker_step(true, false), ParkedStep::Wait);
    assert_eq!(parked_worker_step(true, true), ParkedStep::Exit);
    assert_eq!(parked_worker_step(false, false), ParkedStep::Take);
    // a task accepted before shutdown is still taken, never dropped
    assert_eq!(parked_worker_step(false, true), ParkedStep::Take);
}

#[test]
fn submission_wakes_enough_workers() {
    assert_eq!(submit_wake_signal(0), WakeSignal::Nobody);
    assert_eq!(submit_wake_signal(1), WakeSignal::OneWorker);
    assert_eq!(submit_wake_signal(2), WakeSignal::AllWorkers);
    assert_eq!(submit_wake_signal(1000), WakeSignal::AllWorkers);
}

#[test]
fn only_the_possibly_last_decrement_notifies() {
    assert!(must_notify_completion(1));
    assert!(!must_notify_completion(2));
    assert!(!must_notify_completion(17));
}

#[test]
fn completion_needs_empty_queue_and_no_execution() {
    assert!(completion_reached(true, 0));
    assert!(!completion_reached(true, 1));
    assert!(!completion_reached(false, 0));
    assert!(!completion_reached(false, 3));
}

#[test]
fn shutdown_poll_proceeds_only_on_empty_queue() {
    assert_eq!(shutdown_poll_step(true, 12, CAP), PollStep::Proceed);
    assert_eq!(shutdown_poll_step(false, 0, CAP), PollStep::Sleep(1));
    assert_eq!(shutdown_poll_step(false, 4, CAP), PollStep::Sleep(16));
}
