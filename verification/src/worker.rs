//! The per-iteration decisions of the worker loops and of the shutdown
//! waits.
//!
//! The threads, locks, condition variables and sleeps live in the unverified
//! shell; every decision those loops take — park or proceed, run or back off,
//! exit or keep going, whom to wake — is computed here, from the values the
//! loop observed, with an exact contract.

use vstd::prelude::*;

verus! {

use crate::backoff::spec_backoff;
use crate::backoff::backoff_nanos;

/// What a spinning worker does next.
#[derive(Clone, Copy, PartialEq, Eq, Structural, Debug)]
pub enum SpinStep {
    /// The shutdown flag was observed: leave the loop.
    Exit,
    /// A task was taken: run it.
    Run,
    /// Nothing to take: sleep this many nanoseconds, then retry with a
    /// failure streak one longer.
    Sleep(u64),
}

/// One iteration of the spinning worker loop: exit once the shutdown flag is
/// up; otherwise run the task just taken, if any; otherwise back off with the
/// capped exponential delay for the current failure streak.
pub fn spin_worker_step(done: bool, took_task: bool, failures: u32, cap: u64) -> (d: SpinStep)
    ensures
        done ==> d == SpinStep::Exit,
        !done && took_task ==> d == SpinStep::Run,
        !done && !took_task ==> d == SpinStep::Sleep(spec_backoff(failures as nat, cap)),
{
    if done {
        SpinStep::Exit
    } else if took_task {
        SpinStep::Run
    } else {
        SpinStep::Sleep(backoff_nanos(failures, cap))
    }
}

/// What a parked worker does next, decided under the queue lock.
#[derive(Clone, Copy, PartialEq, Eq, Structural, Debug)]
pub enum ParkedStep {
    /// Queue empty, no shutdown: wait on the work condition variable (the
    /// wait releases the lock and re-checks on wake — the guard against
    /// spurious and stolen wakeups).
    Wait,
    /// Queue empty and shutdown signalled: everything is drained from the
    /// queue, leave the loop.
    Exit,
    /// Queue nonempty: take a task (whether or not shutdown has begun — an
    /// already-accepted task is never dropped).
    Take,
}

/// One decision of the condition-variable worker loop: the terminating state
/// is reachable only when the shutdown flag is up and the queue was observed
/// empty, atomically under the lock.
pub fn parked_worker_step(queue_empty: bool, done: bool) -> (d: ParkedStep)
    ensures
        queue_empty && !done ==> d == ParkedStep::Wait,
        queue_empty && done ==> d == ParkedStep::Exit,
        !queue_empty ==> d == ParkedStep::Take,
{
    if !queue_empty {
        ParkedStep::Take
    } else if done {
        ParkedStep::Exit
    } else {
        ParkedStep::Wait
    }
}

/// How many parked workers a submission must wake: none when it queued
/// nothing, one for a single task, all for a batch — one signal per several
/// new tasks risks leaving idle workers parked while work is available. Every
/// queue change that can satisfy a waiter's predicate is thus paired with a
/// sufficient notification (the missed-wakeup rule).
#[derive(Clone, Copy, PartialEq, Eq, Structural, Debug)]
pub enum WakeSignal {
    Nobody,
    OneWorker,
    AllWorkers,
}

/// The notification a submission owes after queuing `tasks_added` tasks.
pub fn submit_wake_signal(tasks_added: usize) -> (w: WakeSignal)
    ensures
        tasks_added == 0 ==> w == WakeSignal::Nobody,
        tasks_added == 1 ==> w == WakeSignal::OneWorker,
        tasks_added > 1 ==> w == WakeSignal::AllWorkers,
{
    if tasks_added == 0 {
        WakeSignal::Nobody
    } else if tasks_added == 1 {
        WakeSignal::OneWorker
    } else {
        WakeSignal::AllWorkers
    }
}

/// Whether the worker that just finished a task must notify the completion
/// waiter: exactly when its decrement of the executing count may have been
/// the last one — `before` is the count read just before decrementing. Waking
/// on every finish would be correct but a wake storm; never waking loses the
/// completion waiter forever.
pub fn must_notify_completion(executing_before: u32) -> (r: bool)
    ensures
        r == (executing_before == 1),
{
    executing_before == 1
}

/// Whether the counter-based completion wait may stop waiting: nothing
/// queued and nothing executing, both observed under the one queue lock.
/// "Queue empty" alone does not mean "no work in flight": a worker may have
/// taken the last task and not yet finished it.
pub fn completion_reached(queue_empty: bool, executing: u32) -> (r: bool)
    ensures
        r == (queue_empty && executing == 0),
{
    queue_empty && executing == 0
}

/// What the poll-based completion wait does next.
#[derive(Clone, Copy, PartialEq, Eq, Structural, Debug)]
pub enum PollStep {
    /// The queue was observed empty: proceed to raise the shutdown flag and
    /// join the workers (a task may still be executing — the join below
    /// blocks on actual thread exit, which preserves correctness).
    Proceed,
    /// Tasks remain queued: sleep this many nanoseconds, then poll again
    /// with a failure streak one longer.
    Sleep(u64),
}

/// One iteration of the poll-based completion wait, with the same capped
/// exponential back-off the spinning workers use.
pub fn shutdown_poll_step(queue_empty: bool, failures: u32, cap: u64) -> (d: PollStep)
    ensures
        queue_empty ==> d == PollStep::Proceed,
        !queue_empty ==> d == PollStep::Sleep(spec_backoff(failures as nat, cap)),
{
    if queue_empty {
        PollStep::Proceed
    } else {
        PollStep::Sleep(backoff_nanos(failures, cap))
    }
}

} // verus!
